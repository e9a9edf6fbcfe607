//! Text areas of `ratatui-textarea`, as far as the client reads and fills them.
//!
//! A text area holds lines of text, a cursor and possibly a selection, and may
//! mask its text. Four names stand for these, and a fifth for what a key leads to;
//! each wrapper says over them what the outside method does. A text area always has
//! a line, and its cursor and the place where a selection was begun stand in the
//! text: the outside methods keep that, and check it after each key.

use vstd::prelude::*;
use ratatui_textarea::{Input, Key, TextArea};
use crate::keys::{KeyCode, KeyEvent, KeyEventKind};
use crate::text::join;
#[allow(unused_imports)]
use crate::text::{
    joined, law_join_undoes_split, lemma_pieces_nonempty, pieces, texts, Separator,
};

verus! {

/// A text area of `ratatui-textarea`.
#[verifier::external_body]
pub struct Area {
    inner: TextArea<'static>,
}

/// The lines of a text area.
pub uninterp spec fn area_lines(area: Area) -> Seq<Seq<char>>;

/// Row and column of the cursor of a text area, counted in characters.
pub uninterp spec fn area_cursor(area: Area) -> (nat, nat);

/// Where the selection in a text area was begun; none where nothing is being
/// selected.
pub uninterp spec fn area_anchor(area: Area) -> Option<(nat, nat)>;

/// The character that every character of a text area is drawn as; none where the
/// text is drawn as it is.
pub uninterp spec fn area_mask(area: Area) -> Option<char>;

/// The cursor stands in the text, or just behind the end of a line.
pub open spec fn cursor_in_text(lines: Seq<Seq<char>>, cursor: (nat, nat)) -> bool {
    cursor.0 < lines.len() && cursor.1 <= lines[cursor.0 as int].len()
}

/// Text is being selected.
pub open spec fn area_selecting(area: Area) -> bool {
    area_anchor(area) is Some
}

/// The cursor, and where a selection was begun, stand in the text.
pub open spec fn area_sound(area: Area) -> bool {
    &&& cursor_in_text(area_lines(area), area_cursor(area))
    &&& area_anchor(area) matches Some(place) ==> cursor_in_text(area_lines(area), place)
}

/// Nothing is being selected and the cursor stands in the text.
pub open spec fn area_ready(area: Area) -> bool {
    !area_selecting(area) && cursor_in_text(area_lines(area), area_cursor(area))
}

/// What is typed in an area, and where.
pub struct AreaView {
    pub lines: Seq<Seq<char>>,
    pub cursor: (nat, nat),
    pub anchor: Option<(nat, nat)>,
}

pub open spec fn area_view(area: Area) -> AreaView {
    AreaView {
        lines: area_lines(area),
        cursor: area_cursor(area),
        anchor: area_anchor(area),
    }
}

/// A place in a text stands before another.
pub open spec fn stands_before(a: (nat, nat), b: (nat, nat)) -> bool {
    a.0 < b.0 || (a.0 == b.0 && a.1 < b.1)
}

/// `lines` without what stands between two places.
pub open spec fn without_range(lines: Seq<Seq<char>>, from: (nat, nat), to: (nat, nat)) -> Seq<
    Seq<char>,
> {
    let joint = lines[from.0 as int].take(from.1 as int) + lines[to.0 as int].skip(to.1 as int);
    lines.take(from.0 as int) + seq![joint] + lines.skip((to.0 + 1) as int)
}

/// Some text is selected.
pub open spec fn has_selection(area: Area) -> bool {
    area_anchor(area) matches Some(place) && place != area_cursor(area)
}

/// The lines of an area without the selected text.
pub open spec fn kept_lines(area: Area) -> Seq<Seq<char>> {
    let cursor = area_cursor(area);
    if !has_selection(area) {
        area_lines(area)
    } else if stands_before(area_anchor(area)->0, cursor) {
        without_range(area_lines(area), area_anchor(area)->0, cursor)
    } else {
        without_range(area_lines(area), cursor, area_anchor(area)->0)
    }
}

/// Where the cursor stands once the selected text is gone.
pub open spec fn kept_cursor(area: Area) -> (nat, nat) {
    if has_selection(area) && stands_before(area_anchor(area)->0, area_cursor(area)) {
        area_anchor(area)->0
    } else {
        area_cursor(area)
    }
}

/// `s` without one carriage return at its end.
pub open spec fn without_return(s: Seq<char>) -> Seq<char> {
    if s.len() > 0 && s[s.len() - 1] == '\r' {
        s.take(s.len() - 1)
    } else {
        s
    }
}

/// The lines of an inserted text: split at line feeds, each without one
/// carriage return at its end.
pub open spec fn inserted_lines(s: Seq<char>) -> Seq<Seq<char>> {
    let parts = pieces(s, Separator::Char('\n'));
    Seq::new(parts.len(), |i: int| without_return(parts[i]))
}

/// `lines` with `new` inserted at the cursor: the first new line continues the
/// text before the cursor, the last one is followed by the text behind it.
pub open spec fn spliced(lines: Seq<Seq<char>>, cursor: (nat, nat), new: Seq<Seq<char>>) -> Seq<
    Seq<char>,
> {
    let row = cursor.0 as int;
    let head = lines[row].take(cursor.1 as int);
    let tail = lines[row].skip(cursor.1 as int);
    if new.len() == 1 {
        lines.update(row, head + new[0] + tail)
    } else {
        lines.take(row) + seq![head + new[0]] + new.subrange(1, new.len() - 1) + seq![
            new[new.len() - 1] + tail,
        ] + lines.skip(row + 1)
    }
}

/// Where the cursor stands after `new` was inserted at it.
pub open spec fn cursor_after(cursor: (nat, nat), new: Seq<Seq<char>>) -> (nat, nat) {
    if new.len() == 1 {
        (cursor.0, cursor.1 + new[0].len())
    } else {
        ((cursor.0 + new.len() - 1) as nat, new[new.len() - 1].len())
    }
}

/// The end of a text.
pub open spec fn text_end(lines: Seq<Seq<char>>) -> (nat, nat) {
    ((lines.len() - 1) as nat, lines[lines.len() - 1].len())
}

/// What is typed into a text area as one string: its lines, joined by line
/// feeds.
pub open spec fn area_text(area: Area) -> Seq<char> {
    joined(area_lines(area), seq!['\n'])
}

/// A cursor move.
#[derive(Clone, Copy, PartialEq, Eq, Debug, Structural)]
pub enum CaretMove {
    /// To the end of the line.
    End,
    /// To a row and column, or as near to it as the text reaches.
    Jump(u16, u16),
}

/// Where a cursor move leads.
pub open spec fn moved(lines: Seq<Seq<char>>, cursor: (nat, nat), to: CaretMove) -> (nat, nat) {
    match to {
        CaretMove::End => (cursor.0, lines[cursor.0 as int].len()),
        CaretMove::Jump(row, col) => {
            let r: nat = if row < lines.len() {
                row as nat
            } else {
                (lines.len() - 1) as nat
            };
            let len = lines[r as int].len();
            (r, if col <= len {
                col as nat
            } else {
                len
            })
        },
    }
}

/// `TextArea::new` makes a text area of the given lines (of one empty line
/// where there are none) with the cursor at its start, nothing selected and no
/// mask.
#[verifier::external_body]
pub(crate) fn area_of(lines: Vec<String>) -> (area: Area)
    ensures
        area_lines(area) == (if lines@.len() == 0 {
            seq![Seq::<char>::empty()]
        } else {
            texts(lines@)
        }),
        area_cursor(area) == (0nat, 0nat),
        area_anchor(area) is None,
        area_mask(area) is None,
{
    Area { inner: TextArea::new(lines) }
}

/// `TextArea::set_cursor_line_style` sets how the cursor's line is drawn, and
/// changes neither text, cursor, selection nor mask.
#[verifier::external_body]
pub(crate) fn plain_cursor_line(area: &mut Area)
    ensures
        area_mask(*final(area)) == area_mask(*old(area)),
        area_lines(*final(area)) == area_lines(*old(area)),
        area_cursor(*final(area)) == area_cursor(*old(area)),
        area_anchor(*final(area)) == area_anchor(*old(area)),
{
    area.inner.set_cursor_line_style(ratatui::style::Style::default());
}

/// `TextArea::set_mask_char` has the text drawn as one character, and changes
/// neither text, cursor nor selection.
#[verifier::external_body]
pub(crate) fn mask_with(area: &mut Area, c: char)
    ensures
        area_mask(*final(area)) == Some(c),
        area_lines(*final(area)) == area_lines(*old(area)),
        area_cursor(*final(area)) == area_cursor(*old(area)),
        area_anchor(*final(area)) == area_anchor(*old(area)),
{
    area.inner.set_mask_char(c);
}

/// `TextArea::mask_char` gives the character that the text is drawn as, where one
/// was set.
#[verifier::external_body]
fn mask_of(area: &Area) -> (mask: Option<char>)
    ensures
        mask == area_mask(*area),
{
    area.inner.mask_char()
}

/// `TextArea::lines` gives the lines of the text. There is always at least one.
#[verifier::external_body]
pub(crate) fn lines_of(area: &Area) -> (lines: Vec<String>)
    ensures
        texts(lines@) == area_lines(*area),
        lines@.len() > 0,
{
    let lines: &[String] = area.inner.lines();
    lines.to_vec()
}

/// `TextArea::cursor` gives row and column of the cursor.
#[verifier::external_body]
pub(crate) fn cursor_of(area: &Area) -> (at: (usize, usize))
    ensures
        (at.0 as nat, at.1 as nat) == area_cursor(*area),
{
    let cursor = area.inner.cursor();
    (cursor.0, cursor.1)
}

/// `TextArea::insert_str` takes the selected text away, inserts a text at the
/// cursor and leaves the cursor behind it; line feeds break lines, and a carriage
/// return before a line feed or at the end of the text is dropped. A selection ends
/// with the call. The mask stays.
#[verifier::external_body]
pub(crate) fn insert_text(area: &mut Area, text: &str)
    ensures
        area_mask(*final(area)) == area_mask(*old(area)),
        area_ready(*final(area)),
        area_lines(*final(area)) == spliced(
            kept_lines(*old(area)),
            kept_cursor(*old(area)),
            inserted_lines(text@),
        ),
        area_cursor(*final(area)) == cursor_after(kept_cursor(*old(area)), inserted_lines(text@)),
{
    area.inner.insert_str(text);
}

/// `TextArea::insert_newline` takes the selected text away and breaks the line at
/// the cursor, which then stands at the start of the new line. A selection ends with
/// the call. The mask stays.
#[verifier::external_body]
pub(crate) fn insert_line_break(area: &mut Area)
    ensures
        area_mask(*final(area)) == area_mask(*old(area)),
        area_ready(*final(area)),
        area_lines(*final(area)) == spliced(
            kept_lines(*old(area)),
            kept_cursor(*old(area)),
            seq![Seq::<char>::empty(), Seq::<char>::empty()],
        ),
        area_cursor(*final(area)) == ((kept_cursor(*old(area)).0 + 1) as nat, 0nat),
{
    area.inner.insert_newline();
}

/// `TextArea::move_cursor` moves the cursor and changes nothing else: where text is
/// being selected, the selection goes on.
#[verifier::external_body]
pub(crate) fn move_caret(area: &mut Area, to: CaretMove)
    ensures
        area_mask(*final(area)) == area_mask(*old(area)),
        area_lines(*final(area)) == area_lines(*old(area)),
        area_anchor(*final(area)) == area_anchor(*old(area)),
        area_cursor(*final(area)) == moved(area_lines(*old(area)), area_cursor(*old(area)), to),
        area_sound(*final(area)),
{
    area.inner.move_cursor(match to {
        CaretMove::End => ratatui_textarea::CursorMove::End,
        CaretMove::Jump(row, col) => ratatui_textarea::CursorMove::Jump(row, col),
    });
}

/// A step of the cursor.
#[derive(Clone, Copy, PartialEq, Eq, Debug, Structural)]
pub enum Step {
    Forward,
    Back,
    Up,
    Down,
    LineStart,
    LineEnd,
    /// To the first line.
    Top,
    /// To the last line.
    Bottom,
    /// By a word or a paragraph.
    Far,
    /// By a page.
    Page,
}

/// What a key does in a text area.
#[derive(Clone, Copy, PartialEq, Eq, Debug, Structural)]
pub enum KeyEdit {
    /// The character is inserted.
    Insert(char),
    /// The line is broken.
    Break,
    /// Blanks are inserted up to the next tab stop.
    Tab,
    /// The character before the cursor is deleted.
    Erase,
    /// The character behind the cursor is deleted.
    EraseNext,
    /// The word before or behind the cursor is deleted.
    EraseWord,
    /// The line is deleted from the cursor on.
    CutEnd,
    /// The line is deleted up to the cursor.
    CutHead,
    /// The selected text is deleted.
    Cut,
    /// The selected text is copied.
    Copy,
    /// The copied text is inserted.
    Paste,
    /// The cursor goes elsewhere; with Shift, text is selected.
    Go { to: Step, shift: bool },
    Nothing,
    /// An edit is undone, or done again.
    Revise,
}

/// What a character does while Control is held, Alt is not.
pub open spec fn control_edit(c: char, shift: bool) -> KeyEdit {
    match c {
        'm' => KeyEdit::Break,
        'h' => KeyEdit::Erase,
        'd' => KeyEdit::EraseNext,
        'w' => KeyEdit::EraseWord,
        'k' => KeyEdit::CutEnd,
        'j' => KeyEdit::CutHead,
        'x' => KeyEdit::Cut,
        'c' => KeyEdit::Copy,
        'y' => KeyEdit::Paste,
        'u' | 'r' => KeyEdit::Revise,
        'f' => KeyEdit::Go { to: Step::Forward, shift },
        'b' => KeyEdit::Go { to: Step::Back, shift },
        'p' => KeyEdit::Go { to: Step::Up, shift },
        'n' => KeyEdit::Go { to: Step::Down, shift },
        'a' => KeyEdit::Go { to: Step::LineStart, shift },
        'e' => KeyEdit::Go { to: Step::LineEnd, shift },
        'v' => KeyEdit::Go { to: Step::Page, shift },
        _ => KeyEdit::Nothing,
    }
}

/// What a character does while Alt is held, Control is not.
pub open spec fn alt_edit(c: char, shift: bool) -> KeyEdit {
    match c {
        'h' | 'd' => KeyEdit::EraseWord,
        '<' => KeyEdit::Go { to: Step::Top, shift },
        '>' => KeyEdit::Go { to: Step::Bottom, shift },
        'f' | 'b' | ']' | 'n' | '[' | 'p' => KeyEdit::Go { to: Step::Far, shift },
        'v' => KeyEdit::Go { to: Step::Page, shift },
        _ => KeyEdit::Nothing,
    }
}

/// What a character does while Control and Alt are held.
pub open spec fn control_alt_edit(c: char, shift: bool) -> KeyEdit {
    match c {
        'b' => KeyEdit::Go { to: Step::LineStart, shift },
        'f' => KeyEdit::Go { to: Step::LineEnd, shift },
        'p' => KeyEdit::Go { to: Step::Top, shift },
        'n' => KeyEdit::Go { to: Step::Bottom, shift },
        _ => KeyEdit::Nothing,
    }
}

/// What an arrow key does: `plain` by itself, a longer step with Control, and
/// `end` with Control and Alt.
pub open spec fn arrow_edit(plain: Step, end: Step, ctrl: bool, alt: bool, shift: bool) -> KeyEdit {
    if ctrl && alt {
        KeyEdit::Go { to: end, shift }
    } else if ctrl {
        KeyEdit::Go { to: Step::Far, shift }
    } else if alt {
        KeyEdit::Nothing
    } else {
        KeyEdit::Go { to: plain, shift }
    }
}

/// What a deleting key does: `plain` by itself, a word with Alt.
pub open spec fn deleting_edit(plain: KeyEdit, ctrl: bool, alt: bool) -> KeyEdit {
    if ctrl {
        KeyEdit::Nothing
    } else if alt {
        KeyEdit::EraseWord
    } else {
        plain
    }
}

/// What a key does with given modifiers.
pub open spec fn key_edit(code: KeyCode, ctrl: bool, alt: bool, shift: bool) -> KeyEdit {
    match code {
        KeyCode::Char(c) => if ctrl && alt {
            control_alt_edit(c, shift)
        } else if ctrl {
            control_edit(c, shift)
        } else if alt {
            alt_edit(c, shift)
        } else if c == '\n' || c == '\r' {
            KeyEdit::Break
        } else {
            KeyEdit::Insert(c)
        },
        KeyCode::Enter => KeyEdit::Break,
        KeyCode::Tab | KeyCode::BackTab => if ctrl || alt {
            KeyEdit::Nothing
        } else {
            KeyEdit::Tab
        },
        KeyCode::Backspace => deleting_edit(KeyEdit::Erase, ctrl, alt),
        KeyCode::Delete => deleting_edit(KeyEdit::EraseNext, ctrl, alt),
        KeyCode::Right => arrow_edit(Step::Forward, Step::LineEnd, ctrl, alt, shift),
        KeyCode::Left => arrow_edit(Step::Back, Step::LineStart, ctrl, alt, shift),
        KeyCode::Up => arrow_edit(Step::Up, Step::Top, ctrl, alt, shift),
        KeyCode::Down => arrow_edit(Step::Down, Step::Bottom, ctrl, alt, shift),
        KeyCode::Home => KeyEdit::Go { to: Step::LineStart, shift },
        KeyCode::End => KeyEdit::Go { to: Step::LineEnd, shift },
        KeyCode::PageUp | KeyCode::PageDown => KeyEdit::Go { to: Step::Page, shift },
        KeyCode::Esc | KeyCode::F(_) | KeyCode::Other => KeyEdit::Nothing,
    }
}

/// `lines` without the character, or the line break, before the cursor.
pub open spec fn erased(lines: Seq<Seq<char>>, cursor: (nat, nat)) -> Seq<Seq<char>> {
    let row = cursor.0 as int;
    let col = cursor.1 as int;
    if col > 0 {
        lines.update(row, lines[row].take(col - 1) + lines[row].skip(col))
    } else if row > 0 {
        lines.take(row - 1) + seq![lines[row - 1] + lines[row]] + lines.skip(row + 1)
    } else {
        lines
    }
}

/// Where the cursor stands after what is before it was deleted.
pub open spec fn cursor_erased(lines: Seq<Seq<char>>, cursor: (nat, nat)) -> (nat, nat) {
    if cursor.1 > 0 {
        (cursor.0, (cursor.1 - 1) as nat)
    } else if cursor.0 > 0 {
        ((cursor.0 - 1) as nat, lines[cursor.0 - 1].len())
    } else {
        cursor
    }
}

/// A character that takes one column by itself: the printable ones of ASCII.
pub open spec fn one_column(c: char) -> bool {
    0x20 <= c as u32 <= 0x7e
}

/// Every character of `s` takes one column.
pub open spec fn one_column_each(s: Seq<char>) -> bool {
    forall|i: int| 0 <= i < s.len() ==> one_column(#[trigger] s[i])
}

/// `lines` without the character, or the line break, behind the cursor.
pub open spec fn erased_next(lines: Seq<Seq<char>>, cursor: (nat, nat)) -> Seq<Seq<char>> {
    let row = cursor.0 as int;
    let col = cursor.1 as int;
    if col < lines[row].len() {
        lines.update(row, lines[row].take(col) + lines[row].skip(col + 1))
    } else if row + 1 < lines.len() {
        lines.take(row) + seq![lines[row] + lines[row + 1]] + lines.skip(row + 2)
    } else {
        lines
    }
}

/// `lines` without what stands behind the cursor in its line; at the end of the
/// line, without the line break.
pub open spec fn cut_end(lines: Seq<Seq<char>>, cursor: (nat, nat)) -> Seq<Seq<char>> {
    let row = cursor.0 as int;
    let col = cursor.1 as int;
    if col < lines[row].len() {
        lines.update(row, lines[row].take(col))
    } else {
        erased_next(lines, cursor)
    }
}

/// `lines` without what stands before the cursor in its line; at the start of the
/// line, without the line break before it.
pub open spec fn cut_head(lines: Seq<Seq<char>>, cursor: (nat, nat)) -> Seq<Seq<char>> {
    let row = cursor.0 as int;
    if cursor.1 > 0 {
        lines.update(row, lines[row].skip(cursor.1 as int))
    } else {
        erased(lines, cursor)
    }
}

/// A column, cut to the length of a line.
pub open spec fn column_in(line: Seq<char>, col: nat) -> nat {
    if col <= line.len() {
        col
    } else {
        line.len()
    }
}

/// Where a step leads; none where there is nowhere to go, or the step goes by
/// words, paragraphs or pages.
pub open spec fn step_target(lines: Seq<Seq<char>>, cursor: (nat, nat), to: Step) -> Option<
    (nat, nat),
> {
    let row = cursor.0 as int;
    match to {
        Step::Forward => if cursor.1 < lines[row].len() {
            Some((cursor.0, cursor.1 + 1))
        } else if row + 1 < lines.len() {
            Some((cursor.0 + 1, 0nat))
        } else {
            None
        },
        Step::Back => if cursor.1 > 0 {
            Some((cursor.0, (cursor.1 - 1) as nat))
        } else if row > 0 {
            Some(((cursor.0 - 1) as nat, lines[row - 1].len()))
        } else {
            None
        },
        Step::Up => if row > 0 {
            Some(((cursor.0 - 1) as nat, column_in(lines[row - 1], cursor.1)))
        } else {
            None
        },
        Step::Down => if row + 1 < lines.len() {
            Some((cursor.0 + 1, column_in(lines[row + 1], cursor.1)))
        } else {
            None
        },
        Step::LineStart => Some((cursor.0, 0nat)),
        Step::LineEnd => Some((cursor.0, lines[row].len())),
        Step::Top => Some((0nat, column_in(lines[0], cursor.1))),
        Step::Bottom => Some(
            ((lines.len() - 1) as nat, column_in(lines[lines.len() - 1], cursor.1)),
        ),
        Step::Far | Step::Page => None,
    }
}

/// The characters that a step goes by take one column each and are drawn as they
/// are; other steps do not go by columns.
pub open spec fn step_stated(area: Area, to: Step) -> bool {
    let lines = area_lines(area);
    let row = area_cursor(area).0 as int;
    let col = area_cursor(area).1 as int;
    let bare = area_mask(area) is None;
    match to {
        Step::Forward => col < lines[row].len() ==> bare && one_column(lines[row][col]),
        Step::Back => if col > 0 {
            bare && one_column(lines[row][col - 1])
        } else {
            row > 0 && lines[row - 1].len() > 0 ==> bare && one_column(lines[row - 1].last())
        },
        Step::Up => row > 0 ==> bare && one_column_each(lines[row].take(col)) && one_column_each(
            lines[row - 1],
        ),
        Step::Down => row + 1 < lines.len() ==> bare && one_column_each(lines[row].take(col))
            && one_column_each(lines[row + 1]),
        Step::LineStart | Step::LineEnd | Step::Top | Step::Bottom => true,
        Step::Far | Step::Page => false,
    }
}

/// Where a selection was begun once the cursor moved: with Shift at the cursor, if
/// not before; without Shift nothing is selected any more.
pub open spec fn anchored(area: Area, shift: bool) -> Option<(nat, nat)> {
    if !shift {
        None
    } else if area_selecting(area) {
        area_anchor(area)
    } else {
        Some(area_cursor(area))
    }
}

/// The area after a step of the cursor.
pub open spec fn gone(before: Area, to: Step, shift: bool, after: Area) -> bool {
    let stays = area_view(after) == area_view(before);
    &&& area_lines(after) == area_lines(before)
    &&& stays || area_anchor(after) == anchored(before, shift)
    &&& to == Step::Page ==> area_anchor(after) == anchored(before, shift)
    &&& step_stated(before, to) ==> match step_target(
        area_lines(before),
        area_cursor(before),
        to,
    ) {
        Some(place) => area_cursor(after) == place && area_anchor(after) == anchored(
            before,
            shift,
        ),
        None => stays,
    }
}

/// The area holds these lines, with the cursor there and nothing selected.
pub open spec fn rests(after: Area, lines: Seq<Seq<char>>, cursor: (nat, nat)) -> bool {
    &&& area_lines(after) == lines
    &&& area_cursor(after) == cursor
    &&& area_anchor(after) is None
}

/// The selected text was deleted; nothing is selected any more.
pub open spec fn selection_cut(before: Area, after: Area) -> bool {
    rests(after, kept_lines(before), kept_cursor(before))
}

/// The blanks up to the next tab stop.
pub open spec fn tab_blanks(col: nat) -> Seq<char> {
    Seq::new((4 - col % 4) as nat, |i: int| ' ')
}

/// How an edit changes an area.
pub open spec fn edited(before: Area, edit: KeyEdit, after: Area) -> bool {
    let lines = kept_lines(before);
    let cursor = kept_cursor(before);
    match edit {
        KeyEdit::Insert(c) => rests(
            after,
            spliced(lines, cursor, seq![seq![c]]),
            cursor_after(cursor, seq![seq![c]]),
        ),
        KeyEdit::Break => rests(
            after,
            spliced(lines, cursor, seq![Seq::<char>::empty(), Seq::<char>::empty()]),
            ((cursor.0 + 1) as nat, 0nat),
        ),
        KeyEdit::Tab => {
            let blanks = seq![tab_blanks(cursor.1)];
            &&& area_anchor(after) is None
            &&& one_column_each(lines[cursor.0 as int].take(cursor.1 as int)) ==> rests(
                after,
                spliced(lines, cursor, blanks),
                cursor_after(cursor, blanks),
            )
        },
        KeyEdit::Erase => if has_selection(before) {
            selection_cut(before, after)
        } else {
            rests(after, erased(lines, cursor), cursor_erased(lines, cursor))
        },
        KeyEdit::EraseNext => if has_selection(before) {
            selection_cut(before, after)
        } else {
            &&& area_anchor(after) is None
            &&& step_stated(before, Step::Forward) ==> rests(
                after,
                erased_next(lines, cursor),
                cursor,
            )
        },
        KeyEdit::EraseWord => {
            &&& area_anchor(after) is None
            &&& has_selection(before) ==> selection_cut(before, after)
        },
        KeyEdit::CutEnd => if has_selection(before) {
            selection_cut(before, after)
        } else {
            rests(after, cut_end(lines, cursor), cursor)
        },
        KeyEdit::CutHead => if has_selection(before) {
            selection_cut(before, after)
        } else {
            rests(
                after,
                cut_head(lines, cursor),
                if cursor.1 > 0 {
                    (cursor.0, 0nat)
                } else {
                    cursor_erased(lines, cursor)
                },
            )
        },
        KeyEdit::Cut => selection_cut(before, after),
        KeyEdit::Copy => rests(after, area_lines(before), area_cursor(before)),
        KeyEdit::Paste => area_anchor(after) is None,
        KeyEdit::Go { to, shift } => gone(before, to, shift, after),
        KeyEdit::Nothing => area_view(after) == area_view(before),
        KeyEdit::Revise => area_anchor(after) is None || area_view(after) == area_view(before),
    }
}

/// The text, the cursor and the selection of an area after a key.
pub uninterp spec fn view_after_key(
    area: Area,
    code: KeyCode,
    ctrl: bool,
    alt: bool,
    shift: bool,
) -> AreaView;

/// The cursor goes by a page.
pub open spec fn pages(edit: KeyEdit) -> bool {
    edit matches KeyEdit::Go { to, .. } && to == Step::Page
}

/// `TextArea::input` edits the text as the key asks, or moves the cursor, which
/// stays in the text; the mask stays too. What the area then holds is a function of
/// the area and the key, and named. Only where a page key leads also depends on what
/// was drawn last, and is left out.
///
/// Beside the name stands what can be said in a few words. Typing and deleting take
/// the selected text away first, and a deleting key then does no more. Without Shift
/// a move of the cursor ends a selection; with Shift it begins one or goes on with
/// it; a move that leads nowhere changes nothing. Delete, the arrow keys and Tab go
/// by columns of the screen: they are spelled out for characters of one column, the
/// first two in an area without a mask.
#[verifier::external_body]
fn type_key(area: &mut Area, code: KeyCode, ctrl: bool, alt: bool, shift: bool)
    ensures
        area_mask(*final(area)) == area_mask(*old(area)),
        area_sound(*final(area)),
        edited(*old(area), key_edit(code, ctrl, alt, shift), *final(area)),
        !pages(key_edit(code, ctrl, alt, shift)) ==> area_view(*final(area)) == view_after_key(
            *old(area),
            code,
            ctrl,
            alt,
            shift,
        ),
{
    let key = match code {
        KeyCode::Char(c) => Key::Char(c), KeyCode::F(n) => Key::F(n),
        KeyCode::Enter => Key::Enter, KeyCode::Esc => Key::Esc,
        KeyCode::Tab | KeyCode::BackTab => Key::Tab,
        KeyCode::Backspace => Key::Backspace, KeyCode::Delete => Key::Delete,
        KeyCode::Left => Key::Left, KeyCode::Right => Key::Right,
        KeyCode::Up => Key::Up, KeyCode::Down => Key::Down,
        KeyCode::Home => Key::Home, KeyCode::End => Key::End,
        KeyCode::PageUp => Key::PageUp, KeyCode::PageDown => Key::PageDown,
        KeyCode::Other => Key::Null,
    };
    area.inner.input(Input { key, ctrl, alt, shift });
}

/// How a key changes a text area. Releasing a key changes nothing, and no key
/// changes the mask. Back-tab is Tab with Shift.
pub open spec fn pressed(before: Area, key: KeyEvent, after: Area) -> bool {
    if key.kind == KeyEventKind::Release {
        after == before
    } else {
        let ctrl = key.modifiers.control;
        let alt = key.modifiers.alt;
        let shift = key.modifiers.shift || key.code == KeyCode::BackTab;
        let edit = key_edit(key.code, ctrl, alt, shift);
        &&& area_mask(after) == area_mask(before)
        &&& area_sound(after)
        &&& edited(before, edit, after)
        &&& !pages(edit) ==> area_view(after) == view_after_key(before, key.code, ctrl, alt, shift)
    }
}

/// Hands a key to a text area.
pub fn press_key(area: &mut Area, key: KeyEvent)
    ensures
        pressed(*old(area), key, *final(area)),
{
    match key.kind {
        KeyEventKind::Release => {},
        _ => {
            let back: bool = match key.code {
                KeyCode::BackTab => true,
                _ => false,
            };
            type_key(
                area,
                key.code,
                key.modifiers.control,
                key.modifiers.alt,
                key.modifiers.shift || back,
            );
        },
    }
}

/// Deleting a character that was just typed brings the text and the cursor back.
pub proof fn law_erasing_undoes_typing(before: Area, c: char, typed: Area, after: Area)
    requires
        area_ready(before),
        edited(before, KeyEdit::Insert(c), typed),
        edited(typed, KeyEdit::Erase, after),
    ensures
        area_ready(typed),
        area_lines(after) == area_lines(before),
        area_cursor(after) == area_cursor(before),
        area_ready(after),
{
    let lines = area_lines(before);
    let cursor = area_cursor(before);
    let row = cursor.0 as int;
    let col = cursor.1 as int;
    lemma_cursor_stays_in_text(lines, cursor, seq![seq![c]]);
    let line = lines[row].take(col) + seq![c] + lines[row].skip(col);
    assert(area_lines(typed)[row] == line);
    assert(line.take(col) + line.skip(col + 1) =~= lines[row]);
    assert(area_lines(after) =~= lines);
}

/// Deleting a line break that was just typed brings the text and the cursor back.
pub proof fn law_erasing_undoes_a_break(before: Area, typed: Area, after: Area)
    requires
        area_ready(before),
        edited(before, KeyEdit::Break, typed),
        edited(typed, KeyEdit::Erase, after),
    ensures
        area_lines(after) == area_lines(before),
        area_cursor(after) == area_cursor(before),
{
    let empty = Seq::<char>::empty();
    let lines = area_lines(before);
    let cursor = area_cursor(before);
    let row = cursor.0 as int;
    let col = cursor.1 as int;
    let head = lines[row].take(col);
    let tail = lines[row].skip(col);
    let broken = area_lines(typed);
    assert(seq![empty, empty].subrange(1, 1) =~= Seq::<Seq<char>>::empty());
    assert(head + empty =~= head);
    assert(empty + tail =~= tail);
    assert(broken =~= lines.take(row) + seq![head, tail] + lines.skip(row + 1));
    assert(broken[row] == head && broken[row + 1] == tail);
    assert(head + tail =~= lines[row]);
    assert(area_lines(after) =~= lines);
}

/// A key that moves the cursor, copies or means nothing leaves the text as it is;
/// without Shift, an area in which nothing is selected stays so.
pub proof fn law_moves_keep_the_text(before: Area, key: KeyEvent, after: Area)
    requires
        pressed(before, key, after),
        key.kind != KeyEventKind::Release,
        ({
            let edit = key_edit(
                key.code,
                key.modifiers.control,
                key.modifiers.alt,
                key.modifiers.shift,
            );
            edit is Go || edit is Copy || edit is Nothing
        }),
    ensures
        area_lines(after) == area_lines(before),
        area_ready(before) && !key.modifiers.shift ==> area_ready(after),
{
}

/// To type over selected text is to cut it and to type then.
pub proof fn law_typing_replaces_the_selection(
    before: Area,
    c: char,
    cut: Area,
    typed: Area,
    over: Area,
)
    requires
        edited(before, KeyEdit::Cut, cut),
        edited(cut, KeyEdit::Insert(c), typed),
        edited(before, KeyEdit::Insert(c), over),
    ensures
        area_view(over) == area_view(typed),
{
}

/// A selected text that was cut is gone, and what stood around it is kept: the text
/// before it and the text behind it meet at the cursor.
pub proof fn law_cutting_keeps_the_rest(before: Area, after: Area)
    requires
        area_sound(before),
        has_selection(before),
        edited(before, KeyEdit::Cut, after),
    ensures
        ({
            let place = area_anchor(before)->0;
            let cursor = area_cursor(before);
            let (from, to) = if stands_before(place, cursor) {
                (place, cursor)
            } else {
                (cursor, place)
            };
            let lines = area_lines(before);
            let rest = area_lines(after);
            let row = from.0 as int;
            &&& area_cursor(after) == from
            &&& cursor_in_text(rest, from)
            &&& rest.len() == lines.len() - (to.0 - from.0)
            &&& rest.take(row) == lines.take(row)
            &&& rest[row].take(from.1 as int) == lines[row].take(from.1 as int)
            &&& rest[row].skip(from.1 as int) == lines[to.0 as int].skip(to.1 as int)
            &&& rest.skip(row + 1) == lines.skip((to.0 + 1) as int)
        }),
{
    let place = area_anchor(before)->0;
    let cursor = area_cursor(before);
    let (from, to) = if stands_before(place, cursor) {
        (place, cursor)
    } else {
        (cursor, place)
    };
    let lines = area_lines(before);
    let rest = area_lines(after);
    let row = from.0 as int;
    assert(rest == without_range(lines, from, to));
    let joint = lines[row].take(from.1 as int) + lines[to.0 as int].skip(to.1 as int);
    assert(rest[row] == joint);
    assert(rest.take(row) =~= lines.take(row));
    assert(joint.take(from.1 as int) =~= lines[row].take(from.1 as int));
    assert(joint.skip(from.1 as int) =~= lines[to.0 as int].skip(to.1 as int));
    assert(rest.skip(row + 1) =~= lines.skip((to.0 + 1) as int));
}

impl Area {
    /// A text area of the given lines, with the cursor at its start.
    pub fn from_lines(lines: Vec<String>) -> (area: Area)
        ensures
            area_lines(area) == (if lines@.len() == 0 {
                seq![Seq::<char>::empty()]
            } else {
                texts(lines@)
            }),
            area_cursor(area) == (0nat, 0nat),
            area_ready(area),
            area_mask(area) is None,
    {
        let area = area_of(lines);
        assert(texts(lines@).len() == lines@.len());
        area
    }

    /// The lines of the text.
    pub fn lines(&self) -> (lines: Vec<String>)
        ensures
            texts(lines@) == area_lines(*self),
            lines@.len() > 0,
    {
        lines_of(self)
    }

    /// The character that the text is drawn as, where it is masked.
    pub fn mask(&self) -> (mask: Option<char>)
        ensures
            mask == area_mask(*self),
    {
        mask_of(self)
    }

    /// Row and column of the cursor.
    pub fn cursor(&self) -> (at: (usize, usize))
        ensures
            (at.0 as nat, at.1 as nat) == area_cursor(*self),
    {
        cursor_of(self)
    }

    /// Inserts a text at the cursor, in place of the selected text.
    pub fn insert_str(&mut self, text: &str)
        ensures
            area_mask(*final(self)) == area_mask(*old(self)),
            area_lines(*final(self)) == spliced(
                kept_lines(*old(self)),
                kept_cursor(*old(self)),
                inserted_lines(text@),
            ),
            area_cursor(*final(self)) == cursor_after(
                kept_cursor(*old(self)),
                inserted_lines(text@),
            ),
            area_ready(*final(self)),
    {
        insert_text(self, text);
    }

    /// Breaks the line at the cursor, in place of the selected text.
    pub fn insert_newline(&mut self)
        ensures
            area_mask(*final(self)) == area_mask(*old(self)),
            area_lines(*final(self)) == spliced(
                kept_lines(*old(self)),
                kept_cursor(*old(self)),
                seq![Seq::<char>::empty(), Seq::<char>::empty()],
            ),
            area_cursor(*final(self)) == ((kept_cursor(*old(self)).0 + 1) as nat, 0nat),
            area_ready(*final(self)),
    {
        insert_line_break(self);
    }
}

/// Behind an inserted text the cursor stands in the text.
pub proof fn lemma_cursor_stays_in_text(
    lines: Seq<Seq<char>>,
    cursor: (nat, nat),
    new: Seq<Seq<char>>,
)
    requires
        cursor_in_text(lines, cursor),
        new.len() > 0,
    ensures
        cursor_in_text(spliced(lines, cursor, new), cursor_after(cursor, new)),
{
    let row = cursor.0 as int;
    let head = lines[row].take(cursor.1 as int);
    let tail = lines[row].skip(cursor.1 as int);
    let after = spliced(lines, cursor, new);
    if new.len() == 1 {
        assert(after[row] == head + new[0] + tail);
    } else {
        let at = row + new.len() - 1;
        assert(after[at] == new[new.len() - 1] + tail);
    }
}

/// An empty text area whose cursor line is drawn plainly.
pub fn new_textarea() -> (area: Area)
    ensures
        area_lines(area) == seq![Seq::<char>::empty()],
        area_cursor(area) == (0nat, 0nat),
        area_ready(area),
        area_mask(area) is None,
{
    let mut area = area_of(Vec::new());
    plain_cursor_line(&mut area);
    area
}

/// A text area that holds `text`, with the cursor behind it.
pub fn textarea_with(text: &str) -> (area: Area)
    ensures
        area_lines(area) == inserted_lines(text@),
        area_cursor(area) == text_end(inserted_lines(text@)),
        area_ready(area),
        area_mask(area) is None,
{
    let mut area = new_textarea();
    insert_text(&mut area, text);
    proof {
        let new = inserted_lines(text@);
        lemma_pieces_nonempty(text@, Separator::Char('\n'));
        let empty = seq![Seq::<char>::empty()];
        assert(spliced(empty, (0nat, 0nat), new) =~= new);
        assert(cursor_after((0nat, 0nat), new) == text_end(new));
    }
    area
}

/// The text of an area as one string.
pub fn content(area: &Area) -> (text: String)
    ensures
        text@ == area_text(*area),
{
    let lines = lines_of(area);
    proof {
        reveal_strlit("\n");
        assert("\n"@ =~= seq!['\n']);
    }
    join(&lines, "\n")
}

/// A carriage return at `i` neither ends the text nor stands before a line feed.
pub open spec fn return_within_line(text: Seq<char>, i: int) -> bool {
    text[i] == '\r' ==> i + 1 < text.len() && text[i + 1] != '\n'
}

pub open spec fn no_return_ends_a_line(text: Seq<char>) -> bool {
    forall|i: int| 0 <= i < text.len() ==> #[trigger] return_within_line(text, i)
}

/// The text of a one-line field: its lines without what breaks them.
pub open spec fn field_text(area: Area) -> Seq<char> {
    joined(area_lines(area), Seq::<char>::empty())
}

/// The text of a one-line field.
pub fn field_content(area: &Area) -> (text: String)
    ensures
        text@ == field_text(*area),
{
    let lines = lines_of(area);
    proof {
        reveal_strlit("");
        assert(""@ =~= Seq::<char>::empty());
    }
    join(&lines, "")
}

/// A text without line breaks is one line.
pub proof fn lemma_one_line(text: Seq<char>)
    requires
        forall|i: int| 0 <= i < text.len() ==> text[i] != '\n',
    ensures
        pieces(text, Separator::Char('\n')) == seq![text],
    decreases text.len(),
{
    if text.len() == 0 {
        assert(text =~= Seq::<char>::empty());
    } else {
        let t = text.take(text.len() - 1);
        lemma_one_line(t);
        assert(t.push(text[text.len() - 1]) =~= text);
        assert(pieces(text, Separator::Char('\n')) =~= seq![text]);
    }
}

/// A text without line breaks, put into a one-line field, is the field's text.
pub proof fn law_field_keeps_its_text(text: Seq<char>)
    requires
        forall|i: int| 0 <= i < text.len() ==> text[i] != '\n' && text[i] != '\r',
    ensures
        joined(inserted_lines(text), Seq::<char>::empty()) == text,
{
    lemma_one_line(text);
    assert(inserted_lines(text) =~= seq![text]);
}

/// A text that no carriage return ends a line of comes back unchanged from a
/// text area that it was put into.
pub proof fn law_text_survives_an_area(text: Seq<char>)
    requires
        no_return_ends_a_line(text),
    ensures
        joined(inserted_lines(text), seq!['\n']) == text,
{
    lemma_no_return_ends_a_piece(text);
    assert(inserted_lines(text) =~= pieces(text, Separator::Char('\n')));
    law_join_undoes_split(text, '\n');
}

proof fn lemma_no_return_ends_a_piece(text: Seq<char>)
    requires
        no_return_ends_a_line(text),
    ensures
        forall|i: int|
            0 <= i < pieces(text, Separator::Char('\n')).len() ==> #[trigger] without_return(
                pieces(text, Separator::Char('\n'))[i],
            ) == pieces(text, Separator::Char('\n'))[i],
{
    let sep = Separator::Char('\n');
    lemma_piece_ends(text, text.len() as int);
    if text.len() > 0 {
        assert(return_within_line(text, text.len() - 1));
    }
    assert(text.take(text.len() as int) =~= text);
}

/// In every prefix of such a text, a piece other than the last ends in no
/// carriage return, and the last one ends like the prefix.
proof fn lemma_piece_ends(text: Seq<char>, k: int)
    requires
        0 <= k <= text.len(),
        no_return_ends_a_line(text),
    ensures
        ({
            let parts = pieces(text.take(k), Separator::Char('\n'));
            let last = parts[parts.len() - 1];
            &&& parts.len() > 0
            &&& forall|i: int|
                0 <= i < parts.len() - 1 ==> #[trigger] without_return(parts[i]) == parts[i]
            &&& last.len() > 0 ==> k > 0 && last[last.len() - 1] == text[k - 1]
        }),
    decreases k,
{
    let sep = Separator::Char('\n');
    if k > 0 {
        lemma_piece_ends(text, k - 1);
        let t = text.take(k);
        assert(t.take(k - 1) =~= text.take(k - 1));
        let before = pieces(text.take(k - 1), sep);
        let parts = pieces(t, sep);
        let last = before[before.len() - 1];
        if text[k - 1] == '\n' {
            if k > 1 {
                assert(return_within_line(text, k - 2));
            }
            assert(without_return(last) == last);
            assert forall|i: int| 0 <= i < parts.len() - 1 implies #[trigger] without_return(
                parts[i],
            ) == parts[i] by {
                assert(parts[i] == before[i]);
            }
        } else {
            assert forall|i: int| 0 <= i < parts.len() - 1 implies #[trigger] without_return(
                parts[i],
            ) == parts[i] by {
                assert(parts[i] == before[i]);
            }
        }
    }
}

} // verus!
