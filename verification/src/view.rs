//! What is drawn, as plain values: styled text, popups, hints and list
//! selection.

use vstd::prelude::*;
use crate::text::{cat2, cat3, cat4, decimal};
#[allow(unused_imports)]
use crate::text::{digits, holds_text, law_held_text_is_held, law_text_is_held};

verus! {

/// A colour of the theme, by what it is for.
#[derive(Debug, Clone, Copy, PartialEq, Eq, Structural)]
pub enum Tone {
    Title,
    TextDim,
    Border,
    BorderActive,
    ListHighlight,
    ListHighlightFg,
    Error,
    ErrorText,
    Warn,
    Good,
    CodeFg,
    HintKey,
    HintSep,
    AssistantIndicator,
    Pinned,
}

#[derive(Debug, Clone, Copy, PartialEq, Eq, Structural)]
pub enum Color {
    Rgb(u8, u8, u8),
    White,
    Black,
    Theme(Tone),
}

/// How a text is drawn.
#[derive(Debug, Clone, Copy, PartialEq, Eq, Structural)]
pub struct Style {
    pub fg: Option<Color>,
    pub bg: Option<Color>,
    pub bold: bool,
    pub italic: bool,
    pub underlined: bool,
    pub crossed_out: bool,
    pub dim: bool,
}

/// A text in one style.
#[derive(Debug, PartialEq, Eq)]
pub struct Span {
    pub text: String,
    pub style: Style,
}

/// A line of text, span by span.
pub type Line = Vec<Span>;

/// A text and its style.
pub open spec fn span_view(s: Span) -> (Seq<char>, Style) {
    (s.text@, s.style)
}

pub open spec fn line_view(l: Seq<Span>) -> Seq<(Seq<char>, Style)> {
    Seq::new(l.len(), |i: int| span_view(l[i]))
}

pub open spec fn lines_view(v: Seq<Line>) -> Seq<Seq<(Seq<char>, Style)>> {
    Seq::new(v.len(), |i: int| line_view(v[i]@))
}

/// The terminal's own style.
pub open spec fn plain() -> Style {
    Style {
        fg: None,
        bg: None,
        bold: false,
        italic: false,
        underlined: false,
        crossed_out: false,
        dim: false,
    }
}

/// Text in a colour of the theme.
pub open spec fn toned(tone: Tone) -> Style {
    Style { fg: Some(Color::Theme(tone)), ..plain() }
}

/// Bold text in a colour of the theme.
pub open spec fn bold_toned(tone: Tone) -> Style {
    Style { bold: true, ..toned(tone) }
}

pub fn plain_style() -> (s: Style)
    ensures
        s == plain(),
{
    Style {
        fg: None,
        bg: None,
        bold: false,
        italic: false,
        underlined: false,
        crossed_out: false,
        dim: false,
    }
}

pub fn toned_style(tone: Tone) -> (s: Style)
    ensures
        s == toned(tone),
{
    Style { fg: Some(Color::Theme(tone)), ..plain_style() }
}

pub fn bold_toned_style(tone: Tone) -> (s: Style)
    ensures
        s == bold_toned(tone),
{
    Style { bold: true, ..toned_style(tone) }
}

/// A chosen selector value: black on the active border colour, bold.
pub open spec fn chosen() -> Style {
    Style {
        fg: Some(Color::Black),
        bg: Some(Color::Theme(Tone::BorderActive)),
        bold: true,
        ..plain()
    }
}

pub fn chosen_style() -> (s: Style)
    ensures
        s == chosen(),
{
    Style {
        fg: Some(Color::Black),
        bg: Some(Color::Theme(Tone::BorderActive)),
        bold: true,
        ..plain_style()
    }
}

/// Appends a span to a line.
pub fn push_span(line: &mut Line, text: String, style: Style)
    ensures
        line_view(final(line)@) == line_view(old(line)@).push((text@, style)),
{
    let ghost v = (text@, style);
    line.push(Span { text, style });
    assert(line_view(line@) =~= line_view(old(line)@).push(v));
}

/// A line of one span.
pub fn line_of(text: String, style: Style) -> (line: Line)
    ensures
        line_view(line@) == seq![(text@, style)],
{
    let mut line: Line = Vec::new();
    push_span(&mut line, text, style);
    assert(line_view(line@) =~= seq![(text@, style)]);
    line
}

/// Appends a line.
pub fn push_line(lines: &mut Vec<Line>, line: Line)
    ensures
        lines_view(final(lines)@) == lines_view(old(lines)@).push(line_view(line@)),
        final(lines)@ == old(lines)@.push(line),
{
    let ghost v = line_view(line@);
    lines.push(line);
    assert(lines_view(lines@) =~= lines_view(old(lines)@).push(v));
}

/// The place of `f` in `fields` from place `i` on; 0 where it is not there.
pub open spec fn place_of<F>(fields: Seq<F>, f: F, i: int) -> int
    decreases fields.len() - i,
{
    if i < 0 || i >= fields.len() {
        0
    } else if fields[i] == f {
        i
    } else {
        place_of(fields, f, i + 1)
    }
}

/// The field of a form behind `f`, in a circle.
pub open spec fn field_after<F>(fields: Seq<F>, f: F) -> F {
    fields[(place_of(fields, f, 0) + 1) % fields.len() as int]
}

/// The field of a form before `f`, in a circle.
pub open spec fn field_before<F>(fields: Seq<F>, f: F) -> F {
    fields[(place_of(fields, f, 0) + fields.len() - 1) % fields.len() as int]
}

/// The status line under a list: what is going on, else what went wrong.
pub open spec fn status_line(busy: Option<String>, error: Option<String>) -> Option<
    (Seq<char>, Style),
> {
    match (busy, error) {
        (Some(b), _) => Some(
            (" ● "@ + b@, Style { italic: true, ..toned(Tone::AssistantIndicator) }),
        ),
        (None, Some(e)) => Some((" • "@ + e@, toned(Tone::Error))),
        (None, None) => None,
    }
}

/// The status line under a list.
pub fn draw_status(busy: &Option<String>, error: &Option<String>) -> (s: Option<Span>)
    ensures
        match s {
            Some(span) => status_line(*busy, *error) == Some(span_view(span)),
            None => status_line(*busy, *error) is None,
        },
{
    match busy {
        Some(b) => Some(
            Span {
                text: cat2(" ● ", b.as_str()),
                style: Style { italic: true, ..toned_style(Tone::AssistantIndicator) },
            },
        ),
        None => match error {
            Some(e) => Some(
                Span { text: cat2(" • ", e.as_str()), style: toned_style(Tone::Error) },
            ),
            None => None,
        },
    }
}

/// The styles of a line of key hints.
#[derive(Debug, Clone, Copy, PartialEq, Eq, Structural)]
pub struct HintStyles {
    pub key: Style,
    pub separator: Style,
    pub description: Style,
}

/// Key hints in the colours of the theme.
pub open spec fn themed_hints() -> HintStyles {
    HintStyles {
        key: bold_toned(Tone::HintKey),
        separator: toned(Tone::HintSep),
        description: toned(Tone::TextDim),
    }
}

/// The spans of a line of key hints: key, blank, description, and a separator
/// between hints.
pub open spec fn hint_spans(
    hints: Seq<(&'static str, &'static str)>,
    styles: HintStyles,
) -> Seq<(Seq<char>, Style)>
    decreases hints.len(),
{
    if hints.len() == 0 {
        Seq::<(Seq<char>, Style)>::empty()
    } else {
        let n = hints.len() - 1;
        let before = hint_spans(hints.take(n), styles);
        let sep = if n > 0 {
            seq![("  ·  "@, styles.separator)]
        } else {
            Seq::<(Seq<char>, Style)>::empty()
        };
        before + sep + seq![
            (hints[n].0@, styles.key),
            (" "@, plain()),
            (hints[n].1@, styles.description),
        ]
    }
}

/// A line of key hints in given styles.
pub fn draw_hints_in(hints: &Vec<(&'static str, &'static str)>, styles: HintStyles) -> (line: Line)
    ensures
        line_view(line@) == hint_spans(hints@, styles),
{
    let mut line: Line = Vec::new();
    let mut i: usize = 0;
    assert(line_view(line@) =~= hint_spans(hints@.take(0), styles));
    while i < hints.len()
        invariant
            i <= hints@.len(),
            line_view(line@) == hint_spans(hints@.take(i as int), styles),
        decreases hints@.len() - i,
    {
        let ghost t = hints@.take(i + 1);
        assert(t.take(t.len() - 1) =~= hints@.take(i as int));
        let ghost before = line_view(line@);
        if i > 0 {
            push_span(&mut line, "  ·  ".to_owned(), styles.separator);
        }
        push_span(&mut line, hints[i].0.to_owned(), styles.key);
        push_span(&mut line, " ".to_owned(), plain_style());
        push_span(&mut line, hints[i].1.to_owned(), styles.description);
        assert(line_view(line@) =~= hint_spans(t, styles));
        i += 1;
    }
    assert(hints@.take(hints@.len() as int) =~= hints@);
    line
}

/// A line of key hints.
pub fn draw_hints(hints: &Vec<(&'static str, &'static str)>) -> (line: Line)
    ensures
        line_view(line@) == hint_spans(hints@, themed_hints()),
{
    draw_hints_in(
        hints,
        HintStyles {
            key: bold_toned_style(Tone::HintKey),
            separator: toned_style(Tone::HintSep),
            description: toned_style(Tone::TextDim),
        },
    )
}

/// A rectangle of the terminal.
#[derive(Debug, Clone, Copy, PartialEq, Eq, Structural)]
pub struct Rect {
    pub x: u16,
    pub y: u16,
    pub width: u16,
    pub height: u16,
}

pub open spec fn lesser(a: int, b: int) -> int {
    if a < b {
        a
    } else {
        b
    }
}

/// `a - b`, or 0 where that is negative.
pub open spec fn less(a: int, b: int) -> int {
    if a < b {
        0
    } else {
        a - b
    }
}

/// A popup of at most the given size in the middle of `area`, with a margin of
/// two columns and one row on each side where the area is small.
pub fn centered_rect(width: u16, height: u16, area: Rect) -> (r: Rect)
    requires
        area.x + area.width <= u16::MAX,
        area.y + area.height <= u16::MAX,
    ensures
        r.width == lesser(width as int, less(area.width as int, 4)),
        r.height == lesser(height as int, less(area.height as int, 2)),
        r.x == area.x + (area.width - r.width) / 2,
        r.y == area.y + (area.height - r.height) / 2,
        area.x <= r.x && r.x + r.width <= area.x + area.width,
        area.y <= r.y && r.y + r.height <= area.y + area.height,
{
    let w_room: u16 = area.width.saturating_sub(4);
    let h_room: u16 = area.height.saturating_sub(2);
    let w: u16 = if width < w_room {
        width
    } else {
        w_room
    };
    let h: u16 = if height < h_room {
        height
    } else {
        h_room
    };
    Rect {
        x: area.x + (area.width - w) / 2,
        y: area.y + (area.height - h) / 2,
        width: w,
        height: h,
    }
}

/// The selection one row further down or up, in a circle.
pub open spec fn stepped(selected: int, len: int, down: bool) -> int {
    if down {
        (selected + 1) % len
    } else {
        (selected - 1) % len
    }
}

/// Moves a selection one row down or up; behind either end it comes back at
/// the other.
pub fn step(selected: usize, len: usize, down: bool) -> (r: usize)
    requires
        len > 0,
    ensures
        r == stepped(selected as int, len as int, down),
        r < len,
{
    let s: usize = selected % len;
    proof {
        vstd::arithmetic::div_mod::lemma_add_mod_noop(selected as int, 1, len as int);
        vstd::arithmetic::div_mod::lemma_sub_mod_noop(selected as int, 1, len as int);
        if len == 1 {
            assert((selected + 1) % 1 == 0);
            assert((selected - 1) % 1 == 0);
        } else {
            vstd::arithmetic::div_mod::lemma_small_mod(1, len as nat);
            vstd::arithmetic::div_mod::lemma_small_mod(s as nat, len as nat);
            assert((s + 1) % (len as int) == (selected + 1) % (len as int));
            assert((s - 1) % (len as int) == (selected - 1) % (len as int));
            if s + 1 == len {
                vstd::arithmetic::div_mod::lemma_mod_self_0(len as int);
            } else {
                vstd::arithmetic::div_mod::lemma_small_mod((s + 1) as nat, len as nat);
            }
            if s == 0 {
                vstd::arithmetic::div_mod::lemma_mod_add_multiples_vanish(-1, len as int);
                vstd::arithmetic::div_mod::lemma_small_mod((len - 1) as nat, len as nat);
            } else {
                vstd::arithmetic::div_mod::lemma_small_mod((s - 1) as nat, len as nat);
            }
        }
    }
    if down {
        if s + 1 == len {
            0
        } else {
            s + 1
        }
    } else if s == 0 {
        len - 1
    } else {
        s - 1
    }
}

/// The selection one row further down or up; outside the list it comes back at
/// the other end.
pub open spec fn turned(selected: int, len: int, down: bool) -> int {
    if down {
        if selected + 1 >= len {
            0
        } else {
            selected + 1
        }
    } else if selected == 0 {
        len - 1
    } else if selected - 1 >= len {
        0
    } else {
        selected - 1
    }
}

/// Moves a selection one row down or up.
pub fn turn(selected: usize, len: usize, down: bool) -> (r: usize)
    requires
        len > 0,
    ensures
        r == turned(selected as int, len as int, down),
        r < len,
{
    if down {
        if selected >= len - 1 {
            0
        } else {
            selected + 1
        }
    } else if selected == 0 {
        len - 1
    } else if selected - 1 >= len {
        0
    } else {
        selected - 1
    }
}

/// Going down and then up, or up and then down, comes back to the same row.
pub proof fn law_turns_undo_each_other(selected: int, len: int, down: bool)
    requires
        0 <= selected < len,
    ensures
        turned(turned(selected, len, down), len, !down) == selected,
{
}

/// The spans of a row of chips, the active one highlighted, with two blanks
/// between neighbours.
pub open spec fn chip_spans(chips: Seq<(&'static str, bool)>) -> Seq<(Seq<char>, Style)>
    decreases chips.len(),
{
    if chips.len() == 0 {
        Seq::<(Seq<char>, Style)>::empty()
    } else {
        let n = chips.len() - 1;
        let sep = if n > 0 {
            seq![("  "@, plain())]
        } else {
            Seq::<(Seq<char>, Style)>::empty()
        };
        let style = if chips[n].1 {
            chosen()
        } else {
            toned(Tone::TextDim)
        };
        chip_spans(chips.take(n)) + sep + seq![(" "@ + chips[n].0@ + " "@, style)]
    }
}

/// Appends a row of chips to a line.
pub fn push_chips(line: &mut Line, chips: &Vec<(&'static str, bool)>)
    ensures
        line_view(final(line)@) == line_view(old(line)@) + chip_spans(chips@),
{
    let ghost start = line_view(line@);
    let mut i: usize = 0;
    assert(line_view(line@) =~= start + chip_spans(chips@.take(0)));
    while i < chips.len()
        invariant
            i <= chips@.len(),
            line_view(line@) == start + chip_spans(chips@.take(i as int)),
        decreases chips@.len() - i,
    {
        let ghost t = chips@.take(i + 1);
        assert(t.take(t.len() - 1) =~= chips@.take(i as int));
        if i > 0 {
            push_span(line, "  ".to_owned(), plain_style());
        }
        let style = if chips[i].1 {
            chosen_style()
        } else {
            toned_style(Tone::TextDim)
        };
        push_span(line, cat3(" ", chips[i].0, " "), style);
        assert(line_view(line@) =~= start + chip_spans(t));
        i += 1;
    }
    assert(chips@.take(chips@.len() as int) =~= chips@);
}

/// The label of a form field.
pub open spec fn label_style(focused: bool) -> Style {
    if focused {
        bold_toned(Tone::BorderActive)
    } else {
        toned(Tone::TextDim)
    }
}

/// The label of a form field.
pub fn draw_field_label(label: &str, focused: bool) -> (s: Span)
    ensures
        span_view(s) == (label@, label_style(focused)),
{
    Span {
        text: label.to_owned(),
        style: if focused {
            bold_toned_style(Tone::BorderActive)
        } else {
            toned_style(Tone::TextDim)
        },
    }
}

/// The border colour of a text field.
pub open spec fn field_border(focused: bool) -> Tone {
    if focused {
        Tone::BorderActive
    } else {
        Tone::Border
    }
}

pub fn border_tone(focused: bool) -> (t: Tone)
    ensures
        t == field_border(focused),
{
    if focused {
        Tone::BorderActive
    } else {
        Tone::Border
    }
}

/// A list with a title: `name` alone where it is empty, else with its length.
pub open spec fn list_title(name: Seq<char>, len: nat) -> Seq<char> {
    if len == 0 {
        name
    } else {
        name + " ("@ + digits(len) + ")"@
    }
}

pub fn title_of(name: &str, len: usize) -> (s: String)
    ensures
        s@ == list_title(name@, len as nat),
{
    if len == 0 {
        name.to_owned()
    } else {
        let n = decimal(len as u64);
        cat4(name, " (", n.as_str(), ")")
    }
}

/// The highlighted row: none in an empty list.
pub open spec fn shown_selection(selected: usize, len: nat) -> Option<usize> {
    if len == 0 {
        None
    } else {
        Some(selected)
    }
}

/// A drawn list: its title, the lines of each row, and the highlighted row.
pub struct ListView {
    pub title: String,
    pub items: Vec<Vec<Line>>,
    pub selected: Option<usize>,
}

pub open spec fn items_view(v: Seq<Vec<Line>>) -> Seq<Seq<Seq<(Seq<char>, Style)>>> {
    Seq::new(v.len(), |i: int| lines_view(v[i]@))
}

/// The selection after a list was replaced: kept where it is still in the
/// list, else the last row.
pub open spec fn kept_selection(selected: int, len: int) -> int {
    if selected < len {
        selected
    } else {
        less(len, 1)
    }
}

pub fn keep_selection(selected: usize, len: usize) -> (r: usize)
    ensures
        r == kept_selection(selected as int, len as int),
{
    if selected < len {
        selected
    } else {
        len.saturating_sub(1)
    }
}

/// The text of a line: that of its spans, one after the other.
pub open spec fn line_text(spans: Seq<(Seq<char>, Style)>) -> Seq<char>
    decreases spans.len(),
{
    if spans.len() == 0 {
        Seq::<char>::empty()
    } else {
        line_text(spans.drop_last()) + spans.last().0
    }
}

pub(crate) proof fn lemma_line_text_push(spans: Seq<(Seq<char>, Style)>, span: (Seq<char>, Style))
    ensures
        line_text(spans.push(span)) == line_text(spans) + span.0,
{
    assert(spans.push(span).drop_last() =~= spans);
}

pub(crate) proof fn lemma_line_text_joined(
    a: Seq<(Seq<char>, Style)>,
    b: Seq<(Seq<char>, Style)>,
)
    ensures
        line_text(a + b) == line_text(a) + line_text(b),
    decreases b.len(),
{
    if b.len() == 0 {
        assert(a + b =~= a);
        assert(line_text(a) + line_text(b) =~= line_text(a));
    } else {
        lemma_line_text_joined(a, b.drop_last());
        assert((a + b).drop_last() =~= a + b.drop_last());
        assert(line_text(a + b) =~= line_text(a) + line_text(b));
    }
}

/// The text of a span is part of the text of its line.
pub(crate) proof fn lemma_span_is_read(spans: Seq<(Seq<char>, Style)>, i: int)
    requires
        0 <= i < spans.len(),
    ensures
        holds_text(line_text(spans), spans[i].0),
{
    let a = spans.take(i);
    let b = spans.skip(i + 1);
    lemma_line_text_push(a, spans[i]);
    lemma_line_text_joined(a.push(spans[i]), b);
    assert(spans =~= a.push(spans[i]) + b);
    law_text_is_held(line_text(a), spans[i].0, line_text(b));
}

pub(crate) proof fn lemma_span_tells(spans: Seq<(Seq<char>, Style)>, i: int, text: Seq<char>)
    requires
        0 <= i < spans.len(),
        holds_text(spans[i].0, text),
    ensures
        holds_text(line_text(spans), text),
{
    lemma_span_is_read(spans, i);
    law_held_text_is_held(line_text(spans), spans[i].0, text);
}

/// A step in a list of rows leads to the neighbouring row, from the last one to the
/// first and back.
pub proof fn law_steps_lead_to_the_neighbour(selected: int, len: int)
    requires
        0 <= selected < len,
    ensures
        turned(selected, len, true) == (if selected == len - 1 {
            0
        } else {
            selected + 1
        }),
        turned(selected, len, false) == (if selected == 0 {
            len - 1
        } else {
            selected - 1
        }),
        stepped(selected, len, true) == turned(selected, len, true),
        stepped(selected, len, false) == turned(selected, len, false),
{
    if selected == len - 1 {
        assert((selected + 1) % len == 0) by (nonlinear_arith)
            requires
                selected == len - 1,
                len > 0,
        ;
    } else {
        vstd::arithmetic::div_mod::lemma_small_mod((selected + 1) as nat, len as nat);
    }
    if selected == 0 {
        vstd::arithmetic::div_mod::lemma_mod_add_multiples_vanish(-1, len);
        vstd::arithmetic::div_mod::lemma_small_mod((len - 1) as nat, len as nat);
    } else {
        vstd::arithmetic::div_mod::lemma_small_mod((selected - 1) as nat, len as nat);
    }
}

/// A selection that is still in the list stays; else it is the last row.
pub proof fn law_selection_is_kept(selected: int, len: int)
    requires
        0 <= selected,
        0 <= len,
    ensures
        selected < len ==> kept_selection(selected, len) == selected,
        selected >= len && len > 0 ==> kept_selection(selected, len) == len - 1,
        len == 0 ==> kept_selection(selected, len) == 0,
{
}

/// The status line tells what is going on; where nothing is, what went wrong; and is
/// empty where nothing did.
pub proof fn law_status_tells(busy: Option<String>, error: Option<String>)
    ensures
        busy matches Some(b) ==> (status_line(busy, error) matches Some(s) && holds_text(s.0, b@)),
        busy is None ==> (error matches Some(e) ==> (status_line(busy, error) matches Some(s)
            && holds_text(s.0, e@))),
        busy is None && error is None ==> status_line(busy, error) is None,
{
    match busy {
        Some(b) => law_text_is_held(" ● "@, b@, Seq::<char>::empty()),
        None => {
            match error {
                Some(e) => law_text_is_held(" • "@, e@, Seq::<char>::empty()),
                None => {},
            }
        },
    }
}

/// A row of chips reads the chips in their order; the active ones, and no others, are
/// drawn as chosen.
pub proof fn law_chips_are_shown(chips: Seq<(&'static str, bool)>, chip: (&'static str, bool))
    ensures
        chip_spans(Seq::<(&'static str, bool)>::empty()).len() == 0,
        ({
            let before = chip_spans(chips);
            let all = chip_spans(chips.push(chip));
            &&& all.take(before.len() as int) == before
            &&& holds_text(all.last().0, chip.0@)
            &&& all.last().1 == chosen() <==> chip.1
            &&& all.len() == before.len() + (if chips.len() == 0 {
                1int
            } else {
                2
            })
        }),
{
    let more = chips.push(chip);
    assert(more.take(more.len() - 1) =~= chips);
    let before = chip_spans(chips);
    assert(chip_spans(more).take(before.len() as int) =~= before);
    law_text_is_held(" "@, chip.0@, " "@);
}

/// A line of key hints reads each key and what it does, in their order.
pub proof fn law_hints_are_shown(
    hints: Seq<(&'static str, &'static str)>,
    hint: (&'static str, &'static str),
    styles: HintStyles,
)
    ensures
        hint_spans(Seq::<(&'static str, &'static str)>::empty(), styles).len() == 0,
        ({
            let before = hint_spans(hints, styles);
            let all = hint_spans(hints.push(hint), styles);
            let n = all.len() as int;
            &&& all.take(before.len() as int) == before
            &&& n >= before.len() + 3
            &&& all[n - 3].0 == hint.0@
            &&& all[n - 1].0 == hint.1@
        }),
{
    let more = hints.push(hint);
    assert(more.take(more.len() - 1) =~= hints);
    let before = hint_spans(hints, styles);
    assert(hint_spans(more, styles).take(before.len() as int) =~= before);
}

/// The title of a list names it, and tells how many rows it has where it has any.
pub proof fn law_titles_count(name: Seq<char>, len: nat)
    ensures
        holds_text(list_title(name, len), name),
        len > 0 ==> holds_text(list_title(name, len), digits(len)),
        len == 0 ==> list_title(name, len) == name,
{
    let empty = Seq::<char>::empty();
    law_text_is_held(empty, name, empty);
    assert(empty + name + empty =~= name);
    if len > 0 {
        law_text_is_held(empty, name, " ("@ + digits(len) + ")"@);
        assert(list_title(name, len) =~= name + (" ("@ + digits(len) + ")"@));
        law_text_is_held(name + " ("@, digits(len), ")"@);
    }
}

/// Stepping through the fields of a form visits each of them: from a field to the one
/// behind it, and back again.
pub proof fn law_fields_are_visited<F>(fields: Seq<F>, i: int)
    requires
        0 <= i < fields.len(),
        fields.no_duplicates(),
    ensures
        field_after(fields, fields[i]) == fields[(if i + 1 == fields.len() {
            0
        } else {
            i + 1
        })],
        field_before(fields, field_after(fields, fields[i])) == fields[i],
        field_after(fields, field_before(fields, fields[i])) == fields[i],
{
    let n = fields.len() as int;
    lemma_place_of(fields, i, 0);
    let next = (i + 1) % n;
    let prev = (i + n - 1) % n;
    if i == n - 1 {
        assert((i + 1) % n == 0) by (nonlinear_arith)
            requires
                i == n - 1,
                n > 0,
        ;
    } else {
        vstd::arithmetic::div_mod::lemma_small_mod((i + 1) as nat, n as nat);
    }
    if i == 0 {
        vstd::arithmetic::div_mod::lemma_small_mod((n - 1) as nat, n as nat);
    } else {
        vstd::arithmetic::div_mod::lemma_mod_add_multiples_vanish(i - 1, n);
        vstd::arithmetic::div_mod::lemma_small_mod((i - 1) as nat, n as nat);
        assert(i + n - 1 == n + (i - 1));
    }
    lemma_place_of(fields, next, 0);
    lemma_place_of(fields, prev, 0);
    if next == 0 {
        vstd::arithmetic::div_mod::lemma_small_mod((n - 1) as nat, n as nat);
    } else {
        vstd::arithmetic::div_mod::lemma_mod_add_multiples_vanish(next - 1, n);
        vstd::arithmetic::div_mod::lemma_small_mod((next - 1) as nat, n as nat);
    }
    if prev == n - 1 {
        assert((prev + 1) % n == 0) by (nonlinear_arith)
            requires
                prev == n - 1,
                n > 0,
        ;
    } else {
        vstd::arithmetic::div_mod::lemma_small_mod((prev + 1) as nat, n as nat);
    }
}

proof fn lemma_place_of<F>(fields: Seq<F>, i: int, from: int)
    requires
        0 <= from <= i < fields.len(),
        fields.no_duplicates(),
    ensures
        place_of(fields, fields[i], from) == i,
    decreases i - from,
{
    if from < i {
        assert(fields[from] != fields[i]);
        lemma_place_of(fields, i, from + 1);
    }
}

/// A row is highlighted exactly where there is one, and it is the selected one. The
/// focused field is told apart by its label and its border.
pub proof fn law_selected_row_is_highlighted(selected: usize, len: nat)
    ensures
        len > 0 ==> shown_selection(selected, len) == Some(selected),
        len == 0 ==> shown_selection(selected, len) is None,
        label_style(true) != label_style(false),
        field_border(true) != field_border(false),
        field_border(true) == Tone::BorderActive,
{
}

/// The lesser of two numbers is one of them and above neither; what is left after taking
/// away is never below zero.
pub proof fn law_sizes_are_cut(a: int, b: int)
    ensures
        lesser(a, b) <= a && lesser(a, b) <= b,
        lesser(a, b) == a || lesser(a, b) == b,
        less(a, b) >= 0,
        a >= b ==> less(a, b) + b == a,
        a < b ==> less(a, b) == 0,
{
}

} // verus!
