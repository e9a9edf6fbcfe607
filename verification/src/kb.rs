//! The knowledge base: browsing, searching and editing its entries.
//!
//! Times are milliseconds of a clock that the caller reads.

use vstd::prelude::*;
use serde_json::Value;
use crate::area::{content, new_textarea, press_key, textarea_with, Area, CaretMove};
use crate::area::{area_of, insert_line_break, insert_text, lines_of, move_caret, plain_cursor_line};
#[allow(unused_imports)]
use crate::area::{
    area_cursor, area_lines, area_ready, area_text, inserted_lines, law_text_survives_an_area,
    lemma_one_line, no_return_ends_a_line, pressed, spliced, text_end, without_return,
};
#[allow(unused_imports)]
use crate::connections::bare;
use crate::json::{pretty_value, read_value};
#[allow(unused_imports)]
use crate::json::{json_pretty, json_read};
use crate::keys::{KeyCode, KeyEvent};
use crate::text::{
    cat2, cat3, cat4, chars_of, join, keep_nonempty, same, split, string_from, trim, trim_each,
    Separator,
};
#[allow(unused_imports)]
use crate::text::{
    holds_text, is_space, joined, law_nonempty_parts, law_pieces_hold_no_separator,
    law_text_is_held, law_trimmed_has_no_outer_space, law_trimmed_is_what_lies_between,
    lemma_pieces_extend, lemma_pieces_nonempty, nonempty, opt_text, pieces, texts, trimmed,
    trimmed_each, trimmed_start,
};
use crate::view::{
    draw_hints_in, keep_selection, line_of, plain_style, push_line, push_span, title_of, turn, Color,
    HintStyles, Line, ListView, Span, Style,
};
#[allow(unused_imports)]
use crate::view::{
    hint_spans, items_view, kept_selection, law_steps_lead_to_the_neighbour, lemma_span_is_read,
    lemma_span_tells, line_text, line_view, lines_view, list_title, plain, shown_selection,
    span_view, turned,
};

verus! {

/// How many entries are listed.
pub const LIST_LIMIT: u32 = 100;

/// How many entries a search finds at most.
pub const SEARCH_LIMIT: u32 = 50;

/// How long typing has to pause before a search runs.
pub const SEARCH_DEBOUNCE_MS: u64 = 250;

#[derive(Debug, Clone, Copy, PartialEq, Eq, Structural)]
pub enum Mode {
    List,
    Search,
    Edit,
    DeleteConfirm,
}

#[derive(Debug, Clone, Copy, PartialEq, Eq, Structural)]
pub enum EditField {
    Content,
    Tags,
    Metadata,
}

/// An entry of the knowledge base.
#[derive(Debug, PartialEq)]
pub struct KnowledgeEntryView {
    pub id: String,
    pub content: String,
    pub tags: Vec<String>,
    pub metadata: Value,
    pub created_at: String,
    pub updated_at: String,
}

/// The form that an entry is written in.
pub struct EditForm {
    /// The entry that is edited; none for a new one.
    pub editing_id: Option<String>,
    /// When the edited entry was last changed.
    pub updated_at: Option<String>,
    pub focus: EditField,
    pub content: Area,
    pub tags: Area,
    pub metadata: Area,
}

/// An area of the lines of `text`, with the cursor at the end of the first one.
pub open spec fn opened_on(area: Area, text: Seq<char>) -> bool {
    &&& area_lines(area) == inserted_lines(text)
    &&& area_cursor(area) == (0nat, inserted_lines(text)[0].len())
    &&& area_ready(area)
}

/// Lines, and an empty one behind them.
spec fn with_blank(lines: Seq<Seq<char>>) -> Seq<Seq<char>> {
    lines.push(Seq::<char>::empty())
}

/// A piece is one line of an inserted text.
proof fn lemma_piece_is_one_line(text: Seq<char>, i: int)
    requires
        0 <= i < pieces(text, Separator::Char('\n')).len(),
    ensures
        inserted_lines(pieces(text, Separator::Char('\n'))[i]) == seq![inserted_lines(text)[i]],
{
    let sep = Separator::Char('\n');
    let piece = pieces(text, sep)[i];
    assert forall|j: int| 0 <= j < piece.len() implies piece[j] != '\n' by {
        law_pieces_hold_no_separator(text, sep, i, j);
    }
    lemma_one_line(piece);
    assert(inserted_lines(piece) =~= seq![without_return(piece)]);
}

/// Typing a piece and a line break behind `done` lines.
proof fn lemma_line_is_added(done: Seq<Seq<char>>, line: Seq<char>)
    ensures
        ({
            let at = (done.len(), 0nat);
            let typed = spliced(with_blank(done), at, seq![line]);
            &&& typed == done.push(line)
            &&& spliced(
                typed,
                (done.len(), line.len()),
                seq![Seq::<char>::empty(), Seq::<char>::empty()],
            ) == with_blank(done.push(line))
        }),
{
    let empty = Seq::<char>::empty();
    let at = (done.len(), 0nat);
    let row = done.len() as int;
    let before = with_blank(done);
    assert(before[row].take(0) + line + before[row].skip(0) =~= line);
    let typed = spliced(before, at, seq![line]);
    assert(typed =~= done.push(line));
    assert(line.take(line.len() as int) + empty =~= line);
    assert(empty + line.skip(line.len() as int) =~= empty);
    let two = seq![empty, empty];
    assert(two.subrange(1, 1) =~= Seq::<Seq<char>>::empty());
    assert(spliced(typed, (done.len(), line.len()), two) =~= with_blank(done.push(line)));
}

/// Removes the last line where it is empty and not the only one; the cursor then
/// stands at the end of the first line.
fn content_trim_trailing_newline(area: &mut Area)
    requires
        area_ready(*old(area)),
    ensures
        ({
            let lines = area_lines(*old(area));
            if lines.len() > 1 && lines[lines.len() - 1].len() == 0 {
                &&& area_lines(*final(area)) == lines.take(lines.len() - 1)
                &&& area_cursor(*final(area)) == (0nat, lines[0].len())
                &&& area_ready(*final(area))
            } else {
                *final(area) == *old(area)
            }
        }),
{
    let mut lines = lines_of(area);
    let ghost all = lines@;
    let last: usize = lines.len() - 1;
    assert(texts(all)[last as int] == all[last as int]@);
    if lines.len() > 1 && lines[last].as_str().is_empty() {
        lines.truncate(last);
        assert(texts(lines@) =~= texts(all).take(last as int));
        let mut replacement = area_of(lines);
        plain_cursor_line(&mut replacement);
        move_caret(&mut replacement, CaretMove::End);
        *area = replacement;
    }
}

/// A text area of the lines of `text`, with the cursor at the end of the first
/// one.
pub fn area_opened_on(text: &str) -> (area: Area)
    ensures
        opened_on(area, text@),
{
    let mut area = new_textarea();
    let parts = split(text, Separator::Char('\n'));
    let ghost sep = Separator::Char('\n');
    let ghost all = inserted_lines(text@);
    proof {
        lemma_pieces_nonempty(text@, sep);
        assert(with_blank(all.take(0)) =~= seq![Seq::<char>::empty()]);
    }
    let mut i: usize = 0;
    while i < parts.len()
        invariant
            i <= parts@.len(),
            texts(parts@) == pieces(text@, sep),
            sep == Separator::Char('\n'),
            all == inserted_lines(text@),
            area_lines(area) == with_blank(all.take(i as int)),
            area_cursor(area) == (i as nat, 0nat),
            area_ready(area),
        decreases parts@.len() - i,
    {
        proof {
            lemma_piece_is_one_line(text@, i as int);
            lemma_line_is_added(all.take(i as int), all[i as int]);
            assert(texts(parts@)[i as int] == parts@[i as int]@);
            assert(all.take(i as int).push(all[i as int]) =~= all.take(i + 1));
        }
        insert_text(&mut area, parts[i].as_str());
        insert_line_break(&mut area);
        i += 1;
    }
    assert(all.take(i as int) =~= all);
    content_trim_trailing_newline(&mut area);
    assert(with_blank(all).take(all.len() as int) =~= all);
    area
}

impl EditForm {
    pub open spec fn is_empty_form(self) -> bool {
        let blank = seq![Seq::<char>::empty()];
        &&& self.editing_id is None
        &&& self.updated_at is None
        &&& self.focus == EditField::Content
        &&& area_lines(self.content) == blank
        &&& area_cursor(self.content) == (0nat, 0nat)
        &&& area_ready(self.content)
        &&& area_lines(self.tags) == blank
        &&& area_cursor(self.tags) == (0nat, 0nat)
        &&& area_ready(self.tags)
        &&& area_lines(self.metadata) == blank
        &&& area_cursor(self.metadata) == (0nat, 0nat)
        &&& area_ready(self.metadata)
    }

    /// The form shows an entry.
    pub open spec fn shows(self, entry: KnowledgeEntryView) -> bool {
        let tags = inserted_lines(joined(texts(entry.tags@), ", "@));
        &&& opt_text(self.editing_id) == Some(entry.id@)
        &&& opt_text(self.updated_at) == Some(entry.updated_at@)
        &&& self.focus == EditField::Content
        &&& opened_on(self.content, entry.content@)
        &&& area_lines(self.tags) == tags
        &&& area_cursor(self.tags) == text_end(tags)
        &&& area_ready(self.tags)
        &&& opened_on(self.metadata, json_pretty(entry.metadata))
    }

    pub fn empty() -> (form: Self)
        ensures
            form.is_empty_form(),
    {
        EditForm {
            editing_id: None,
            updated_at: None,
            focus: EditField::Content,
            content: new_textarea(),
            tags: new_textarea(),
            metadata: new_textarea(),
        }
    }

    /// The form for an entry.
    pub fn from_entry(entry: &KnowledgeEntryView) -> (form: Self)
        ensures
            form.shows(*entry),
    {
        let tags = join(&entry.tags, ", ");
        let pretty = pretty_value(&entry.metadata);
        EditForm {
            editing_id: Some(entry.id.clone()),
            updated_at: Some(entry.updated_at.clone()),
            focus: EditField::Content,
            content: area_opened_on(entry.content.as_str()),
            tags: textarea_with(tags.as_str()),
            metadata: area_opened_on(pretty.as_str()),
        }
    }

    /// The field after `field`, in a circle.
    pub open spec fn field_after(field: EditField) -> EditField {
        match field {
            EditField::Content => EditField::Tags,
            EditField::Tags => EditField::Metadata,
            EditField::Metadata => EditField::Content,
        }
    }

    /// The field before `field`, in a circle.
    pub open spec fn field_before(field: EditField) -> EditField {
        match field {
            EditField::Content => EditField::Metadata,
            EditField::Tags => EditField::Content,
            EditField::Metadata => EditField::Tags,
        }
    }

    pub fn next_field(&mut self)
        ensures
            *final(self) == (EditForm { focus: Self::field_after(old(self).focus), ..*old(self) }),
    {
        self.focus = match self.focus {
            EditField::Content => EditField::Tags,
            EditField::Tags => EditField::Metadata,
            EditField::Metadata => EditField::Content,
        };
    }

    pub fn prev_field(&mut self)
        ensures
            *final(self) == (EditForm { focus: Self::field_before(old(self).focus), ..*old(self) }),
    {
        self.focus = match self.focus {
            EditField::Content => EditField::Metadata,
            EditField::Tags => EditField::Content,
            EditField::Metadata => EditField::Tags,
        };
    }

    /// The tags: what stands between commas and line breaks, trimmed and not empty.
    pub open spec fn tag_texts(self) -> Seq<Seq<char>> {
        nonempty(
            trimmed_each(pieces(joined(area_lines(self.tags), ","@), Separator::Char(','))),
        )
    }

    /// The JSON text of the metadata; an empty field stands for `null`.
    pub open spec fn metadata_text(self) -> Seq<char> {
        if trimmed(area_text(self.metadata)).len() == 0 {
            "null"@
        } else {
            area_text(self.metadata)
        }
    }

    /// Nothing but blanks stands in the content field.
    pub open spec fn blank(self) -> bool {
        trimmed(area_text(self.content)).len() == 0
    }

    /// Checks the form: content, tags and metadata where the content is not blank
    /// and the metadata is JSON.
    pub fn submit(&self) -> (r: Result<(String, Vec<String>, Value), String>)
        ensures
            if self.blank() {
                r matches Err(e) && e@ == "Content is required"@
            } else {
                checked(
                    area_text(self.content),
                    self.tag_texts(),
                    json_read(self.metadata_text()),
                    r,
                )
            },
            !self.blank() && trimmed(area_text(self.metadata)).len() == 0 ==> r is Ok,
    {
        let text = content(&self.content);
        if trim(text.as_str()).as_str().is_empty() {
            return Err("Content is required".to_owned());
        }
        let tag_lines = lines_of(&self.tags);
        let all = join(&tag_lines, ",");
        let parts = split(all.as_str(), Separator::Char(','));
        let neat = trim_each(&parts);
        let tags = keep_nonempty(&neat);
        let given = content(&self.metadata);
        let read = if trim(given.as_str()).as_str().is_empty() {
            read_value("null")
        } else {
            read_value(given.as_str())
        };
        with_metadata(text, tags, read)
    }
}

/// The outcome of a form whose metadata was read.
pub open spec fn checked(
    content: Seq<char>,
    tags: Seq<Seq<char>>,
    read: Result<Value, Seq<char>>,
    r: Result<(String, Vec<String>, Value), String>,
) -> bool {
    match read {
        Ok(value) => {
            &&& r matches Ok(parts)
            &&& parts.0@ == content
            &&& texts(parts.1@) == tags
            &&& parts.2 == value
        },
        Err(e) => r matches Err(m) && m@ == "Metadata is not valid JSON: "@ + e,
    }
}

/// A read value, or the characters of why it was not read.
pub open spec fn read_view(read: Result<Value, String>) -> Result<Value, Seq<char>> {
    match read {
        Ok(value) => Ok(value),
        Err(e) => Err(e@),
    }
}

/// Puts content, tags and the read metadata together.
pub fn with_metadata(content: String, tags: Vec<String>, read: Result<Value, String>) -> (r: Result<
    (String, Vec<String>, Value),
    String,
>)
    ensures
        checked(content@, texts(tags@), read_view(read), r),
        read is Ok <==> r is Ok,
{
    match read {
        Ok(value) => Ok((content, tags, value)),
        Err(e) => Err(cat2("Metadata is not valid JSON: ", e.as_str())),
    }
}

/// A tag that can be written between commas: on one line, without a comma, and
/// without white space at its ends.
pub open spec fn writable_tag(tag: Seq<char>) -> bool {
    &&& tag.len() > 0
    &&& !is_space(tag[0])
    &&& !is_space(tag[tag.len() - 1])
    &&& forall|i: int|
        0 <= i < tag.len() ==> #[trigger] tag[i] != ',' && tag[i] != '\n' && tag[i] != '\r'
}

/// Tags as they stand between the commas.
spec fn spaced_tags(tags: Seq<Seq<char>>) -> Seq<Seq<char>> {
    Seq::new(
        tags.len(),
        |i: int|
            if i == 0 {
                tags[i]
            } else {
                seq![' '] + tags[i]
            },
    )
}

proof fn lemma_tags_between_commas(tags: Seq<Seq<char>>)
    requires
        tags.len() > 0,
        forall|i: int| 0 <= i < tags.len() ==> writable_tag(#[trigger] tags[i]),
    ensures
        pieces(joined(tags, ", "@), Separator::Char(',')) == spaced_tags(tags),
        forall|i: int|
            0 <= i < joined(tags, ", "@).len() ==> #[trigger] joined(tags, ", "@)[i] != '\n'
                && joined(tags, ", "@)[i] != '\r',
    decreases tags.len(),
{
    let sep = Separator::Char(',');
    let none = Seq::<char>::empty();
    let n = tags.len() - 1;
    let last = tags[n];
    reveal_strlit(", ");
    assert(", "@ =~= seq![',', ' ']);
    if n == 0 {
        lemma_pieces_extend(none, last, sep);
        assert(none + last =~= last);
        assert(pieces(last, sep) =~= spaced_tags(tags));
    } else {
        let before = tags.take(n);
        lemma_tags_between_commas(before);
        let head = joined(before, ", "@);
        let ended = head.push(',');
        let tail = seq![' '] + last;
        assert(ended.take(ended.len() - 1) =~= head);
        assert(pieces(ended, sep) == pieces(head, sep).push(none));
        lemma_pieces_extend(ended, tail, sep);
        assert(head + ", "@ + last =~= ended + tail);
        assert(none + tail =~= tail);
        assert(pieces(ended + tail, sep) =~= spaced_tags(tags));
    }
}

proof fn lemma_writable_tag_is_trimmed(tag: Seq<char>)
    requires
        writable_tag(tag),
    ensures
        trimmed(tag) == tag,
        trimmed(seq![' '] + tag) == tag,
{
    let spaced = seq![' '] + tag;
    assert(spaced.skip(1) =~= tag);
    assert(trimmed_start(spaced) == trimmed_start(tag));
}

proof fn lemma_all_kept(parts: Seq<Seq<char>>)
    requires
        forall|i: int| 0 <= i < parts.len() ==> (#[trigger] parts[i]).len() > 0,
    ensures
        nonempty(parts) == parts,
    decreases parts.len(),
{
    if parts.len() > 0 {
        lemma_all_kept(parts.take(parts.len() - 1));
        assert(parts.take(parts.len() - 1).push(parts[parts.len() - 1]) =~= parts);
    }
}

/// An entry that is opened and not edited is handed in with its own content and
/// tags.
pub proof fn law_unedited_entry_is_kept(form: EditForm, entry: KnowledgeEntryView)
    requires
        form.shows(entry),
        no_return_ends_a_line(entry.content@),
        forall|i: int|
            0 <= i < entry.tags@.len() ==> writable_tag(#[trigger] texts(entry.tags@)[i]),
    ensures
        area_text(form.content) == entry.content@,
        form.tag_texts() == texts(entry.tags@),
{
    law_text_survives_an_area(entry.content@);
    let tags = texts(entry.tags@);
    let line = joined(tags, ", "@);
    let sep = Separator::Char(',');
    if tags.len() == 0 {
        assert(line =~= Seq::<char>::empty());
        lemma_one_line(line);
        assert(area_lines(form.tags) =~= seq![line]);
        assert(pieces(line, sep) =~= seq![line]);
        let parts = trimmed_each(pieces(line, sep));
        assert(parts =~= seq![line]);
        reveal_with_fuel(nonempty, 2);
        assert(nonempty(parts) =~= tags);
    } else {
        lemma_tags_between_commas(tags);
        lemma_one_line(line);
        assert(area_lines(form.tags) =~= seq![line]);
        assert forall|i: int| 0 <= i < tags.len() implies trimmed(#[trigger] spaced_tags(tags)[i])
            == tags[i] by {
            lemma_writable_tag_is_trimmed(tags[i]);
        }
        assert(trimmed_each(spaced_tags(tags)) =~= tags);
        lemma_all_kept(tags);
    }
}

/// What the screen asks the daemon for.
pub enum Request {
    Nothing,
    List { limit: u32, offset: u32 },
    Search { query: String, limit: u32 },
    Create { content: String, tags: Vec<String>, metadata: Value },
    Update { id: String, content: String, tags: Vec<String>, metadata: Value },
    Delete { id: String },
}

/// What a request to the daemon came to.
pub enum RpcOutcome {
    Listed(Result<Vec<KnowledgeEntryView>, String>),
    Found(Result<Vec<KnowledgeEntryView>, String>),
    Saved(Result<KnowledgeEntryView, String>),
    Deleted { id: String, result: Result<(), String> },
}

pub struct State {
    pub entries: Vec<KnowledgeEntryView>,
    pub selected: usize,
    pub mode: Mode,
    pub search: Area,
    /// When the pending search runs; none where no search is pending.
    pub search_deadline: Option<u64>,
    pub edit: EditForm,
    pub error: Option<String>,
    pub busy: Option<String>,
    pub closing: bool,
}

impl State {
    /// The selection is in the list; 0 in an empty list.
    pub open spec fn in_range(self) -> bool {
        self.selected < self.entries@.len() || (self.selected == 0 && self.entries@.len() == 0)
    }

    /// An entry is selected.
    pub open spec fn has_selection(self) -> bool {
        self.selected < self.entries@.len()
    }

    /// The state with the selection moved by one row.
    pub open spec fn moved(self, down: bool) -> State {
        if self.entries@.len() == 0 {
            self
        } else {
            State {
                selected: turned(self.selected as int, self.entries@.len() as int, down) as usize,
                ..self
            }
        }
    }

    /// The state in which the screen opens.
    pub fn new() -> (s: Self)
        ensures
            s.entries@.len() == 0,
            s.selected == 0,
            s.mode == Mode::List,
            area_lines(s.search) == seq![Seq::<char>::empty()],
            area_ready(s.search),
            s.search_deadline is None,
            s.edit.is_empty_form(),
            s.error is None,
            opt_text(s.busy) == Some("Loading entries..."@),
            !s.closing,
            s.in_range(),
    {
        State {
            entries: Vec::new(),
            selected: 0,
            mode: Mode::List,
            search: new_textarea(),
            search_deadline: None,
            edit: EditForm::empty(),
            error: None,
            busy: Some("Loading entries...".to_owned()),
            closing: false,
        }
    }
}

/// Moves the selection one row down or up, in a circle.
pub fn advance_selection(state: &mut State, down: bool)
    ensures
        *final(state) == old(state).moved(down),
        old(state).in_range() ==> final(state).in_range(),
{
    let len: usize = state.entries.len();
    if len > 0 {
        state.selected = turn(state.selected, len, down);
    }
}

/// The whole list is asked for.
pub open spec fn lists(before: State, after: State, r: Request) -> bool {
    &&& r == (Request::List { limit: LIST_LIMIT, offset: 0 })
    &&& after == (State { busy: after.busy, ..before })
    &&& opt_text(after.busy) == Some("Loading entries..."@)
}

/// Asks for the list.
pub fn refresh_list(state: &mut State) -> (r: Request)
    ensures
        lists(*old(state), *final(state), r),
{
    state.busy = Some("Loading entries...".to_owned());
    Request::List { limit: LIST_LIMIT, offset: 0 }
}

/// What searching for `query` asks for: the whole list where it is empty.
pub open spec fn searches(before: State, query: Seq<char>, after: State, r: Request) -> bool {
    if query.len() == 0 {
        lists(before, after, r)
    } else {
        &&& r matches Request::Search { query: q, limit }
        &&& q@ == query
        &&& limit == SEARCH_LIMIT
        &&& after == (State { busy: after.busy, ..before })
        &&& opt_text(after.busy) == Some("Searching..."@)
    }
}

/// Searches for `query`.
pub fn run_search(state: &mut State, query: String) -> (r: Request)
    ensures
        searches(*old(state), query@, *final(state), r),
{
    if query.as_str().is_empty() {
        return refresh_list(state);
    }
    state.busy = Some("Searching...".to_owned());
    Request::Search { query, limit: SEARCH_LIMIT }
}

/// What is searched for: the lines of the search field, trimmed.
pub open spec fn query_text(state: State) -> Seq<char> {
    trimmed(joined(area_lines(state.search), " "@))
}

/// The pending search is due.
pub fn on_timer(state: &mut State) -> (r: Request)
    ensures
        searches(
            State { search_deadline: None, ..*old(state) },
            query_text(*old(state)),
            *final(state),
            r,
        ),
{
    state.search_deadline = None;
    let lines = lines_of(&state.search);
    let text = join(&lines, " ");
    run_search(state, trim(text.as_str()))
}

/// What a key does in the list.
#[derive(Debug, Clone, Copy, PartialEq, Eq, Structural)]
pub enum ListKey {
    Close,
    Down,
    Up,
    Edit,
    New,
    Delete,
    Search,
    Refresh,
    Other,
}

pub open spec fn list_key(key: KeyEvent) -> ListKey {
    if !key.modifiers.none() {
        ListKey::Other
    } else {
        match key.code {
            KeyCode::Esc => ListKey::Close,
            KeyCode::Down => ListKey::Down,
            KeyCode::Up => ListKey::Up,
            KeyCode::Enter => ListKey::Edit,
            KeyCode::Char(c) => match c {
                'q' => ListKey::Close,
                'j' => ListKey::Down,
                'k' => ListKey::Up,
                'e' => ListKey::Edit,
                'n' => ListKey::New,
                'd' => ListKey::Delete,
                '/' => ListKey::Search,
                'r' => ListKey::Refresh,
                _ => ListKey::Other,
            },
            _ => ListKey::Other,
        }
    }
}

fn list_key_of(key: KeyEvent) -> (k: ListKey)
    ensures
        k == list_key(key),
{
    if !key.modifiers.is_empty() {
        return ListKey::Other;
    }
    match key.code {
        KeyCode::Esc | KeyCode::Char('q') => ListKey::Close,
        KeyCode::Down | KeyCode::Char('j') => ListKey::Down,
        KeyCode::Up | KeyCode::Char('k') => ListKey::Up,
        KeyCode::Enter | KeyCode::Char('e') => ListKey::Edit,
        KeyCode::Char('n') => ListKey::New,
        KeyCode::Char('d') => ListKey::Delete,
        KeyCode::Char('/') => ListKey::Search,
        KeyCode::Char('r') => ListKey::Refresh,
        _ => ListKey::Other,
    }
}

/// The form is opened.
pub open spec fn form_opened(before: State, after: State) -> bool {
    after == (State { edit: after.edit, error: None, mode: Mode::Edit, ..before })
}

/// What a key in the list leads to.
pub open spec fn list_step(before: State, key: KeyEvent, after: State, r: Request) -> bool {
    match list_key(key) {
        ListKey::Close => r is Nothing && after == (State { closing: true, ..before }),
        ListKey::Down => r is Nothing && after == before.moved(true),
        ListKey::Up => r is Nothing && after == before.moved(false),
        ListKey::Edit => r is Nothing && if before.has_selection() {
            &&& form_opened(before, after)
            &&& after.edit.shows(before.entries@[before.selected as int])
        } else {
            after == before
        },
        ListKey::New => {
            &&& r is Nothing
            &&& form_opened(before, after)
            &&& after.edit.is_empty_form()
        },
        ListKey::Delete => r is Nothing && after == (State {
            mode: if before.has_selection() {
                Mode::DeleteConfirm
            } else {
                before.mode
            },
            ..before
        }),
        ListKey::Search => r is Nothing && after == (State { mode: Mode::Search, ..before }),
        ListKey::Refresh => lists(before, after, r),
        ListKey::Other => r is Nothing && after == before,
    }
}

/// A key in the list.
pub fn handle_list_key(state: &mut State, key: KeyEvent) -> (r: Request)
    ensures
        list_step(*old(state), key, *final(state), r),
        old(state).in_range() ==> final(state).in_range(),
{
    match list_key_of(key) {
        ListKey::Close => {
            state.closing = true;
        },
        ListKey::Down => advance_selection(state, true),
        ListKey::Up => advance_selection(state, false),
        ListKey::Edit => {
            if state.selected < state.entries.len() {
                state.edit = EditForm::from_entry(&state.entries[state.selected]);
                state.error = None;
                state.mode = Mode::Edit;
            }
        },
        ListKey::New => {
            state.edit = EditForm::empty();
            state.error = None;
            state.mode = Mode::Edit;
        },
        ListKey::Delete => {
            if state.selected < state.entries.len() {
                state.mode = Mode::DeleteConfirm;
            }
        },
        ListKey::Search => {
            state.mode = Mode::Search;
        },
        ListKey::Refresh => {
            return refresh_list(state);
        },
        ListKey::Other => {},
    }
    Request::Nothing
}

/// What a key in the search field leads to: the search runs at once when the
/// field is left, and when typing pauses.
pub open spec fn search_step(before: State, key: KeyEvent, now_ms: u64, after: State) -> bool {
    if key.code == KeyCode::Esc {
        &&& after == (State {
            search: after.search,
            search_deadline: Some(now_ms),
            mode: Mode::List,
            ..before
        })
        &&& area_lines(after.search) == seq![Seq::<char>::empty()]
        &&& area_ready(after.search)
    } else if key.code == KeyCode::Enter && key.modifiers.none() {
        after == (State { search_deadline: Some(now_ms), mode: Mode::List, ..before })
    } else {
        &&& after == (State {
            search: after.search,
            search_deadline: Some((now_ms + SEARCH_DEBOUNCE_MS) as u64),
            ..before
        })
        &&& pressed(before.search, key, after.search)
    }
}

/// A key in the search field.
pub fn handle_search_key(state: &mut State, key: KeyEvent, now_ms: u64)
    requires
        now_ms + SEARCH_DEBOUNCE_MS <= u64::MAX,
    ensures
        search_step(*old(state), key, now_ms, *final(state)),
        old(state).in_range() ==> final(state).in_range(),
{
    match key.code {
        KeyCode::Esc => {
            state.search = new_textarea();
            state.mode = Mode::List;
            state.search_deadline = Some(now_ms);
        },
        KeyCode::Enter if key.modifiers.is_empty() => {
            state.search_deadline = Some(now_ms);
            state.mode = Mode::List;
        },
        _ => {
            press_key(&mut state.search, key);
            state.search_deadline = Some(now_ms + SEARCH_DEBOUNCE_MS);
        },
    }
}

/// A save asks for the checked form: as an update of the edited entry, else as a
/// new one.
pub open spec fn saves(form: EditForm, metadata: Value, r: Request) -> bool {
    match r {
        Request::Update { id, content, tags, metadata: m } => {
            &&& opt_text(form.editing_id) == Some(id@)
            &&& content@ == area_text(form.content)
            &&& texts(tags@) == form.tag_texts()
            &&& m == metadata
        },
        Request::Create { content, tags, metadata: m } => {
            &&& form.editing_id is None
            &&& content@ == area_text(form.content)
            &&& texts(tags@) == form.tag_texts()
            &&& m == metadata
        },
        _ => false,
    }
}

/// What saving the form leads to.
pub open spec fn save_step(before: State, after: State, r: Request) -> bool {
    if before.edit.blank() {
        &&& r is Nothing
        &&& after == (State { error: after.error, ..before })
        &&& opt_text(after.error) == Some("Content is required"@)
    } else {
        match json_read(before.edit.metadata_text()) {
            Err(e) => {
                &&& r is Nothing
                &&& after == (State { error: after.error, ..before })
                &&& opt_text(after.error) == Some("Metadata is not valid JSON: "@ + e)
            },
            Ok(metadata) => {
                &&& saves(before.edit, metadata, r)
                &&& after == (State { busy: after.busy, ..before })
                &&& opt_text(after.busy) == Some("Saving..."@)
            },
        }
    }
}

/// Checks the form and asks for it to be saved.
pub fn save_edit(state: &mut State) -> (r: Request)
    ensures
        save_step(*old(state), *final(state), r),
{
    match state.edit.submit() {
        Ok((content, tags, metadata)) => {
            state.busy = Some("Saving...".to_owned());
            match &state.edit.editing_id {
                Some(id) => Request::Update { id: id.clone(), content, tags, metadata },
                None => Request::Create { content, tags, metadata },
            }
        },
        Err(e) => {
            state.error = Some(e);
            Request::Nothing
        },
    }
}

/// What a key does in the form.
#[derive(Debug, Clone, Copy, PartialEq, Eq, Structural)]
pub enum EditKey {
    Save,
    Cancel,
    NextField,
    PrevField,
    /// Goes to the focused field.
    Text,
    /// Enter in the tags, which are one line.
    Swallowed,
}

pub open spec fn edit_key(key: KeyEvent, focus: EditField) -> EditKey {
    if key.modifiers.control && key.code == KeyCode::Char('s') {
        EditKey::Save
    } else {
        match key.code {
            KeyCode::Esc => EditKey::Cancel,
            KeyCode::Tab => EditKey::NextField,
            KeyCode::BackTab => EditKey::PrevField,
            KeyCode::Enter => if focus == EditField::Tags {
                EditKey::Swallowed
            } else {
                EditKey::Text
            },
            _ => EditKey::Text,
        }
    }
}

fn edit_key_of(key: KeyEvent, focus: EditField) -> (k: EditKey)
    ensures
        k == edit_key(key, focus),
{
    if key.modifiers.control && key.code == KeyCode::Char('s') {
        return EditKey::Save;
    }
    match key.code {
        KeyCode::Esc => EditKey::Cancel,
        KeyCode::Tab => EditKey::NextField,
        KeyCode::BackTab => EditKey::PrevField,
        KeyCode::Enter if focus == EditField::Tags => EditKey::Swallowed,
        _ => EditKey::Text,
    }
}

/// A field after a key went to the form.
pub open spec fn field_typed(
    form: EditForm,
    field: EditField,
    before: Area,
    key: KeyEvent,
    after: Area,
) -> bool {
    if form.focus == field {
        pressed(before, key, after)
    } else {
        after == before
    }
}

/// The form after a key went to the focused field.
pub open spec fn typed_in_focus(before: EditForm, key: KeyEvent, after: EditForm) -> bool {
    &&& after == (EditForm {
        content: after.content,
        tags: after.tags,
        metadata: after.metadata,
        ..before
    })
    &&& field_typed(before, EditField::Content, before.content, key, after.content)
    &&& field_typed(before, EditField::Tags, before.tags, key, after.tags)
    &&& field_typed(before, EditField::Metadata, before.metadata, key, after.metadata)
}

/// What a key in the form leads to.
pub open spec fn edit_step(before: State, key: KeyEvent, after: State, r: Request) -> bool {
    match edit_key(key, before.edit.focus) {
        EditKey::Save => save_step(before, after, r),
        EditKey::Cancel => {
            &&& r is Nothing
            &&& after == (State { error: None, edit: after.edit, mode: Mode::List, ..before })
            &&& after.edit.is_empty_form()
        },
        EditKey::NextField => {
            &&& r is Nothing
            &&& after == (State {
                edit: EditForm {
                    focus: EditForm::field_after(before.edit.focus),
                    ..before.edit
                },
                ..before
            })
        },
        EditKey::PrevField => {
            &&& r is Nothing
            &&& after == (State {
                edit: EditForm {
                    focus: EditForm::field_before(before.edit.focus),
                    ..before.edit
                },
                ..before
            })
        },
        EditKey::Text => {
            &&& r is Nothing
            &&& after == (State { edit: after.edit, ..before })
            &&& typed_in_focus(before.edit, key, after.edit)
        },
        EditKey::Swallowed => r is Nothing && after == before,
    }
}

/// A key in the form.
pub fn handle_edit_key(state: &mut State, key: KeyEvent) -> (r: Request)
    ensures
        edit_step(*old(state), key, *final(state), r),
        old(state).in_range() ==> final(state).in_range(),
{
    match edit_key_of(key, state.edit.focus) {
        EditKey::Save => {
            return save_edit(state);
        },
        EditKey::Cancel => {
            state.error = None;
            state.edit = EditForm::empty();
            state.mode = Mode::List;
        },
        EditKey::NextField => state.edit.next_field(),
        EditKey::PrevField => state.edit.prev_field(),
        EditKey::Text => match state.edit.focus {
            EditField::Content => press_key(&mut state.edit.content, key),
            EditField::Tags => press_key(&mut state.edit.tags, key),
            EditField::Metadata => press_key(&mut state.edit.metadata, key),
        },
        EditKey::Swallowed => {},
    }
    Request::Nothing
}

/// Whether a key confirms a deletion.
pub open spec fn confirms(code: KeyCode) -> bool {
    code == KeyCode::Char('y') || code == KeyCode::Char('Y') || code == KeyCode::Enter
}

/// What a key in the delete confirmation leads to.
pub open spec fn delete_step(before: State, key: KeyEvent, after: State, r: Request) -> bool {
    if confirms(key.code) && before.has_selection() {
        &&& r matches Request::Delete { id }
        &&& id@ == before.entries@[before.selected as int].id@
        &&& after == (State { busy: after.busy, mode: Mode::List, ..before })
        &&& opt_text(after.busy) == Some("Deleting entry..."@)
    } else {
        r is Nothing && after == (State { mode: Mode::List, ..before })
    }
}

/// A key in the delete confirmation: every key but a confirming one cancels.
pub fn handle_delete_key(state: &mut State, key: KeyEvent) -> (r: Request)
    ensures
        delete_step(*old(state), key, *final(state), r),
        old(state).in_range() ==> final(state).in_range(),
{
    state.mode = Mode::List;
    let confirmed: bool = match key.code {
        KeyCode::Char('y') | KeyCode::Char('Y') | KeyCode::Enter => true,
        _ => false,
    };
    if confirmed && state.selected < state.entries.len() {
        state.busy = Some("Deleting entry...".to_owned());
        return Request::Delete { id: state.entries[state.selected].id.clone() };
    }
    Request::Nothing
}

/// What a key leads to.
pub open spec fn key_step(
    before: State,
    key: KeyEvent,
    now_ms: u64,
    after: State,
    r: Request,
) -> bool {
    match before.mode {
        Mode::List => list_step(before, key, after, r),
        Mode::Search => r is Nothing && search_step(before, key, now_ms, after),
        Mode::Edit => edit_step(before, key, after, r),
        Mode::DeleteConfirm => delete_step(before, key, after, r),
    }
}

/// A key in any mode.
pub fn handle_key(state: &mut State, key: KeyEvent, now_ms: u64) -> (r: Request)
    requires
        now_ms + SEARCH_DEBOUNCE_MS <= u64::MAX,
    ensures
        key_step(*old(state), key, now_ms, *final(state), r),
        old(state).in_range() ==> final(state).in_range(),
{
    match state.mode {
        Mode::List => handle_list_key(state, key),
        Mode::Search => {
            handle_search_key(state, key, now_ms);
            Request::Nothing
        },
        Mode::Edit => handle_edit_key(state, key),
        Mode::DeleteConfirm => handle_delete_key(state, key),
    }
}

/// Where the first entry of an id stands from `from` on.
pub open spec fn place(entries: Seq<KnowledgeEntryView>, id: Seq<char>, from: int) -> Option<int>
    decreases entries.len() - from,
{
    if from < 0 || from >= entries.len() {
        None
    } else if entries[from].id@ == id {
        Some(from)
    } else {
        place(entries, id, from + 1)
    }
}

fn find(entries: &Vec<KnowledgeEntryView>, id: &str) -> (at: Option<usize>)
    ensures
        match at {
            Some(i) => i < entries@.len() && place(entries@, id@, 0) == Some(i as int),
            None => place(entries@, id@, 0) is None,
        },
{
    let mut i: usize = 0;
    while i < entries.len()
        invariant
            i <= entries@.len(),
            place(entries@, id@, 0) == place(entries@, id@, i as int),
        decreases entries@.len() - i,
    {
        if same(entries[i].id.as_str(), id) {
            return Some(i);
        }
        i += 1;
    }
    None
}

/// The list with a saved entry: in the place of the entry of the same id, else at
/// the front.
pub open spec fn with_saved(
    entries: Seq<KnowledgeEntryView>,
    saved: KnowledgeEntryView,
) -> Seq<KnowledgeEntryView> {
    match place(entries, saved.id@, 0) {
        Some(i) => entries.update(i, saved),
        None => seq![saved] + entries,
    }
}

/// Where a saved entry stands.
pub open spec fn saved_place(
    entries: Seq<KnowledgeEntryView>,
    saved: KnowledgeEntryView,
) -> int {
    match place(entries, saved.id@, 0) {
        Some(i) => i,
        None => 0,
    }
}

/// A request failed: its text is shown behind `what`.
pub open spec fn failed(before: State, what: Seq<char>, e: Seq<char>, after: State) -> bool {
    &&& after == (State { busy: None, error: after.error, ..before })
    &&& opt_text(after.error) == Some(what + e)
}

/// The state that an outcome leads to.
pub open spec fn applied(before: State, outcome: RpcOutcome, after: State) -> bool {
    match outcome {
        RpcOutcome::Listed(Ok(rows)) | RpcOutcome::Found(Ok(rows)) => after == (State {
            entries: rows,
            selected: kept_selection(before.selected as int, rows@.len() as int) as usize,
            busy: None,
            ..before
        }),
        RpcOutcome::Listed(Err(e)) => failed(before, "Failed to load entries: "@, e@, after),
        RpcOutcome::Found(Err(e)) => failed(before, "Search failed: "@, e@, after),
        RpcOutcome::Saved(Ok(saved)) => {
            &&& after == (State {
                entries: after.entries,
                selected: saved_place(before.entries@, saved) as usize,
                error: None,
                edit: after.edit,
                mode: Mode::List,
                busy: None,
                ..before
            })
            &&& after.entries@ == with_saved(before.entries@, saved)
            &&& after.edit.is_empty_form()
        },
        RpcOutcome::Saved(Err(e)) => failed(before, "Save failed: "@, e@, after),
        RpcOutcome::Deleted { id, result: Ok(_) } => match place(before.entries@, id@, 0) {
            Some(i) => {
                &&& after == (State {
                    entries: after.entries,
                    selected: kept_selection(
                        before.selected as int,
                        before.entries@.len() - 1,
                    ) as usize,
                    busy: None,
                    ..before
                })
                &&& after.entries@ == before.entries@.remove(i)
            },
            None => after == (State { busy: None, ..before }),
        },
        RpcOutcome::Deleted { id, result: Err(e) } => failed(
            before,
            "Delete failed: "@,
            e@,
            after,
        ),
    }
}

/// Applies what a request came to. A saved or deleted entry changes the list in
/// place.
pub fn apply_outcome(state: &mut State, outcome: RpcOutcome)
    ensures
        applied(*old(state), outcome, *final(state)),
        old(state).in_range() ==> final(state).in_range(),
{
    state.busy = None;
    match outcome {
        RpcOutcome::Listed(Ok(rows)) => {
            state.selected = keep_selection(state.selected, rows.len());
            state.entries = rows;
        },
        RpcOutcome::Found(Ok(rows)) => {
            state.selected = keep_selection(state.selected, rows.len());
            state.entries = rows;
        },
        RpcOutcome::Listed(Err(e)) => {
            state.error = Some(cat2("Failed to load entries: ", e.as_str()));
        },
        RpcOutcome::Found(Err(e)) => {
            state.error = Some(cat2("Search failed: ", e.as_str()));
        },
        RpcOutcome::Saved(Ok(saved)) => {
            match find(&state.entries, saved.id.as_str()) {
                Some(i) => {
                    state.entries.set(i, saved);
                    state.selected = i;
                },
                None => {
                    let ghost rest = state.entries@;
                    state.entries.insert(0, saved);
                    assert(state.entries@ =~= seq![saved] + rest);
                    state.selected = 0;
                },
            }
            state.error = None;
            state.edit = EditForm::empty();
            state.mode = Mode::List;
        },
        RpcOutcome::Saved(Err(e)) => {
            state.error = Some(cat2("Save failed: ", e.as_str()));
        },
        RpcOutcome::Deleted { id, result: Ok(_) } => {
            match find(&state.entries, id.as_str()) {
                Some(i) => {
                    state.entries.remove(i);
                    state.selected = keep_selection(state.selected, state.entries.len());
                },
                None => {},
            }
        },
        RpcOutcome::Deleted { id, result: Err(e) } => {
            state.error = Some(cat2("Delete failed: ", e.as_str()));
        },
    }
}

proof fn lemma_place(entries: Seq<KnowledgeEntryView>, id: Seq<char>, from: int)
    requires
        0 <= from,
    ensures
        match place(entries, id, from) {
            Some(i) => from <= i < entries.len() && entries[i].id@ == id,
            None => forall|i: int| from <= i < entries.len() ==> (#[trigger] entries[i]).id@ != id,
        },
    decreases entries.len() - from,
{
    if from < entries.len() && entries[from].id@ != id {
        lemma_place(entries, id, from + 1);
    }
}

/// No two entries have the same id.
pub open spec fn distinct_ids(entries: Seq<KnowledgeEntryView>) -> bool {
    forall|i: int, j: int|
        0 <= i < j < entries.len() ==> (#[trigger] entries[i]).id@ != (#[trigger] entries[j]).id@
}

/// A saved entry is in the list and selected; an entry of another id stays.
pub proof fn law_saved_entry_is_selected(
    before: State,
    saved: KnowledgeEntryView,
    after: State,
    other: int,
)
    requires
        applied(before, RpcOutcome::Saved(Ok(saved)), after),
        before.entries@.len() < usize::MAX,
    ensures
        after.has_selection(),
        after.entries@[after.selected as int] == saved,
        0 <= other < before.entries@.len() && before.entries@[other].id@ != saved.id@
            ==> after.entries@.contains(before.entries@[other]),
{
    let entries = before.entries@;
    lemma_place(entries, saved.id@, 0);
    match place(entries, saved.id@, 0) {
        Some(i) => {
            if 0 <= other < entries.len() && other != i {
                assert(after.entries@[other] == entries[other]);
            }
        },
        None => {
            if 0 <= other < entries.len() {
                assert(after.entries@[other + 1] == entries[other]);
            }
        },
    }
}

/// Where ids are distinct they stay so when an entry is deleted, and the deleted
/// entry is gone.
pub proof fn law_deleted_entry_is_gone(before: State, id: String, after: State)
    requires
        distinct_ids(before.entries@),
        applied(before, RpcOutcome::Deleted { id, result: Ok(()) }, after),
    ensures
        distinct_ids(after.entries@),
        forall|i: int| 0 <= i < after.entries@.len() ==> (#[trigger] after.entries@[i]).id@ != id@,
{
    let entries = before.entries@;
    lemma_place(entries, id@, 0);
    match place(entries, id@, 0) {
        Some(at) => {
            let rest = entries.remove(at);
            assert forall|i: int| 0 <= i < rest.len() implies (#[trigger] rest[i]).id@ != id@ by {
                let was = if i < at {
                    i
                } else {
                    i + 1
                };
                assert(rest[i] == entries[was]);
                if was < at {
                    assert(entries[was].id@ != entries[at].id@);
                } else {
                    assert(entries[at].id@ != entries[was].id@);
                }
            }
            assert forall|i: int, j: int| 0 <= i < j < rest.len() implies (#[trigger] rest[i]).id@ != (
            #[trigger] rest[j]).id@ by {
                let a = if i < at {
                    i
                } else {
                    i + 1
                };
                let b = if j < at {
                    j
                } else {
                    j + 1
                };
                assert(rest[i] == entries[a] && rest[j] == entries[b]);
            }
        },
        None => {},
    }
}

/// Only a confirmed deletion asks for one.
pub proof fn law_deletion_is_confirmed(
    before: State,
    key: KeyEvent,
    now_ms: u64,
    after: State,
    r: Request,
)
    requires
        key_step(before, key, now_ms, after, r),
        r is Delete,
    ensures
        before.mode == Mode::DeleteConfirm && confirms(key.code),
{
}

/// Where ids are distinct they stay so when an entry is saved.
pub proof fn law_saving_keeps_ids_distinct(
    before: State,
    saved: KnowledgeEntryView,
    after: State,
)
    requires
        distinct_ids(before.entries@),
        applied(before, RpcOutcome::Saved(Ok(saved)), after),
    ensures
        distinct_ids(after.entries@),
{
    let entries = before.entries@;
    lemma_place(entries, saved.id@, 0);
    match place(entries, saved.id@, 0) {
        Some(at) => {
            assert forall|i: int, j: int|
                0 <= i < j < after.entries@.len() implies (#[trigger] after.entries@[i]).id@ != (
            #[trigger] after.entries@[j]).id@ by {
                assert(entries[i].id@ != entries[j].id@);
            }
        },
        None => {
            assert forall|i: int, j: int|
                0 <= i < j < after.entries@.len() implies (#[trigger] after.entries@[i]).id@ != (
            #[trigger] after.entries@[j]).id@ by {
                assert(after.entries@[j] == entries[j - 1]);
                if i > 0 {
                    assert(after.entries@[i] == entries[i - 1]);
                }
            }
        },
    }
}

pub open spec fn rgb(r: u8, g: u8, b: u8) -> Style {
    Style { fg: Some(Color::Rgb(r, g, b)), ..plain() }
}

fn rgb_style(r: u8, g: u8, b: u8) -> (s: Style)
    ensures
        s == rgb(r, g, b),
{
    Style { fg: Some(Color::Rgb(r, g, b)), ..plain_style() }
}

/// Titles.
pub open spec fn title_color() -> Style {
    rgb(166, 182, 255)
}

/// Explanations and secondary text.
pub open spec fn dim_color() -> Style {
    rgb(143, 153, 174)
}

/// Borders: green around what has the focus.
pub open spec fn border_color(focused: bool) -> Style {
    if focused {
        rgb(120, 183, 109)
    } else {
        rgb(82, 104, 173)
    }
}

/// The border of a field.
pub fn border(focused: bool) -> (s: Style)
    ensures
        s == border_color(focused),
{
    if focused {
        rgb_style(120, 183, 109)
    } else {
        rgb_style(82, 104, 173)
    }
}

/// The line above the screen.
pub fn draw_header() -> (line: Line)
    ensures
        line_view(line@) == seq![
            ("Knowledge base"@, Style { bold: true, ..title_color() }),
            ("  —  Esc to return to chat"@, dim_color()),
        ],
{
    let mut line = line_of(
        "Knowledge base".to_owned(),
        Style { bold: true, ..rgb_style(166, 182, 255) },
    );
    push_span(&mut line, "  —  Esc to return to chat".to_owned(), rgb_style(143, 153, 174));
    line
}

/// The title of the search field.
pub fn search_title(mode: Mode) -> (s: &'static str)
    ensures
        s@ == (if mode == Mode::Search {
            "Search (Enter to commit, Esc to clear)"@
        } else {
            "Search (press / to focus)"@
        }),
{
    if mode == Mode::Search {
        "Search (Enter to commit, Esc to clear)"
    } else {
        "Search (press / to focus)"
    }
}

/// The first line of a text, without what ends it: a line feed, or a carriage
/// return and a line feed.
pub open spec fn first_line(text: Seq<char>, from: int) -> Seq<char>
    decreases text.len() - from,
{
    if from < 0 || from >= text.len() {
        text
    } else if text[from] == '\n' {
        without_return(text.take(from))
    } else {
        first_line(text, from + 1)
    }
}

/// The first line of a text, cut after `most` characters.
pub open spec fn summary(text: Seq<char>, most: nat) -> Seq<char> {
    let line = first_line(text, 0);
    if line.len() > most {
        line.take(most as int).push('…')
    } else {
        line
    }
}

/// The first line of a text, cut after `most` characters.
pub fn summary_of(text: &str, most: usize) -> (s: String)
    ensures
        s@ == summary(text@, most as nat),
{
    let chars = chars_of(text);
    let mut end: usize = 0;
    while end < chars.len() && chars[end] != '\n'
        invariant
            chars@ == text@,
            end <= chars@.len(),
            first_line(text@, 0) == first_line(text@, end as int),
        decreases chars@.len() - end,
    {
        end += 1;
    }
    assert(text@.take(text@.len() as int) =~= text@);
    if end < chars.len() && end > 0 && chars[end - 1] == '\r' {
        end -= 1;
        assert(text@.take(end + 1).take(end as int) =~= text@.take(end as int));
    }
    assert(first_line(text@, 0) =~= text@.take(end as int));
    if end > most {
        let mut s = string_from(&chars, 0, most);
        s.push('…');
        assert(s@ =~= text@.take(end as int).take(most as int).push('…'));
        s
    } else {
        string_from(&chars, 0, end)
    }
}

/// The spans of an entry's row: the start of its text, and its tags.
pub open spec fn row_spans(entry: KnowledgeEntryView) -> Seq<(Seq<char>, Style)> {
    let head = seq![(summary(entry.content@, 80), plain())];
    if entry.tags@.len() == 0 {
        head
    } else {
        head.push(("  ["@ + joined(texts(entry.tags@), ", "@) + "]"@, dim_color()))
    }
}

fn draw_row(entry: &KnowledgeEntryView) -> (line: Line)
    ensures
        line_view(line@) == row_spans(*entry),
{
    let mut line = line_of(summary_of(entry.content.as_str(), 80), plain_style());
    if entry.tags.len() > 0 {
        let tags = join(&entry.tags, ", ");
        push_span(&mut line, cat3("  [", tags.as_str(), "]"), rgb_style(143, 153, 174));
    }
    line
}

/// The rows of the list; a hint where it is empty.
pub open spec fn list_rows(entries: Seq<KnowledgeEntryView>) -> Seq<Seq<Seq<(Seq<char>, Style)>>> {
    if entries.len() == 0 {
        seq![seq![seq![("(no entries — press 'n' to create one)"@, dim_color())]]]
    } else {
        Seq::new(entries.len(), |i: int| seq![row_spans(entries[i])])
    }
}

/// The list as it is drawn.
pub fn draw_list(state: &State) -> (v: ListView)
    ensures
        v.title@ == list_title("Entries"@, state.entries@.len()),
        items_view(v.items@) == list_rows(state.entries@),
        v.selected == shown_selection(state.selected, state.entries@.len()),
{
    let mut items: Vec<Vec<Line>> = Vec::new();
    if state.entries.len() == 0 {
        let line = line_of(
            "(no entries — press 'n' to create one)".to_owned(),
            rgb_style(143, 153, 174),
        );
        let mut lines: Vec<Line> = Vec::new();
        push_line(&mut lines, line);
        assert(lines_view(lines@) =~= list_rows(state.entries@)[0]);
        items.push(lines);
    } else {
        let mut i: usize = 0;
        while i < state.entries.len()
            invariant
                i <= state.entries@.len(),
                items@.len() == i,
                forall|j: int|
                    0 <= j < i ==> lines_view((#[trigger] items@[j])@) == seq![
                        row_spans(state.entries@[j]),
                    ],
            decreases state.entries@.len() - i,
        {
            let mut lines: Vec<Line> = Vec::new();
            push_line(&mut lines, draw_row(&state.entries[i]));
            assert(lines_view(lines@) =~= seq![row_spans(state.entries@[i as int])]);
            items.push(lines);
            i += 1;
        }
    }
    assert(items_view(items@) =~= list_rows(state.entries@));
    ListView {
        title: title_of("Entries", state.entries.len()),
        items,
        selected: if state.entries.len() == 0 {
            None
        } else {
            Some(state.selected)
        },
    }
}

/// The title of the form.
pub fn form_title(form: &EditForm) -> (s: &'static str)
    ensures
        s@ == (if form.editing_id is Some {
            "Edit entry"@
        } else {
            "New entry"@
        }),
{
    if form.editing_id.is_some() {
        "Edit entry"
    } else {
        "New entry"
    }
}

/// The strip above the form's fields: which entry it is, and when it was changed.
pub open spec fn strip_text(form: EditForm) -> Seq<char> {
    match (form.editing_id, form.updated_at) {
        (Some(id), Some(ts)) => "id: "@ + id@ + "  ·  updated: "@ + ts@,
        (Some(id), None) => "id: "@ + id@,
        (None, _) => "(new)"@,
    }
}

/// The strip above the form's fields.
pub fn draw_strip(form: &EditForm) -> (s: Span)
    ensures
        span_view(s) == (strip_text(*form), rgb(140, 156, 196)),
{
    let text = match &form.editing_id {
        Some(id) => match &form.updated_at {
            Some(ts) => cat4("id: ", id.as_str(), "  ·  updated: ", ts.as_str()),
            None => cat2("id: ", id.as_str()),
        },
        None => "(new)".to_owned(),
    };
    Span { text, style: rgb_style(140, 156, 196) }
}

/// The label of a field.
pub open spec fn field_label(field: EditField) -> Seq<char> {
    match field {
        EditField::Content => "Content"@,
        EditField::Tags => "Tags (comma-separated)"@,
        EditField::Metadata => "Metadata (JSON)"@,
    }
}

/// How the label of a field is drawn. The content's label is the title of its
/// border.
pub open spec fn label_style(field: EditField, focused: bool) -> Style {
    if field == EditField::Content {
        title_color()
    } else if focused {
        Style { bold: true, ..border_color(true) }
    } else {
        dim_color()
    }
}

/// The label of a field of the form.
pub fn draw_field_label(form: &EditForm, field: EditField) -> (s: Span)
    ensures
        span_view(s) == (field_label(field), label_style(field, form.focus == field)),
{
    let text = match field {
        EditField::Content => "Content",
        EditField::Tags => "Tags (comma-separated)",
        EditField::Metadata => "Metadata (JSON)",
    };
    let style = if field == EditField::Content {
        rgb_style(166, 182, 255)
    } else if form.focus == field {
        Style { bold: true, ..border(true) }
    } else {
        rgb_style(143, 153, 174)
    };
    Span { text: text.to_owned(), style }
}

/// The status line: what is going on, else what went wrong.
pub open spec fn status_line(state: State) -> Option<(Seq<char>, Style)> {
    match (state.busy, state.error) {
        (Some(b), _) => Some((" ● "@ + b@, Style { italic: true, ..rgb(178, 220, 245) })),
        (None, Some(e)) => Some((" • "@ + e@, rgb(232, 130, 130))),
        (None, None) => None,
    }
}

/// The status line.
pub fn draw_status(state: &State) -> (s: Option<Span>)
    ensures
        match s {
            Some(span) => status_line(*state) == Some(span_view(span)),
            None => status_line(*state) is None,
        },
{
    match &state.busy {
        Some(b) => Some(
            Span {
                text: cat2(" ● ", b.as_str()),
                style: Style { italic: true, ..rgb_style(178, 220, 245) },
            },
        ),
        None => match &state.error {
            Some(e) => Some(Span { text: cat2(" • ", e.as_str()), style: rgb_style(232, 130, 130) }),
            None => None,
        },
    }
}

/// The key hints of a mode.
pub open spec fn hints(mode: Mode) -> Seq<(&'static str, &'static str)> {
    match mode {
        Mode::List => seq![
            ("Enter", "edit"),
            ("n", "new"),
            ("d", "delete"),
            ("/", "search"),
            ("r", "refresh"),
            ("Esc", "back to chat"),
        ],
        Mode::Search => seq![("Enter", "search"), ("Esc", "clear & back")],
        Mode::Edit => seq![("Tab", "next field"), ("Ctrl+S", "save"), ("Esc", "cancel")],
        Mode::DeleteConfirm => seq![("y/Enter", "confirm"), ("any", "cancel")],
    }
}

pub open spec fn hint_colors() -> HintStyles {
    HintStyles {
        key: Style { bold: true, ..rgb(216, 223, 236) },
        separator: rgb(82, 90, 110),
        description: dim_color(),
    }
}

/// The key hints of a mode as they are drawn.
pub fn draw_hints(mode: Mode) -> (line: Line)
    ensures
        line_view(line@) == hint_spans(hints(mode), hint_colors()),
{
    let all: Vec<(&'static str, &'static str)> = match mode {
        Mode::List => vec![
            ("Enter", "edit"),
            ("n", "new"),
            ("d", "delete"),
            ("/", "search"),
            ("r", "refresh"),
            ("Esc", "back to chat"),
        ],
        Mode::Search => vec![("Enter", "search"), ("Esc", "clear & back")],
        Mode::Edit => vec![("Tab", "next field"), ("Ctrl+S", "save"), ("Esc", "cancel")],
        Mode::DeleteConfirm => vec![("y/Enter", "confirm"), ("any", "cancel")],
    };
    assert(all@ =~= hints(mode));
    draw_hints_in(
        &all,
        HintStyles {
            key: Style { bold: true, ..rgb_style(216, 223, 236) },
            separator: rgb_style(82, 90, 110),
            description: rgb_style(143, 153, 174),
        },
    )
}

/// The question of the delete confirmation.
pub fn delete_question(state: &State) -> (s: String)
    ensures
        s@ == "Delete \""@ + (if state.has_selection() {
            summary(state.entries@[state.selected as int].content@, 60)
        } else {
            "this entry"@
        }) + "\"?"@,
{
    let label = if state.selected < state.entries.len() {
        summary_of(state.entries[state.selected].content.as_str(), 60)
    } else {
        "this entry".to_owned()
    };
    cat3("Delete \"", label.as_str(), "\"?")
}

/// In the list, the arrow keys go to the neighbouring row, Enter opens the selected
/// entry, N an empty form, D asks before a deletion, a slash goes to the search field, R
/// loads the list again and Escape leaves. No key changes the list itself.
pub proof fn law_list_keys(before: State, key: KeyEvent, after: State, r: Request)
    requires
        list_step(before, key, after, r),
        before.in_range(),
    ensures
        after.entries == before.entries,
        after.search == before.search,
        r is List <==> bare(key, KeyCode::Char('r')),
        !(r is List) ==> r is Nothing,
        r matches Request::List { limit, offset } ==> limit == LIST_LIMIT && offset == 0,
        bare(key, KeyCode::Down) || bare(key, KeyCode::Char('j')) ==> after.selected == (
        if before.selected + 1 >= before.entries@.len() {
            0
        } else {
            before.selected + 1
        }) && after.mode == before.mode,
        bare(key, KeyCode::Up) || bare(key, KeyCode::Char('k')) ==> after.selected == (
        if before.entries@.len() == 0 {
            0
        } else if before.selected == 0 {
            before.entries@.len() - 1
        } else {
            before.selected - 1
        }) && after.mode == before.mode,
        (bare(key, KeyCode::Enter) || bare(key, KeyCode::Char('e'))) && before.entries@.len() > 0
            ==> after.mode == Mode::Edit && after.edit.shows(
            before.entries@[before.selected as int],
        ) && opt_text(after.edit.editing_id) == Some(
            before.entries@[before.selected as int].id@,
        ),
        bare(key, KeyCode::Char('n')) ==> after.mode == Mode::Edit && after.edit.editing_id is None
            && after.edit.is_empty_form(),
        bare(key, KeyCode::Char('/')) ==> after.mode == Mode::Search,
        bare(key, KeyCode::Char('d')) && before.entries@.len() > 0 ==> after.mode
            == Mode::DeleteConfirm,
        after.mode == Mode::DeleteConfirm && before.mode != Mode::DeleteConfirm ==> bare(
            key,
            KeyCode::Char('d'),
        ) && before.entries@.len() > 0,
        after.closing && !before.closing ==> bare(key, KeyCode::Esc) || bare(
            key,
            KeyCode::Char('q'),
        ),
        bare(key, KeyCode::Esc) || bare(key, KeyCode::Char('q')) ==> after.closing,
{
    assert(before.entries.len() == before.entries@.len());
    if before.entries@.len() > 0 {
        law_steps_lead_to_the_neighbour(before.selected as int, before.entries@.len() as int);
    }
}

/// A search runs at once when the field is left, and else a pause after the last key.
/// Escape empties the field, Enter keeps what is typed.
pub proof fn law_searches_wait_for_a_pause(before: State, key: KeyEvent, now_ms: u64, after: State)
    requires
        search_step(before, key, now_ms, after),
        now_ms + SEARCH_DEBOUNCE_MS <= u64::MAX,
    ensures
        after.search_deadline matches Some(due) && (due == now_ms <==> after.mode == Mode::List
            && (key.code == KeyCode::Esc || bare(key, KeyCode::Enter))) && (due != now_ms ==> due
            == now_ms + SEARCH_DEBOUNCE_MS),
        key.code == KeyCode::Esc || bare(key, KeyCode::Enter) ==> after.mode == Mode::List,
        !(key.code == KeyCode::Esc || bare(key, KeyCode::Enter)) ==> after.mode == before.mode
            && pressed(before.search, key, after.search),
        key.code == KeyCode::Esc ==> query_text(after).len() == 0,
        bare(key, KeyCode::Enter) ==> query_text(after) == query_text(before),
        after.entries == before.entries,
        after.selected == before.selected,
        after.edit == before.edit,
{
    if key.code == KeyCode::Esc {
        reveal_strlit(" ");
        let blank = seq![Seq::<char>::empty()];
        assert(joined(blank, " "@) =~= Seq::<char>::empty());
    }
}

/// A search is for what is typed; where nothing is, the whole list is asked for. Either
/// way the screen says that it waits.
pub proof fn law_searches_are_for_the_query(
    before: State,
    query: Seq<char>,
    after: State,
    r: Request,
)
    requires
        searches(before, query, after, r),
    ensures
        query.len() > 0 ==> (r matches Request::Search { query: q, limit } && q@ == query && limit
            == SEARCH_LIMIT),
        query.len() == 0 ==> (r matches Request::List { limit, offset } && limit == LIST_LIMIT
            && offset == 0),
        after.busy is Some,
        after.entries == before.entries,
        after.mode == before.mode,
{
}

/// A save asks for the typed content, tags and metadata, as an update where an entry is
/// edited and as a new entry where none is. What cannot be saved is told, and the form
/// keeps what is typed.
pub proof fn law_saves_carry_the_form(before: State, after: State, r: Request)
    requires
        save_step(before, after, r),
    ensures
        after.edit == before.edit,
        after.mode == before.mode,
        after.entries == before.entries,
        trimmed(area_text(before.edit.content)).len() == 0 ==> r is Nothing && after.error is Some,
        trimmed(area_text(before.edit.content)).len() > 0 ==> (match json_read(
            before.edit.metadata_text(),
        ) {
            Ok(value) => if before.edit.editing_id is Some {
                r matches Request::Update { id, content, tags, metadata } && opt_text(
                    before.edit.editing_id,
                ) == Some(id@) && content@ == area_text(before.edit.content) && texts(tags@)
                    == before.edit.tag_texts() && metadata == value
            } else {
                r matches Request::Create { content, tags, metadata } && content@ == area_text(
                    before.edit.content,
                ) && texts(tags@) == before.edit.tag_texts() && metadata == value
            },
            Err(e) => r is Nothing && (after.error matches Some(t) && holds_text(t@, e)),
        }),
        trimmed(area_text(before.edit.metadata)).len() == 0 ==> before.edit.metadata_text()
            == "null"@,
        trimmed(area_text(before.edit.metadata)).len() > 0 ==> before.edit.metadata_text()
            == area_text(before.edit.metadata),
{
    if trimmed(area_text(before.edit.content)).len() > 0 {
        match json_read(before.edit.metadata_text()) {
            Ok(_) => {},
            Err(e) => law_text_is_held(
                "Metadata is not valid JSON: "@,
                e,
                Seq::<char>::empty(),
            ),
        }
    }
}

/// No tag is empty, begins or ends with white space, or holds a comma.
pub proof fn law_tags_are_neat(form: EditForm, i: int)
    requires
        0 <= i < form.tag_texts().len(),
    ensures
        form.tag_texts()[i].len() > 0,
        trimmed(form.tag_texts()[i]) == form.tag_texts()[i],
        forall|j: int|
            0 <= j < form.tag_texts()[i].len() ==> #[trigger] form.tag_texts()[i][j] != ',',
{
    let all = joined(area_lines(form.tags), ","@);
    let parts = pieces(all, Separator::Char(','));
    let neat = trimmed_each(parts);
    let tag = form.tag_texts()[i];
    law_nonempty_parts(neat);
    let filled = |p: Seq<char>| p.len() > 0;
    assert(form.tag_texts() == neat.filter(filled));
    neat.lemma_filter_pred(filled, i);
    neat.lemma_filter_contains_rev(filled, tag);
    let k = choose|k: int| 0 <= k < neat.len() && neat[k] == tag;
    law_trimmed_has_no_outer_space(parts[k]);
    law_trimmed_is_what_lies_between(parts[k]);
    let (a, b) = choose|a: int, b: int|
        0 <= a <= b <= parts[k].len() && trimmed(parts[k]) == #[trigger] parts[k].subrange(a, b) && (
        forall|i: int| 0 <= i < a ==> is_space(#[trigger] parts[k][i])) && (forall|i: int|
            b <= i < parts[k].len() ==> is_space(#[trigger] parts[k][i]));
    assert forall|j: int| 0 <= j < tag.len() implies #[trigger] tag[j] != ',' by {
        assert(tag[j] == parts[k][a + j]);
        law_pieces_hold_no_separator(all, Separator::Char(','), k, a + j);
    }
}

/// In the form, Ctrl+S saves, Escape leaves with nothing saved, and a typed key changes
/// the focused field alone. Enter does nothing among the tags.
pub proof fn law_form_keys(before: State, key: KeyEvent, after: State, r: Request)
    requires
        edit_step(before, key, after, r),
    ensures
        after.entries == before.entries,
        after.selected == before.selected,
        r is Update || r is Create ==> key.modifiers.control && key.code == KeyCode::Char('s'),
        !(r is Update) && !(r is Create) ==> r is Nothing,
        key.modifiers.control && key.code == KeyCode::Char('s') ==> save_step(before, after, r),
        key.code == KeyCode::Esc ==> after.mode == Mode::List && after.edit.is_empty_form(),
        after.mode != before.mode ==> key.code == KeyCode::Esc,
        key.code != KeyCode::Esc ==> after.edit.editing_id == before.edit.editing_id,
        key.code != KeyCode::Esc && before.edit.focus != EditField::Content ==> after.edit.content
            == before.edit.content,
        key.code != KeyCode::Esc && before.edit.focus != EditField::Tags ==> after.edit.tags
            == before.edit.tags,
        key.code != KeyCode::Esc && before.edit.focus != EditField::Metadata ==> after.edit.metadata
            == before.edit.metadata,
        key.code == KeyCode::Enter && before.edit.focus == EditField::Tags ==> after == before,
        key.code == KeyCode::Tab ==> after.edit.focus == EditForm::field_after(before.edit.focus),
        key.code == KeyCode::BackTab ==> after.edit.focus == EditForm::field_before(
            before.edit.focus,
        ),
        key.code == KeyCode::Backspace && before.edit.focus == EditField::Content ==> pressed(
            before.edit.content,
            key,
            after.edit.content,
        ),
        key.code == KeyCode::Backspace && before.edit.focus == EditField::Tags ==> pressed(
            before.edit.tags,
            key,
            after.edit.tags,
        ),
        key.code == KeyCode::Backspace && before.edit.focus == EditField::Metadata ==> pressed(
            before.edit.metadata,
            key,
            after.edit.metadata,
        ),
{
}

/// Going on and back through the fields undo each other, and three steps come round.
pub proof fn law_fields_go_round(field: EditField)
    ensures
        EditForm::field_before(EditForm::field_after(field)) == field,
        EditForm::field_after(EditForm::field_before(field)) == field,
        EditForm::field_after(EditForm::field_after(EditForm::field_after(field))) == field,
        EditForm::field_after(field) != field,
        EditForm::field_after(EditField::Content) == EditField::Tags,
{
}

/// A confirmed deletion is of the selected entry; any other key only goes back to the
/// list, which stays as it is until the daemon answers.
pub proof fn law_deletions_are_of_the_selected(
    before: State,
    key: KeyEvent,
    after: State,
    r: Request,
)
    requires
        delete_step(before, key, after, r),
        before.has_selection(),
    ensures
        r is Delete <==> key.code == KeyCode::Enter || key.code == KeyCode::Char('y') || key.code
            == KeyCode::Char('Y'),
        r matches Request::Delete { id } ==> id@ == before.entries@[before.selected as int].id@,
        !(r is Delete) ==> r is Nothing,
        after.mode == Mode::List,
        after.entries == before.entries,
{
}

/// A saved entry stands in the place of the one with its id, and every other row where
/// it stood; a new one stands before them all.
pub proof fn law_saved_entry_keeps_the_others(
    entries: Seq<KnowledgeEntryView>,
    saved: KnowledgeEntryView,
)
    ensures
        (exists|i: int| 0 <= i < entries.len() && (#[trigger] entries[i]).id@ == saved.id@) ==> {
            let i = saved_place(entries, saved);
            &&& 0 <= i < entries.len()
            &&& entries[i].id@ == saved.id@
            &&& with_saved(entries, saved) == entries.update(i, saved)
        },
        (forall|i: int| 0 <= i < entries.len() ==> (#[trigger] entries[i]).id@ != saved.id@) ==> {
            &&& saved_place(entries, saved) == 0
            &&& with_saved(entries, saved).len() == entries.len() + 1
            &&& with_saved(entries, saved)[0] == saved
            &&& with_saved(entries, saved).skip(1) == entries
        },
{
    lemma_place(entries, saved.id@, 0);
    match place(entries, saved.id@, 0) {
        Some(_) => {},
        None => {
            assert(with_saved(entries, saved).skip(1) =~= entries);
        },
    }
}

/// A deletion takes one row out of the list and leaves the others in their order.
pub proof fn law_deletion_keeps_the_others(before: State, id: String, after: State)
    requires
        applied(before, RpcOutcome::Deleted { id, result: Ok(()) }, after),
    ensures
        (exists|i: int| 0 <= i < before.entries@.len() && (#[trigger] before.entries@[i]).id@ == id@)
            ==> exists|at: int|
            0 <= at < before.entries@.len() && (#[trigger] before.entries@[at]).id@ == id@
                && after.entries@ == before.entries@.take(at) + before.entries@.skip(at + 1),
        (forall|i: int|
            0 <= i < before.entries@.len() ==> (#[trigger] before.entries@[i]).id@ != id@)
            ==> after.entries == before.entries,
        after.busy is None,
        after.mode == before.mode,
{
    let entries = before.entries@;
    lemma_place(entries, id@, 0);
    match place(entries, id@, 0) {
        Some(at) => {
            assert(entries.remove(at) =~= entries.take(at) + entries.skip(at + 1));
            assert(entries[at].id@ == id@);
        },
        None => {},
    }
}

/// Fetched rows are shown whole, a failure is told with its reason and leaves the list
/// and the form as they are, and nothing is waited for any more.
pub proof fn law_outcomes_are_shown(before: State, outcome: RpcOutcome, after: State)
    requires
        applied(before, outcome, after),
    ensures
        after.busy is None,
        outcome matches RpcOutcome::Listed(Ok(rows)) ==> after.entries == rows && after.edit
            == before.edit && after.mode == before.mode,
        outcome matches RpcOutcome::Found(Ok(rows)) ==> after.entries == rows && after.edit
            == before.edit && after.mode == before.mode,
        outcome matches RpcOutcome::Listed(Err(e)) ==> (after.error matches Some(t) && holds_text(
            t@,
            e@,
        )) && after.entries == before.entries,
        outcome matches RpcOutcome::Found(Err(e)) ==> (after.error matches Some(t) && holds_text(
            t@,
            e@,
        )) && after.entries == before.entries,
        outcome matches RpcOutcome::Saved(Err(e)) ==> (after.error matches Some(t) && holds_text(
            t@,
            e@,
        )) && after.entries == before.entries && after.edit == before.edit && after.mode
            == before.mode,
        outcome matches RpcOutcome::Saved(Ok(_)) ==> after.mode == Mode::List && after.error is None
            && after.edit.is_empty_form(),
        outcome matches RpcOutcome::Deleted { id, result } ==> (result matches Err(e) ==> (
        after.error matches Some(t) && holds_text(t@, e@)) && after.entries == before.entries),
{
    let none = Seq::<char>::empty();
    match outcome {
        RpcOutcome::Listed(Err(e)) => law_text_is_held("Failed to load entries: "@, e@, none),
        RpcOutcome::Found(Err(e)) => law_text_is_held("Search failed: "@, e@, none),
        RpcOutcome::Saved(Err(e)) => law_text_is_held("Save failed: "@, e@, none),
        RpcOutcome::Deleted { result: Err(e), .. } => law_text_is_held(
            "Delete failed: "@,
            e@,
            none,
        ),
        _ => {},
    }
}

proof fn lemma_first_line(text: Seq<char>, from: int)
    requires
        0 <= from <= text.len(),
        forall|i: int| 0 <= i < from ==> text[i] != '\n',
    ensures
        first_line(text, from).len() <= text.len(),
        first_line(text, from) == text.take(first_line(text, from).len() as int),
        forall|i: int|
            0 <= i < first_line(text, from).len() ==> #[trigger] first_line(text, from)[i] != '\n',
        first_line(text, from).len() < text.len() ==> {
            let n = first_line(text, from).len() as int;
            text[n] == '\n' || (text[n] == '\r' && n + 1 < text.len() && text[n + 1] == '\n')
        },
    decreases text.len() - from,
{
    if from >= text.len() {
        assert(text.take(text.len() as int) =~= text);
    } else if text[from] == '\n' {
        let line = text.take(from);
        assert(without_return(line) =~= text.take(without_return(line).len() as int));
    } else {
        lemma_first_line(text, from + 1);
    }
}

/// A summary is the start of the text: all of its first line where that is short, else as
/// many characters of it as fit, and a sign that there are more.
pub proof fn law_summary_is_the_start(text: Seq<char>, most: nat)
    ensures
        (forall|i: int| 0 <= i < text.len() ==> text[i] != '\n') && text.len() <= most ==> summary(
            text,
            most,
        ) == text,
        (forall|i: int| 0 <= i < text.len() ==> text[i] != '\n') && text.len() > most ==> summary(
            text,
            most,
        ) == text.take(most as int).push('…'),
        summary(text, most).len() <= most + 1,
        forall|i: int|
            0 <= i < summary(text, most).len() ==> #[trigger] summary(text, most)[i] != '\n',
        forall|i: int|
            0 <= i < summary(text, most).len() && i < most ==> #[trigger] summary(text, most)[i]
                == text[i],
{
    lemma_first_line(text, 0);
    let line = first_line(text, 0);
    if forall|i: int| 0 <= i < text.len() ==> text[i] != '\n' {
        assert(line.len() == text.len());
        assert(line =~= text);
    }
    assert forall|i: int|
        0 <= i < summary(text, most).len() && i < most implies #[trigger] summary(text, most)[i]
        == text[i] by {
        assert(line[i] == text[i]);
    }
}

/// The row of an entry tells the start of its text, and its tags where it has any.
pub proof fn law_rows_tell_the_entry(entry: KnowledgeEntryView)
    ensures
        holds_text(line_text(row_spans(entry)), summary(entry.content@, 80)),
        entry.tags@.len() > 0 ==> holds_text(
            line_text(row_spans(entry)),
            joined(texts(entry.tags@), ", "@),
        ),
        row_spans(entry).len() == (if entry.tags@.len() == 0 {
            1int
        } else {
            2
        }),
{
    let spans = row_spans(entry);
    let start = summary(entry.content@, 80);
    law_text_is_held(start, start, Seq::<char>::empty());
    assert(spans[0].0 == start);
    lemma_span_is_read(spans, 0);
    if entry.tags@.len() > 0 {
        let tags = joined(texts(entry.tags@), ", "@);
        law_text_is_held("  ["@, tags, "]"@);
        assert(spans[1].0 == "  ["@ + tags + "]"@);
        lemma_span_tells(spans, 1, tags);
    }
}

/// The list has a row for each entry, in order, or a hint where there is none.
pub proof fn law_every_entry_has_a_row(entries: Seq<KnowledgeEntryView>, i: int)
    ensures
        entries.len() > 0 ==> list_rows(entries).len() == entries.len(),
        entries.len() == 0 ==> list_rows(entries).len() == 1,
        0 <= i < entries.len() ==> list_rows(entries)[i].len() == 1 && holds_text(
            line_text(list_rows(entries)[i][0]),
            summary(entries[i].content@, 80),
        ),
{
    if 0 <= i < entries.len() {
        law_rows_tell_the_entry(entries[i]);
    }
}

/// The strip above the form tells which entry is edited and when it was changed, or that
/// it is new.
pub proof fn law_strip_tells_the_entry(form: EditForm)
    ensures
        form.editing_id matches Some(id) ==> holds_text(strip_text(form), id@),
        form.editing_id is Some ==> (form.updated_at matches Some(ts) ==> holds_text(
            strip_text(form),
            ts@,
        )),
        form.editing_id is None ==> strip_text(form) == "(new)"@,
{
    match form.editing_id {
        Some(id) => {
            law_text_is_held("id: "@, id@, Seq::<char>::empty());
            match form.updated_at {
                Some(ts) => {
                    law_text_is_held("id: "@, id@, "  ·  updated: "@ + ts@);
                    assert("id: "@ + id@ + ("  ·  updated: "@ + ts@) =~= strip_text(form));
                    law_text_is_held("id: "@ + id@ + "  ·  updated: "@, ts@, Seq::<char>::empty());
                },
                None => {},
            }
        },
        None => {},
    }
}

/// The fields are told apart by their labels, and the focused one by its border.
pub proof fn law_fields_are_told_apart(a: EditField, b: EditField)
    ensures
        field_label(a) == field_label(b) ==> a == b,
        border_color(true) != border_color(false),
        a != EditField::Content ==> label_style(a, true) != label_style(a, false),
{
    reveal_strlit("Content");
    reveal_strlit("Tags (comma-separated)");
    reveal_strlit("Metadata (JSON)");
    assert("Content"@.len() == 7 && "Tags (comma-separated)"@.len() == 22);
    assert("Metadata (JSON)"@.len() == 15);
}

/// The status line tells what is going on; where nothing is, what went wrong; and is
/// empty where nothing did.
pub proof fn law_status_tells(state: State)
    ensures
        state.busy matches Some(b) ==> (status_line(state) matches Some(s) && holds_text(s.0, b@)),
        state.busy is None ==> (state.error matches Some(e) ==> (status_line(state) matches Some(s)
            && holds_text(s.0, e@))),
        state.busy is None && state.error is None ==> status_line(state) is None,
{
    match (state.busy, state.error) {
        (Some(b), _) => law_text_is_held(" ● "@, b@, Seq::<char>::empty()),
        (None, Some(e)) => law_text_is_held(" • "@, e@, Seq::<char>::empty()),
        (None, None) => {},
    }
}

/// A checked form hands on the content, the tags and the read metadata as they are; where
/// the metadata could not be read, the error tells why.
pub proof fn law_checked_parts_are_handed_on(
    content: Seq<char>,
    tags: Seq<Seq<char>>,
    read: Result<Value, Seq<char>>,
    r: Result<(String, Vec<String>, Value), String>,
)
    requires
        checked(content, tags, read, r),
    ensures
        read is Ok <==> r is Ok,
        r matches Ok(parts) ==> parts.0@ == content && texts(parts.1@) == tags && read == Ok::<
            Value,
            Seq<char>,
        >(parts.2),
        read matches Err(why) ==> (r matches Err(e) && holds_text(e@, why)),
{
    match read {
        Ok(_) => {},
        Err(why) => law_text_is_held("Metadata is not valid JSON: "@, why, Seq::<char>::empty()),
    }
}

/// The form of an entry holds its content, its tags and its metadata, each in its field,
/// and knows which entry it is.
pub proof fn law_form_holds_the_entry(form: EditForm, entry: KnowledgeEntryView)
    requires
        form.shows(entry),
    ensures
        form.editing_id matches Some(id) && id@ == entry.id@,
        form.updated_at matches Some(ts) && ts@ == entry.updated_at@,
        area_lines(form.tags) == inserted_lines(joined(texts(entry.tags@), ", "@)),
        opened_on(form.content, entry.content@),
        opened_on(form.metadata, json_pretty(entry.metadata)),
        form.focus == EditField::Content,
{
}

/// A fetched list keeps the selected row selected where there is still such a row, and
/// else selects the last one.
pub proof fn law_fetching_keeps_the_selection(
    before: State,
    rows: Vec<KnowledgeEntryView>,
    listed: State,
    found: State,
)
    requires
        applied(before, RpcOutcome::Listed(Ok(rows)), listed),
        applied(before, RpcOutcome::Found(Ok(rows)), found),
    ensures
        before.selected < rows@.len() ==> listed.selected == before.selected,
        before.selected >= rows@.len() && rows@.len() > 0 ==> listed.selected == rows@.len() - 1,
        rows@.len() == 0 ==> listed.selected == 0,
        found == listed,
{
    assert(rows.len() == rows@.len());
}

/// After a deletion the selection stays on its row where there is still such a row.
pub proof fn law_deleting_keeps_the_selection(before: State, id: String, after: State)
    requires
        applied(before, RpcOutcome::Deleted { id, result: Ok(()) }, after),
        before.in_range(),
    ensures
        before.selected < after.entries@.len() ==> after.selected == before.selected,
        before.selected >= after.entries@.len() && after.entries@.len() > 0 ==> after.selected
            == after.entries@.len() - 1,
{
    assert(before.entries.len() == before.entries@.len());
    lemma_place(before.entries@, id@, 0);
}

/// The form opens without the error of what came before, and what is asked for is told.
pub proof fn law_errors_do_not_linger(
    before: State,
    key: KeyEvent,
    now_ms: u64,
    after: State,
    r: Request,
)
    requires
        key_step(before, key, now_ms, after, r),
    ensures
        before.mode == Mode::List && after.mode == Mode::Edit ==> after.error is None,
        before.mode == Mode::Edit && after.mode == Mode::List ==> after.error is None,
        !(r is Nothing) ==> after.busy is Some,
{
}

} // verus!
