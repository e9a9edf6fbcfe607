//! Renders markdown into styled lines.
//!
//! `pulldown-cmark` reads the source into events; a renderer turns the events
//! into lines: inline styles, headings, lists, quotes, code blocks and tables as
//! an aligned grid.

use vstd::prelude::*;
use pulldown_cmark::{
    CodeBlockKind, Event as CmEvent, Options, Parser, Tag as CmTag, TagEnd as CmTagEnd,
};
use crate::grid::{border_style, draw_grid};
#[allow(unused_imports)]
use crate::grid::{border, grid};
use crate::highlight::{code_text_style, draw_code_block, HighlightAssets};
#[allow(unused_imports)]
use crate::highlight::{code_block, code_style};
use crate::text::{cat2, cat3, decimal, repeat, split, trim, Separator};
#[allow(unused_imports)]
use crate::text::{
    digits, joined, law_joined_text, opt_str, opt_text, pieces, repeated, texts, trimmed,
};
use crate::view::{line_of, plain_style, push_line, push_span, Color, Line, Style};
#[allow(unused_imports)]
use crate::view::{items_view, lemma_line_text_push, line_text, line_view, lines_view, plain};

verus! {

#[verifier::external_type_specification]
#[verifier::external_body]
pub struct ExEvent<'a>(CmEvent<'a>);

#[verifier::external_type_specification]
#[verifier::external_body]
pub struct ExTag<'a>(CmTag<'a>);

#[verifier::external_type_specification]
#[verifier::external_body]
pub struct ExTagEnd(CmTagEnd);

/// The opening of an element.
#[derive(Debug, PartialEq, Eq)]
pub enum Tag {
    Paragraph,
    /// A heading and its level, from one to six.
    Heading(u8),
    BlockQuote,
    /// A fenced code block with what stands behind the fence.
    Fenced(String),
    Indented,
    /// A list, numbered from a first number or with bullets.
    List(Option<u64>),
    Item,
    Emphasis,
    Strong,
    Strikethrough,
    /// A link and where it leads.
    Link(String),
    Table,
    TableHead,
    TableRow,
    TableCell,
    Other,
}

/// The closing of an element.
#[derive(Debug, Clone, Copy, PartialEq, Eq, Structural)]
pub enum TagEnd {
    Paragraph,
    Heading,
    BlockQuote,
    CodeBlock,
    List,
    Item,
    Emphasis,
    Strong,
    Strikethrough,
    Link,
    Table,
    TableHead,
    TableRow,
    TableCell,
    Other,
}

/// A step of a markdown text.
#[derive(Debug, PartialEq, Eq)]
pub enum Event {
    Start(Tag),
    End(TagEnd),
    Text(String),
    Code(String),
    SoftBreak,
    HardBreak,
    Rule,
    TaskListMarker(bool),
    /// What is not drawn: HTML, footnotes, formulas.
    Other,
}

/// A tag with its text as characters.
pub enum TagView {
    Paragraph,
    Heading(u8),
    BlockQuote,
    Fenced(Seq<char>),
    Indented,
    List(Option<u64>),
    Item,
    Emphasis,
    Strong,
    Strikethrough,
    Link(Seq<char>),
    Table,
    TableHead,
    TableRow,
    TableCell,
    Other,
}

/// An event with its text as characters.
pub enum EventView {
    Start(TagView),
    End(TagEnd),
    Text(Seq<char>),
    Code(Seq<char>),
    SoftBreak,
    HardBreak,
    Rule,
    TaskListMarker(bool),
    Other,
}

pub open spec fn tag_view(tag: Tag) -> TagView {
    match tag {
        Tag::Paragraph => TagView::Paragraph,
        Tag::Heading(level) => TagView::Heading(level),
        Tag::BlockQuote => TagView::BlockQuote,
        Tag::Fenced(info) => TagView::Fenced(info@),
        Tag::Indented => TagView::Indented,
        Tag::List(start) => TagView::List(start),
        Tag::Item => TagView::Item,
        Tag::Emphasis => TagView::Emphasis,
        Tag::Strong => TagView::Strong,
        Tag::Strikethrough => TagView::Strikethrough,
        Tag::Link(target) => TagView::Link(target@),
        Tag::Table => TagView::Table,
        Tag::TableHead => TagView::TableHead,
        Tag::TableRow => TagView::TableRow,
        Tag::TableCell => TagView::TableCell,
        Tag::Other => TagView::Other,
    }
}

pub open spec fn event_view(event: Event) -> EventView {
    match event {
        Event::Start(tag) => EventView::Start(tag_view(tag)),
        Event::End(tag) => EventView::End(tag),
        Event::Text(text) => EventView::Text(text@),
        Event::Code(text) => EventView::Code(text@),
        Event::SoftBreak => EventView::SoftBreak,
        Event::HardBreak => EventView::HardBreak,
        Event::Rule => EventView::Rule,
        Event::TaskListMarker(done) => EventView::TaskListMarker(done),
        Event::Other => EventView::Other,
    }
}

pub open spec fn events_view(events: Seq<Event>) -> Seq<EventView> {
    Seq::new(events.len(), |i: int| event_view(events[i]))
}

/// An event of `pulldown-cmark` with its own tags.
pub enum RawEvent<'a> {
    Start(CmTag<'a>),
    End(CmTagEnd),
    Text(String),
    Code(String),
    SoftBreak,
    HardBreak,
    Rule,
    TaskListMarker(bool),
    Other,
}

/// The events of a markdown text, with the chosen extensions of the syntax.
pub uninterp spec fn parser_events(
    source: Seq<char>,
    tables: bool,
    strikethrough: bool,
    task_lists: bool,
) -> Seq<EventView>;

/// The events of a markdown text, with tables, strikethrough and task lists.
pub open spec fn markdown_events(source: Seq<char>) -> Seq<EventView> {
    parser_events(source, true, true, true)
}

/// What an event of `pulldown-cmark` holds.
pub uninterp spec fn event_read(event: CmEvent<'_>) -> EventView;

/// What an opening tag of `pulldown-cmark` holds.
pub uninterp spec fn tag_read(tag: CmTag<'_>) -> TagView;

/// What a closing tag of `pulldown-cmark` holds.
pub uninterp spec fn tag_end_read(tag: CmTagEnd) -> TagEnd;

/// What a raw event holds.
pub open spec fn raw_view(event: RawEvent<'_>) -> EventView {
    match event {
        RawEvent::Start(tag) => EventView::Start(tag_read(tag)),
        RawEvent::End(tag) => EventView::End(tag_end_read(tag)),
        RawEvent::Text(text) => EventView::Text(text@),
        RawEvent::Code(text) => EventView::Code(text@),
        RawEvent::SoftBreak => EventView::SoftBreak,
        RawEvent::HardBreak => EventView::HardBreak,
        RawEvent::Rule => EventView::Rule,
        RawEvent::TaskListMarker(done) => EventView::TaskListMarker(done),
        RawEvent::Other => EventView::Other,
    }
}

/// `pulldown_cmark::Parser::new_ext`, with the chosen extensions of the syntax,
/// gives the events of a markdown text one after the other.
#[verifier::external_body]
fn parsed_events(source: &str, tables: bool, strikethrough: bool, task_lists: bool) -> (events: Vec<
    CmEvent<'_>,
>)
    ensures
        events@.len() == parser_events(source@, tables, strikethrough, task_lists).len(),
        forall|i: int|
            0 <= i < events@.len() ==> event_read(#[trigger] events@[i]) == parser_events(
                source@,
                tables,
                strikethrough,
                task_lists,
            )[i],
{
    let mut options = Options::empty();
    options.set(Options::ENABLE_TABLES, tables);
    options.set(Options::ENABLE_STRIKETHROUGH, strikethrough);
    options.set(Options::ENABLE_TASKLISTS, task_lists);
    Parser::new_ext(source, options).collect()
}

/// An event of `pulldown-cmark`, variant by variant.
#[verifier::external_body]
fn raw_event<'a>(event: &CmEvent<'a>) -> (r: RawEvent<'a>)
    ensures
        raw_view(r) == event_read(*event),
{
    match event {
        CmEvent::Start(tag) => RawEvent::Start(tag.clone()),
        CmEvent::End(tag) => RawEvent::End(*tag),
        CmEvent::Text(text) => RawEvent::Text(text.to_string()),
        CmEvent::Code(text) => RawEvent::Code(text.to_string()),
        CmEvent::SoftBreak => RawEvent::SoftBreak,
        CmEvent::HardBreak => RawEvent::HardBreak,
        CmEvent::Rule => RawEvent::Rule,
        CmEvent::TaskListMarker(done) => RawEvent::TaskListMarker(*done),
        _ => RawEvent::Other,
    }
}

/// An opening tag of `pulldown-cmark`, variant by variant.
#[verifier::external_body]
fn own_tag(tag: CmTag<'_>) -> (r: Tag)
    ensures
        tag_view(r) == tag_read(tag),
{
    match tag {
        CmTag::Paragraph => Tag::Paragraph,
        CmTag::Heading { level, .. } => Tag::Heading(level as u8),
        CmTag::BlockQuote(_) => Tag::BlockQuote,
        CmTag::CodeBlock(CodeBlockKind::Fenced(info)) => Tag::Fenced(info.to_string()),
        CmTag::CodeBlock(CodeBlockKind::Indented) => Tag::Indented,
        CmTag::List(start) => Tag::List(start), CmTag::Item => Tag::Item,
        CmTag::Emphasis => Tag::Emphasis, CmTag::Strong => Tag::Strong,
        CmTag::Strikethrough => Tag::Strikethrough,
        CmTag::Link { dest_url, .. } => Tag::Link(dest_url.to_string()),
        CmTag::Table(_) => Tag::Table, CmTag::TableHead => Tag::TableHead,
        CmTag::TableRow => Tag::TableRow, CmTag::TableCell => Tag::TableCell,
        _ => Tag::Other,
    }
}

/// A closing tag of `pulldown-cmark`, variant by variant.
#[verifier::external_body]
fn own_tag_end(tag: CmTagEnd) -> (r: TagEnd)
    ensures
        r == tag_end_read(tag),
{
    match tag {
        CmTagEnd::Paragraph => TagEnd::Paragraph,
        CmTagEnd::Heading(_) => TagEnd::Heading,
        CmTagEnd::BlockQuote(_) => TagEnd::BlockQuote,
        CmTagEnd::CodeBlock => TagEnd::CodeBlock,
        CmTagEnd::List(_) => TagEnd::List, CmTagEnd::Item => TagEnd::Item,
        CmTagEnd::Emphasis => TagEnd::Emphasis, CmTagEnd::Strong => TagEnd::Strong,
        CmTagEnd::Strikethrough => TagEnd::Strikethrough,
        CmTagEnd::Link => TagEnd::Link,
        CmTagEnd::Table => TagEnd::Table, CmTagEnd::TableHead => TagEnd::TableHead,
        CmTagEnd::TableRow => TagEnd::TableRow, CmTagEnd::TableCell => TagEnd::TableCell,
        _ => TagEnd::Other,
    }
}

/// The events of a markdown text.
pub fn parse(source: &str) -> (events: Vec<Event>)
    ensures
        events_view(events@) == markdown_events(source@),
{
    let raw = parsed_events(source, true, true, true);
    let mut events: Vec<Event> = Vec::new();
    let mut i: usize = 0;
    while i < raw.len()
        invariant
            i <= raw@.len(),
            raw@.len() == markdown_events(source@).len(),
            forall|j: int|
                0 <= j < raw@.len() ==> event_read(#[trigger] raw@[j]) == markdown_events(
                    source@,
                )[j],
            events@.len() == i,
            forall|j: int|
                0 <= j < i ==> event_view(#[trigger] events@[j]) == markdown_events(source@)[j],
        decreases raw@.len() - i,
    {
        let event = match raw_event(&raw[i]) {
            RawEvent::Start(tag) => Event::Start(own_tag(tag)),
            RawEvent::End(tag) => Event::End(own_tag_end(tag)),
            RawEvent::Text(text) => Event::Text(text),
            RawEvent::Code(text) => Event::Code(text),
            RawEvent::SoftBreak => Event::SoftBreak,
            RawEvent::HardBreak => Event::HardBreak,
            RawEvent::Rule => Event::Rule,
            RawEvent::TaskListMarker(done) => Event::TaskListMarker(done),
            RawEvent::Other => Event::Other,
        };
        events.push(event);
        i += 1;
    }
    assert(events_view(events@) =~= markdown_events(source@));
    events
}

/// A table that is being read.
pub struct TableView {
    pub rows: Seq<Seq<Seq<(Seq<char>, Style)>>>,
    pub row: Seq<Seq<(Seq<char>, Style)>>,
    pub cell: Seq<(Seq<char>, Style)>,
    pub in_cell: bool,
}

/// How far a text is rendered: the finished lines, the line in progress, and the
/// elements that are open.
pub struct Page {
    /// The syntaxes and the theme of code.
    pub assets: HighlightAssets,
    pub base: Style,
    pub lines: Seq<Seq<(Seq<char>, Style)>>,
    pub current: Seq<(Seq<char>, Style)>,
    pub bold: bool,
    pub italic: bool,
    pub crossed_out: bool,
    pub in_code_block: bool,
    pub code_lang: Option<Seq<char>>,
    pub code_buffer: Seq<char>,
    pub link: Option<Seq<char>>,
    /// The open lists, outermost first: the next number, or none for bullets.
    pub lists: Seq<Option<u64>>,
    pub heading: Option<u8>,
    pub quotes: nat,
    pub table: Option<TableView>,
}

pub open spec fn no_spans() -> Seq<(Seq<char>, Style)> {
    Seq::<(Seq<char>, Style)>::empty()
}

pub open spec fn blank_page(base: Style, assets: HighlightAssets) -> Page {
    Page {
        assets,
        base,
        lines: Seq::<Seq<(Seq<char>, Style)>>::empty(),
        current: no_spans(),
        bold: false,
        italic: false,
        crossed_out: false,
        in_code_block: false,
        code_lang: None,
        code_buffer: Seq::<char>::empty(),
        link: None,
        lists: Seq::<Option<u64>>::empty(),
        heading: None,
        quotes: 0,
        table: None,
    }
}

pub open spec fn heading_fg() -> Color {
    Color::Rgb(166, 182, 255)
}

pub open spec fn quote_fg() -> Color {
    Color::Rgb(170, 178, 196)
}

pub open spec fn link_fg() -> Color {
    Color::Rgb(132, 204, 232)
}

impl Page {
    /// The line in progress is finished, unless there is nothing on it.
    pub open spec fn flushed(self) -> Page {
        if self.current.len() == 0 {
            self
        } else {
            Page { lines: self.lines.push(self.current), current: no_spans(), ..self }
        }
    }

    /// An empty line follows.
    pub open spec fn spaced(self) -> Page {
        Page { lines: self.lines.push(no_spans()), ..self }
    }

    /// A span is added to the line in progress.
    pub open spec fn marked(self, text: Seq<char>, style: Style) -> Page {
        Page { current: self.current.push((text, style)), ..self }
    }

    /// The style of inline text: that of the page, changed by the heading, the
    /// quote and the link that it stands in, and by its own emphasis.
    pub open spec fn inline(self) -> Style {
        Style {
            fg: if self.link is Some {
                Some(link_fg())
            } else if self.quotes > 0 {
                Some(quote_fg())
            } else if self.heading is Some {
                Some(heading_fg())
            } else {
                self.base.fg
            },
            bg: self.base.bg,
            bold: self.base.bold || self.heading is Some || self.bold,
            italic: self.base.italic || self.quotes > 0 || self.italic,
            underlined: self.base.underlined || self.heading == Some(1u8) || self.link is Some,
            crossed_out: self.base.crossed_out || self.crossed_out,
            dim: self.base.dim,
        }
    }

    /// A text is added: in a link followed by the link's target, in a table cell
    /// to the cell, else to the line in progress.
    pub open spec fn put(self, text: Seq<char>, style: Style) -> Page {
        match self.link {
            Some(target) => self.marked(text, style).marked(
                " ("@ + target + ")"@,
                Style { fg: Some(link_fg()), dim: true, ..plain() },
            ),
            None => match self.table {
                Some(t) if t.in_cell => Page {
                    table: Some(TableView { cell: t.cell.push((text, style)), ..t }),
                    ..self
                },
                _ => self.marked(text, style),
            },
        }
    }

    /// The first `n` lines of a text are added, each on a line of its own.
    pub open spec fn put_lines(self, parts: Seq<Seq<char>>, style: Style, n: nat) -> Page
        decreases n,
    {
        if n == 0 {
            self
        } else {
            let i = n - 1;
            let before = self.put_lines(parts, style, i as nat);
            let ready = if i > 0 {
                before.flushed()
            } else {
                before
            };
            if parts[i].len() == 0 {
                ready
            } else {
                ready.put(parts[i], style)
            }
        }
    }

    /// A text event: kept back in a code block, else added line by line.
    pub open spec fn typed(self, text: Seq<char>) -> Page {
        if self.in_code_block {
            Page { code_buffer: self.code_buffer + text, ..self }
        } else {
            let parts = pieces(text, Separator::Char('\n'));
            self.put_lines(parts, self.inline(), parts.len())
        }
    }

    /// The marker of the next item of the innermost list.
    pub open spec fn marker(self) -> Seq<char> {
        if self.lists.len() > 0 {
            match self.lists[self.lists.len() - 1] {
                Some(n) => digits(n as nat) + ". "@,
                None => "• "@,
            }
        } else {
            "• "@
        }
    }

    /// The open lists after an item began: a numbered list counts on.
    pub open spec fn counted(self) -> Seq<Option<u64>> {
        if self.lists.len() > 0 {
            let n = self.lists.len() - 1;
            match self.lists[n] {
                Some(k) => self.lists.update(
                    n,
                    Some(
                        if k == u64::MAX {
                            k
                        } else {
                            (k + 1) as u64
                        },
                    ),
                ),
                None => self.lists,
            }
        } else {
            self.lists
        }
    }

    /// An element opens.
    pub open spec fn opened(self, tag: TagView) -> Page {
        match tag {
            TagView::Paragraph => if self.quotes > 0 {
                self.marked("│ "@, Style { fg: Some(quote_fg()), ..plain() })
            } else {
                self
            },
            TagView::Heading(level) => Page { heading: Some(level), ..self.flushed() },
            TagView::BlockQuote => Page { quotes: self.quotes + 1, ..self.flushed() },
            TagView::Fenced(info) => Page {
                in_code_block: true,
                code_buffer: Seq::<char>::empty(),
                code_lang: if trimmed(info).len() == 0 {
                    None
                } else {
                    Some(trimmed(info))
                },
                ..self.flushed()
            },
            TagView::Indented => Page {
                in_code_block: true,
                code_buffer: Seq::<char>::empty(),
                code_lang: None,
                ..self.flushed()
            },
            TagView::List(start) => Page { lists: self.lists.push(start), ..self.flushed() },
            TagView::Item => {
                let depth = if self.lists.len() > 0 {
                    (self.lists.len() - 1) as nat
                } else {
                    0
                };
                Page {
                    lists: self.counted(),
                    ..self.flushed().marked(repeated("  "@, depth) + self.marker(), self.base)
                }
            },
            TagView::Emphasis => Page { italic: true, ..self },
            TagView::Strong => Page { bold: true, ..self },
            TagView::Strikethrough => Page { crossed_out: true, ..self },
            TagView::Link(target) => Page { link: Some(target), ..self },
            TagView::Table => Page {
                table: Some(
                    TableView {
                        rows: Seq::<Seq<Seq<(Seq<char>, Style)>>>::empty(),
                        row: Seq::<Seq<(Seq<char>, Style)>>::empty(),
                        cell: no_spans(),
                        in_cell: false,
                    },
                ),
                ..self.flushed()
            },
            TagView::TableHead | TagView::TableRow => match self.table {
                Some(t) => Page {
                    table: Some(TableView { row: Seq::<Seq<(Seq<char>, Style)>>::empty(), ..t }),
                    ..self
                },
                None => self,
            },
            TagView::TableCell => match self.table {
                Some(t) => Page {
                    table: Some(TableView { cell: no_spans(), in_cell: true, ..t }),
                    ..self
                },
                None => self,
            },
            TagView::Other => self,
        }
    }

    /// An element closes.
    pub open spec fn closed(self, tag: TagEnd) -> Page {
        match tag {
            TagEnd::Paragraph => self.flushed().spaced(),
            TagEnd::Heading => Page { heading: None, ..self.flushed().spaced() },
            TagEnd::BlockQuote => Page {
                quotes: if self.quotes > 0 {
                    (self.quotes - 1) as nat
                } else {
                    0
                },
                ..self.flushed()
            },
            TagEnd::CodeBlock => {
                let page = self.flushed();
                Page {
                    lines: page.lines + code_block(self.code_buffer, self.code_lang, self.assets),
                    in_code_block: false,
                    code_lang: None,
                    code_buffer: Seq::<char>::empty(),
                    ..page
                }.spaced()
            },
            TagEnd::List => {
                let lists = if self.lists.len() > 0 {
                    self.lists.take(self.lists.len() - 1)
                } else {
                    self.lists
                };
                let page = Page { lists, ..self.flushed() };
                if lists.len() == 0 {
                    page.spaced()
                } else {
                    page
                }
            },
            TagEnd::Item => self.flushed(),
            TagEnd::Emphasis => Page { italic: false, ..self },
            TagEnd::Strong => Page { bold: false, ..self },
            TagEnd::Strikethrough => Page { crossed_out: false, ..self },
            TagEnd::Link => Page { link: None, ..self },
            TagEnd::Table => match self.table {
                Some(t) => Page { lines: self.lines + grid(t.rows, self.base), table: None, ..self },
                None => self,
            },
            TagEnd::TableHead | TagEnd::TableRow => match self.table {
                Some(t) => Page {
                    table: Some(
                        TableView {
                            rows: t.rows.push(t.row),
                            row: Seq::<Seq<(Seq<char>, Style)>>::empty(),
                            ..t
                        },
                    ),
                    ..self
                },
                None => self,
            },
            TagEnd::TableCell => match self.table {
                Some(t) => Page {
                    table: Some(
                        TableView { row: t.row.push(t.cell), cell: no_spans(), in_cell: false, ..t },
                    ),
                    ..self
                },
                None => self,
            },
            TagEnd::Other => self,
        }
    }

    /// An event is rendered.
    pub open spec fn handled(self, event: EventView) -> Page {
        match event {
            EventView::Start(tag) => self.opened(tag),
            EventView::End(tag) => self.closed(tag),
            EventView::Text(text) => self.typed(text),
            EventView::Code(code) => self.marked("`"@ + code + "`"@, code_style()),
            EventView::SoftBreak => self.typed(" "@),
            EventView::HardBreak => self.flushed(),
            EventView::Rule => {
                let page = self.flushed();
                Page { lines: page.lines.push(seq![(repeated("─"@, 40), border())]), ..page }
            },
            EventView::TaskListMarker(done) => self.marked(
                if done {
                    "[x] "@
                } else {
                    "[ ] "@
                },
                self.base,
            ),
            EventView::Other => self,
        }
    }

    /// The events are rendered one after the other.
    pub open spec fn after(self, events: Seq<EventView>) -> Page
        decreases events.len(),
    {
        if events.len() == 0 {
            self
        } else {
            self.after(events.take(events.len() - 1)).handled(events[events.len() - 1])
        }
    }
}

/// A line without text.
pub open spec fn is_blank(line: Seq<(Seq<char>, Style)>) -> bool {
    forall|i: int| 0 <= i < line.len() ==> (#[trigger] line[i]).0.len() == 0
}

/// The lines up to the last one with text.
pub open spec fn without_blank_end(lines: Seq<Seq<(Seq<char>, Style)>>) -> Seq<
    Seq<(Seq<char>, Style)>,
>
    decreases lines.len(),
{
    if lines.len() > 0 && is_blank(lines[lines.len() - 1]) {
        without_blank_end(lines.take(lines.len() - 1))
    } else {
        lines
    }
}

/// The lines of a markdown text, from its events.
pub open spec fn rendered(
    events: Seq<EventView>,
    base: Style,
    assets: HighlightAssets,
) -> Seq<Seq<(Seq<char>, Style)>> {
    without_blank_end(blank_page(base, assets).after(events).flushed().lines)
}

struct TableState {
    rows: Vec<Vec<Line>>,
    current_row: Vec<Line>,
    current_cell: Line,
    in_cell: bool,
}

struct Renderer<'a> {
    assets: &'a HighlightAssets,
    base_style: Style,
    lines: Vec<Line>,
    current: Line,
    bold: bool,
    italic: bool,
    crossed_out: bool,
    in_code_block: bool,
    code_lang: Option<String>,
    code_buffer: String,
    link_target: Option<String>,
    list_stack: Vec<Option<u64>>,
    heading_level: Option<u8>,
    blockquote_depth: usize,
    table: Option<TableState>,
}

spec fn table_view(t: TableState) -> TableView {
    TableView {
        rows: items_view(t.rows@),
        row: lines_view(t.current_row@),
        cell: line_view(t.current_cell@),
        in_cell: t.in_cell,
    }
}

impl<'a> View for Renderer<'a> {
    type V = Page;

    closed spec fn view(&self) -> Page {
        Page {
            assets: *self.assets,
            base: self.base_style,
            lines: lines_view(self.lines@),
            current: line_view(self.current@),
            bold: self.bold,
            italic: self.italic,
            crossed_out: self.crossed_out,
            in_code_block: self.in_code_block,
            code_lang: opt_text(self.code_lang),
            code_buffer: self.code_buffer@,
            link: opt_text(self.link_target),
            lists: self.list_stack@,
            heading: self.heading_level,
            quotes: self.blockquote_depth as nat,
            table: match self.table {
                Some(t) => Some(table_view(t)),
                None => None,
            },
        }
    }
}

impl<'a> Renderer<'a> {
    fn new(base_style: Style, assets: &'a HighlightAssets) -> (r: Renderer<'a>)
        ensures
            r@ == blank_page(base_style, *assets),
    {
        let r = Renderer {
            assets,
            base_style,
            lines: Vec::new(),
            current: Vec::new(),
            bold: false,
            italic: false,
            crossed_out: false,
            in_code_block: false,
            code_lang: None,
            code_buffer: String::new(),
            link_target: None,
            list_stack: Vec::new(),
            heading_level: None,
            blockquote_depth: 0,
            table: None,
        };
        assert(r@.lines =~= blank_page(base_style, *assets).lines);
        assert(r@.current =~= no_spans());
        assert(r@.lists =~= Seq::<Option<u64>>::empty());
        assert(r@.code_buffer =~= Seq::<char>::empty());
        r
    }

    fn flush_line(&mut self)
        ensures
            final(self)@ == old(self)@.flushed(),
            final(self).blockquote_depth == old(self).blockquote_depth,
    {
        if self.current.len() == 0 {
            return;
        }
        let mut spans: Line = Vec::new();
        std::mem::swap(&mut spans, &mut self.current);
        push_line(&mut self.lines, spans);
        assert(self@.current =~= no_spans());
    }

    fn push_blank(&mut self)
        ensures
            final(self)@ == old(self)@.spaced(),
    {
        let blank: Line = Vec::new();
        assert(line_view(blank@) =~= no_spans());
        push_line(&mut self.lines, blank);
    }

    fn push_marked(&mut self, text: String, style: Style)
        ensures
            final(self)@ == old(self)@.marked(text@, style),
    {
        push_span(&mut self.current, text, style);
    }

    fn inline_style(&self) -> (style: Style)
        ensures
            style == self@.inline(),
    {
        let mut style = self.base_style;
        match self.heading_level {
            Some(level) => {
                style.fg = Some(Color::Rgb(166, 182, 255));
                style.bold = true;
                if level == 1 {
                    style.underlined = true;
                }
            },
            None => {},
        }
        if self.blockquote_depth > 0 {
            style.fg = Some(Color::Rgb(170, 178, 196));
            style.italic = true;
        }
        if self.link_target.is_some() {
            style.fg = Some(Color::Rgb(132, 204, 232));
            style.underlined = true;
        }
        if self.bold {
            style.bold = true;
        }
        if self.italic {
            style.italic = true;
        }
        if self.crossed_out {
            style.crossed_out = true;
        }
        style
    }

    fn push_to_current(&mut self, text: String, style: Style)
        ensures
            final(self)@ == old(self)@.put(text@, style),
    {
        match &self.link_target {
            Some(target) => {
                let suffix = cat3(" (", target.as_str(), ")");
                push_span(&mut self.current, text, style);
                push_span(
                    &mut self.current,
                    suffix,
                    Style { fg: Some(Color::Rgb(132, 204, 232)), dim: true, ..plain_style() },
                );
            },
            None => match &mut self.table {
                Some(t) => if t.in_cell {
                    push_span(&mut t.current_cell, text, style);
                } else {
                    push_span(&mut self.current, text, style);
                },
                None => {
                    push_span(&mut self.current, text, style);
                },
            },
        }
    }

    fn push_text(&mut self, text: &str)
        ensures
            final(self)@ == old(self)@.typed(text@),
            final(self).blockquote_depth == old(self).blockquote_depth,
    {
        if self.in_code_block {
            self.code_buffer.append(text);
            return;
        }
        let style = self.inline_style();
        let parts = split(text, Separator::Char('\n'));
        let ghost all = pieces(text@, Separator::Char('\n'));
        let ghost start = self@;
        let mut i: usize = 0;
        while i < parts.len()
            invariant
                i <= parts@.len(),
                texts(parts@) == all,
                self@ == start.put_lines(all, style, i as nat),
                self.blockquote_depth == start.quotes,
            decreases parts@.len() - i,
        {
            assert(texts(parts@)[i as int] == parts@[i as int]@);
            if i > 0 {
                self.flush_line();
            }
            if !parts[i].as_str().is_empty() {
                let ghost before = self@;
                self.push_to_current(parts[i].clone(), style);
                assert(self@.quotes == before.quotes);
            }
            i += 1;
        }
    }

    fn push_inline_code(&mut self, code: &str)
        ensures
            final(self)@ == old(self)@.marked("`"@ + code@ + "`"@, code_style()),
    {
        self.push_marked(cat3("`", code, "`"), code_text_style());
    }

    fn start_item(&mut self)
        ensures
            final(self)@ == old(self)@.opened(TagView::Item),
    {
        self.flush_line();
        let n: usize = self.list_stack.len();
        let depth: usize = if n > 0 {
            n - 1
        } else {
            0
        };
        let indent = repeat("  ", depth);
        let mut marker = "• ".to_owned();
        if n > 0 {
            match self.list_stack[n - 1] {
                Some(k) => {
                    let number = decimal(k);
                    marker = cat2(number.as_str(), ". ");
                    self.list_stack.set(n - 1, Some(k.saturating_add(1)));
                },
                None => {},
            }
        }
        let text = cat2(indent.as_str(), marker.as_str());
        let base = self.base_style;
        self.push_marked(text, base);
        assert(self@.lists =~= old(self)@.counted());
    }

    fn start_code(&mut self, lang: Option<String>)
        ensures
            final(self)@ == (Page {
                in_code_block: true,
                code_buffer: Seq::<char>::empty(),
                code_lang: opt_text(lang),
                ..old(self)@.flushed()
            }),
    {
        self.flush_line();
        self.in_code_block = true;
        self.code_buffer = String::new();
        self.code_lang = lang;
        assert(self@.code_buffer =~= Seq::<char>::empty());
    }

    fn start_tag(&mut self, tag: &Tag)
        requires
            old(self).blockquote_depth < usize::MAX,
        ensures
            final(self)@ == old(self)@.opened(tag_view(*tag)),
    {
        match tag {
            Tag::Paragraph => {
                if self.blockquote_depth > 0 {
                    self.start_blockquote_line();
                }
            },
            Tag::Heading(level) => {
                self.flush_line();
                self.heading_level = Some(*level);
            },
            Tag::BlockQuote => {
                self.flush_line();
                self.blockquote_depth = self.blockquote_depth + 1;
            },
            Tag::Fenced(info) => {
                let trimmed_info = trim(info.as_str());
                if trimmed_info.as_str().is_empty() {
                    self.start_code(None);
                } else {
                    self.start_code(Some(trimmed_info));
                }
            },
            Tag::Indented => {
                self.start_code(None);
            },
            Tag::List(start) => {
                self.flush_line();
                self.list_stack.push(*start);
            },
            Tag::Item => {
                self.start_item();
            },
            Tag::Emphasis => {
                self.italic = true;
            },
            Tag::Strong => {
                self.bold = true;
            },
            Tag::Strikethrough => {
                self.crossed_out = true;
            },
            Tag::Link(target) => {
                self.link_target = Some(target.clone());
            },
            Tag::Table => {
                self.flush_line();
                let t = TableState {
                    rows: Vec::new(),
                    current_row: Vec::new(),
                    current_cell: Vec::new(),
                    in_cell: false,
                };
                assert(table_view(t).rows =~= Seq::<Seq<Seq<(Seq<char>, Style)>>>::empty());
                assert(table_view(t).row =~= Seq::<Seq<(Seq<char>, Style)>>::empty());
                assert(table_view(t).cell =~= no_spans());
                self.table = Some(t);
            },
            Tag::TableHead | Tag::TableRow => match &mut self.table {
                Some(t) => {
                    t.current_row = Vec::new();
                    assert(table_view(*t).row =~= Seq::<Seq<(Seq<char>, Style)>>::empty());
                },
                None => {},
            },
            Tag::TableCell => match &mut self.table {
                Some(t) => {
                    t.current_cell = Vec::new();
                    t.in_cell = true;
                    assert(table_view(*t).cell =~= no_spans());
                },
                None => {},
            },
            Tag::Other => {},
        }
    }

    fn start_blockquote_line(&mut self)
        ensures
            final(self)@ == old(self)@.marked("│ "@, Style { fg: Some(quote_fg()), ..plain() }),
    {
        self.push_marked(
            "│ ".to_owned(),
            Style { fg: Some(Color::Rgb(170, 178, 196)), ..plain_style() },
        );
    }

    fn push_lines(&mut self, more: Vec<Line>)
        ensures
            final(self)@ == (Page { lines: old(self)@.lines + lines_view(more@), ..old(self)@ }),
    {
        let mut rest = more;
        let ghost before = self.lines@;
        self.lines.append(&mut rest);
        assert(lines_view(self.lines@) =~= lines_view(before) + lines_view(more@));
    }

    fn emit_highlighted_code_block(&mut self, source: &str, lang: Option<&str>)
        ensures
            final(self)@ == (Page {
                lines: old(self)@.lines + code_block(
                    source@,
                    opt_str(lang),
                    old(self)@.assets,
                ),
                ..old(self)@
            }),
    {
        self.push_lines(draw_code_block(source, lang, self.assets));
    }

    fn end_code(&mut self)
        ensures
            final(self)@ == old(self)@.closed(TagEnd::CodeBlock),
    {
        self.flush_line();
        let mut buffered = String::new();
        std::mem::swap(&mut buffered, &mut self.code_buffer);
        let lang = self.code_lang.take();
        self.in_code_block = false;
        let lang_text = match &lang {
            Some(l) => Some(l.as_str()),
            None => None,
        };
        assert(self@.code_buffer =~= Seq::<char>::empty());
        self.emit_highlighted_code_block(buffered.as_str(), lang_text);
        self.push_blank();
    }

    fn render_table(&mut self, t: TableState)
        ensures
            final(self)@ == (Page {
                lines: old(self)@.lines + grid(items_view(t.rows@), old(self)@.base),
                ..old(self)@
            }),
    {
        let lines = draw_grid(&t.rows, self.base_style);
        self.push_lines(lines);
    }

    fn end_row(&mut self)
        ensures
            final(self)@ == old(self)@.closed(TagEnd::TableRow),
    {
        match &mut self.table {
            Some(t) => {
                let ghost before = *t;
                let mut row: Vec<Line> = Vec::new();
                std::mem::swap(&mut row, &mut t.current_row);
                t.rows.push(row);
                assert(table_view(*t).rows =~= table_view(before).rows.push(
                    table_view(before).row,
                ));
                assert(table_view(*t).row =~= Seq::<Seq<(Seq<char>, Style)>>::empty());
            },
            None => {},
        }
    }

    fn end_cell(&mut self)
        ensures
            final(self)@ == old(self)@.closed(TagEnd::TableCell),
    {
        match &mut self.table {
            Some(t) => {
                let ghost before = *t;
                let mut cell: Line = Vec::new();
                std::mem::swap(&mut cell, &mut t.current_cell);
                push_line(&mut t.current_row, cell);
                t.in_cell = false;
                assert(table_view(*t).cell =~= no_spans());
            },
            None => {},
        }
    }

    fn end_tag(&mut self, tag: TagEnd)
        ensures
            final(self)@ == old(self)@.closed(tag),
    {
        match tag {
            TagEnd::Paragraph => {
                self.flush_line();
                self.push_blank();
            },
            TagEnd::Heading => {
                self.flush_line();
                self.heading_level = None;
                self.push_blank();
            },
            TagEnd::BlockQuote => {
                self.flush_line();
                self.blockquote_depth = self.blockquote_depth.saturating_sub(1);
            },
            TagEnd::CodeBlock => {
                self.end_code();
            },
            TagEnd::List => {
                self.flush_line();
                let _ = self.list_stack.pop();
                assert(self@.lists =~= if old(self)@.lists.len() > 0 {
                    old(self)@.lists.take(old(self)@.lists.len() - 1)
                } else {
                    old(self)@.lists
                });
                if self.list_stack.len() == 0 {
                    self.push_blank();
                }
            },
            TagEnd::Item => {
                self.flush_line();
            },
            TagEnd::Emphasis => {
                self.italic = false;
            },
            TagEnd::Strong => {
                self.bold = false;
            },
            TagEnd::Strikethrough => {
                self.crossed_out = false;
            },
            TagEnd::Link => {
                self.link_target = None;
            },
            TagEnd::Table => match self.table.take() {
                Some(t) => {
                    self.render_table(t);
                },
                None => {},
            },
            TagEnd::TableHead | TagEnd::TableRow => {
                self.end_row();
            },
            TagEnd::TableCell => {
                self.end_cell();
            },
            TagEnd::Other => {},
        }
    }

    fn push_rule(&mut self)
        ensures
            final(self)@ == old(self)@.handled(EventView::Rule),
    {
        self.flush_line();
        push_line(&mut self.lines, line_of(repeat("─", 40), border_style()));
    }

    fn handle(&mut self, event: &Event)
        requires
            old(self).blockquote_depth < usize::MAX,
        ensures
            final(self)@ == old(self)@.handled(event_view(*event)),
            final(self).blockquote_depth <= old(self).blockquote_depth + 1,
    {
        let ghost before = self@;
        match event {
            Event::Start(tag) => {
                self.start_tag(tag);
            },
            Event::End(tag) => {
                self.end_tag(*tag);
            },
            Event::Text(text) => {
                self.push_text(text.as_str());
            },
            Event::Code(code) => {
                self.push_inline_code(code.as_str());
            },
            Event::SoftBreak => {
                self.push_text(" ");
            },
            Event::HardBreak => {
                self.flush_line();
            },
            Event::Rule => {
                self.push_rule();
            },
            Event::TaskListMarker(done) => {
                let marker = if *done {
                    "[x] "
                } else {
                    "[ ] "
                };
                let base = self.base_style;
                self.push_marked(marker.to_owned(), base);
            },
            Event::Other => {},
        }
        assert(self@.quotes == self.blockquote_depth);
        assert(before.quotes == old(self).blockquote_depth);
    }

    fn finish(self) -> (lines: Vec<Line>)
        ensures
            lines_view(lines@) == without_blank_end(self@.flushed().lines),
    {
        let mut page = self;
        page.flush_line();
        let mut lines = page.lines;
        let ghost all = lines_view(lines@);
        let mut n: usize = lines.len();
        assert(all.take(n as int) =~= all);
        while n > 0 && blank(&lines[n - 1])
            invariant
                n <= lines@.len(),
                all == lines_view(lines@),
                without_blank_end(all) == without_blank_end(all.take(n as int)),
            decreases n,
        {
            assert(all.take(n as int).take(n - 1) =~= all.take(n - 1));
            n -= 1;
        }
        lines.truncate(n);
        assert(lines_view(lines@) =~= all.take(n as int));
        lines
    }
}

fn blank(line: &Line) -> (b: bool)
    ensures
        b == is_blank(line_view(line@)),
{
    let mut i: usize = 0;
    while i < line.len()
        invariant
            i <= line@.len(),
            forall|j: int| 0 <= j < i ==> (#[trigger] line_view(line@)[j]).0.len() == 0,
        decreases line@.len() - i,
    {
        if !line[i].text.as_str().is_empty() {
            assert(line_view(line@)[i as int].0.len() > 0);
            return false;
        }
        i += 1;
    }
    true
}

/// Renders the events of a markdown text.
///
/// `base_style` is the style of inline text; headings, quotes, code and links
/// have colours of their own.
pub fn render_events(events: &Vec<Event>, base_style: Style, assets: &HighlightAssets) -> (lines: Vec<
    Line,
>)
    ensures
        lines_view(lines@) == rendered(events_view(events@), base_style, *assets),
{
    let ghost all = events_view(events@);
    let mut renderer = Renderer::new(base_style, assets);
    let mut i: usize = 0;
    assert(all.take(0) =~= Seq::<EventView>::empty());
    while i < events.len()
        invariant
            i <= events@.len(),
            all == events_view(events@),
            renderer@ == blank_page(base_style, *assets).after(all.take(i as int)),
            renderer.blockquote_depth <= i,
        decreases events@.len() - i,
    {
        let ghost t = all.take(i + 1);
        assert(t.take(t.len() - 1) =~= all.take(i as int));
        renderer.handle(&events[i]);
        i += 1;
    }
    assert(all.take(i as int) =~= all);
    renderer.finish()
}

/// Renders a markdown text.
pub fn render(source: &str, base_style: Style, assets: &HighlightAssets) -> (lines: Vec<Line>)
    ensures
        lines_view(lines@) == rendered(markdown_events(source@), base_style, *assets),
{
    render_events(&parse(source), base_style, assets)
}

/// The rendered text never ends with a line without text.
pub proof fn law_no_blank_end(events: Seq<EventView>, base: Style, assets: HighlightAssets)
    ensures
        ({
            let lines = rendered(events, base, assets);
            lines.len() > 0 ==> !is_blank(lines[lines.len() - 1])
        }),
{
    lemma_no_blank_end(blank_page(base, assets).after(events).flushed().lines);
}

proof fn lemma_no_blank_end(lines: Seq<Seq<(Seq<char>, Style)>>)
    ensures
        without_blank_end(lines).len() > 0 ==> !is_blank(
            without_blank_end(lines)[without_blank_end(lines).len() - 1],
        ),
    decreases lines.len(),
{
    if lines.len() > 0 && is_blank(lines[lines.len() - 1]) {
        lemma_no_blank_end(lines.take(lines.len() - 1));
    }
}

/// A text without events has no lines.
pub proof fn law_nothing_renders_to_nothing(base: Style, assets: HighlightAssets)
    ensures
        rendered(Seq::<EventView>::empty(), base, assets).len() == 0,
{
}

/// A finished line stays as it is, whatever follows.
pub proof fn law_finished_lines_stay(page: Page, event: EventView)
    ensures
        page.lines.is_prefix_of(page.handled(event).lines),
{
    assert(page.lines.is_prefix_of(page.flushed().lines));
    match event {
        EventView::Text(text) => {
            let parts = pieces(text, Separator::Char('\n'));
            lemma_put_keeps_lines(page, parts, page.inline(), parts.len());
        },
        EventView::SoftBreak => {
            let parts = pieces(" "@, Separator::Char('\n'));
            lemma_put_keeps_lines(page, parts, page.inline(), parts.len());
        },
        _ => {},
    }
}

proof fn lemma_put_keeps_lines(page: Page, parts: Seq<Seq<char>>, style: Style, n: nat)
    ensures
        page.lines.is_prefix_of(page.put_lines(parts, style, n).lines),
    decreases n,
{
    if n > 0 {
        lemma_put_keeps_lines(page, parts, style, (n - 1) as nat);
    }
}

/// Emphasis, strong emphasis, strikethrough and links end with their closing
/// tag: opened and closed again they leave the page as it was.
pub proof fn law_inline_tags_end(page: Page, target: Seq<char>)
    ensures
        !page.italic ==> page.opened(TagView::Emphasis).closed(TagEnd::Emphasis) == page,
        !page.bold ==> page.opened(TagView::Strong).closed(TagEnd::Strong) == page,
        !page.crossed_out ==> page.opened(TagView::Strikethrough).closed(TagEnd::Strikethrough)
            == page,
        page.link is None ==> page.opened(TagView::Link(target)).closed(TagEnd::Link) == page,
{
}

/// A paragraph of plain text on one line is drawn as that text, in the style of
/// the page.
pub proof fn law_plain_text_stays(text: Seq<char>, base: Style, assets: HighlightAssets)
    requires
        text.len() > 0,
        forall|i: int| 0 <= i < text.len() ==> #[trigger] text[i] != '\n',
    ensures
        rendered(
            seq![
                EventView::Start(TagView::Paragraph),
                EventView::Text(text),
                EventView::End(TagEnd::Paragraph),
            ],
            base,
            assets,
        ) == seq![seq![(text, base)]],
{
    let events = seq![
        EventView::Start(TagView::Paragraph),
        EventView::Text(text),
        EventView::End(TagEnd::Paragraph),
    ];
    let page = blank_page(base, assets);
    reveal_with_fuel(Page::after, 4);
    assert(events.take(2).take(1).take(0).len() == 0);
    assert(events.take(2).take(1)[0] == events[0]);
    assert(events.take(2)[1] == events[1]);
    assert(page.after(events) == page.handled(events[0]).handled(events[1]).handled(events[2]));
    lemma_one_piece(text);
    let parts = pieces(text, Separator::Char('\n'));
    reveal_with_fuel(Page::put_lines, 2);
    assert(page.typed(text).current =~= seq![(text, base)]);
    let done = page.after(events).flushed();
    assert(done.lines =~= seq![seq![(text, base)], no_spans()]);
    assert(done.lines.take(1) =~= seq![seq![(text, base)]]);
    reveal_with_fuel(without_blank_end, 2);
    assert(is_blank(done.lines[1]));
    assert(seq![(text, base)][0].0.len() > 0);
    assert(!is_blank(done.lines.take(1)[0]));
}

proof fn lemma_one_piece(text: Seq<char>)
    requires
        forall|i: int| 0 <= i < text.len() ==> #[trigger] text[i] != '\n',
    ensures
        pieces(text, Separator::Char('\n')) == seq![text],
    decreases text.len(),
{
    if text.len() > 0 {
        let t = text.take(text.len() - 1);
        lemma_one_piece(t);
        assert(t.push(text[text.len() - 1]) =~= text);
        assert(pieces(text, Separator::Char('\n')) =~= seq![text]);
    } else {
        assert(text =~= Seq::<char>::empty());
    }
}

/// Text is read on the line in progress: neither in a code block, nor in a table
/// cell, nor in a link.
pub open spec fn reads_plainly(page: Page) -> bool {
    &&& !page.in_code_block
    &&& page.link is None
    &&& page.table is None
}

/// An event of running text: text on one line, code, a soft break, or the begin or end
/// of an emphasis.
pub open spec fn is_running(event: EventView) -> bool {
    match event {
        EventView::Text(text) => forall|i: int| 0 <= i < text.len() ==> #[trigger] text[i] != '\n',
        EventView::Code(_) => true,
        EventView::SoftBreak => true,
        EventView::Start(tag) => tag is Emphasis || tag is Strong || tag is Strikethrough,
        EventView::End(tag) => tag is Emphasis || tag is Strong || tag is Strikethrough,
        _ => false,
    }
}

/// What an event of running text reads: text as it is, code between backticks, a soft
/// break as one blank, and nothing for an emphasis.
pub open spec fn reading(event: EventView) -> Seq<char> {
    match event {
        EventView::Text(text) => text,
        EventView::Code(code) => seq!['`'] + code + seq!['`'],
        EventView::SoftBreak => seq![' '],
        _ => Seq::<char>::empty(),
    }
}

/// What events of running text read, one after the other.
pub open spec fn readings(events: Seq<EventView>) -> Seq<char>
    decreases events.len(),
{
    if events.len() == 0 {
        Seq::<char>::empty()
    } else {
        readings(events.drop_last()) + reading(events.last())
    }
}

/// What is open on a page but for its emphasis.
pub open spec fn same_frame(a: Page, b: Page) -> bool {
    &&& a.assets == b.assets
    &&& a.base == b.base
    &&& a.lines == b.lines
    &&& a.in_code_block == b.in_code_block
    &&& a.code_lang == b.code_lang
    &&& a.code_buffer == b.code_buffer
    &&& a.link == b.link
    &&& a.lists == b.lists
    &&& a.heading == b.heading
    &&& a.quotes == b.quotes
    &&& a.table == b.table
}

/// A text on one line, put on a page that reads plainly, is one more span in the style
/// of the page.
proof fn lemma_typed_line(page: Page, text: Seq<char>)
    requires
        !page.in_code_block,
        forall|i: int| 0 <= i < text.len() ==> #[trigger] text[i] != '\n',
    ensures
        page.typed(text) == (if text.len() == 0 {
            page
        } else {
            page.put(text, page.inline())
        }),
{
    lemma_one_piece(text);
    reveal_with_fuel(Page::put_lines, 2);
    assert(pieces(text, Separator::Char('\n'))[0] == text);
}

/// Running text is read in order on the line in progress; no line ends.
pub proof fn law_running_text_is_read(page: Page, events: Seq<EventView>)
    requires
        reads_plainly(page),
        forall|i: int| 0 <= i < events.len() ==> is_running(#[trigger] events[i]),
    ensures
        line_text(page.after(events).current) == line_text(page.current) + readings(events),
        same_frame(page.after(events), page),
    decreases events.len(),
{
    if events.len() == 0 {
        assert(line_text(page.current) + readings(events) =~= line_text(page.current));
    } else {
        let earlier = events.drop_last();
        assert(earlier =~= events.take(events.len() - 1));
        assert forall|i: int| 0 <= i < earlier.len() implies is_running(#[trigger] earlier[i]) by {
            assert(is_running(events[i]));
        }
        law_running_text_is_read(page, earlier);
        let mid = page.after(earlier);
        let event = events.last();
        assert(is_running(events[events.len() - 1]));
        assert(line_text(mid.handled(event).current) =~= line_text(mid.current) + reading(event))
            by {
            match event {
                EventView::Text(text) => {
                    lemma_typed_line(mid, text);
                    lemma_line_text_push(mid.current, (text, mid.inline()));
                },
                EventView::SoftBreak => {
                    reveal_strlit(" ");
                    lemma_typed_line(mid, " "@);
                    lemma_line_text_push(mid.current, (" "@, mid.inline()));
                },
                EventView::Code(code) => {
                    reveal_strlit("`");
                    lemma_line_text_push(mid.current, ("`"@ + code + "`"@, code_style()));
                    assert("`"@ + code + "`"@ =~= seq!['`'] + code + seq!['`']);
                },
                _ => {},
            }
        }
        match event {
            EventView::Text(text) => lemma_typed_line(mid, text),
            EventView::SoftBreak => {
                reveal_strlit(" ");
                lemma_typed_line(mid, " "@);
            },
            _ => {},
        }
        assert(line_text(page.after(events).current) =~= line_text(page.current) + readings(events));
    }
}

proof fn lemma_after_joined(page: Page, a: Seq<EventView>, b: Seq<EventView>)
    ensures
        page.after(a + b) == page.after(a).after(b),
    decreases b.len(),
{
    if b.len() == 0 {
        assert(a + b =~= a);
    } else {
        let t = b.take(b.len() - 1);
        lemma_after_joined(page, a, t);
        assert((a + b).take((a + b).len() - 1) =~= a + t);
        assert((a + b)[(a + b).len() - 1] == b[b.len() - 1]);
    }
}

proof fn lemma_after_one(page: Page, event: EventView)
    ensures
        page.after(seq![event]) == page.handled(event),
{
    let one = seq![event];
    assert(one.take(0).len() == 0);
    assert(page.after(one.take(0)) == page);
    assert(one[0] == event);
}

proof fn lemma_blank_end_goes(line: Seq<(Seq<char>, Style)>)
    requires
        !is_blank(line),
    ensures
        without_blank_end(seq![line, no_spans()]) == seq![line],
{
    let lines = seq![line, no_spans()];
    assert(is_blank(lines[1]));
    assert(lines.take(1) =~= seq![line]);
    assert(without_blank_end(seq![line]) == seq![line]);
}

/// A paragraph is one line that reads its events in order: the texts as they are, with
/// one blank for each soft break.
pub proof fn law_paragraph_reads_its_text(events: Seq<EventView>, base: Style, assets: HighlightAssets)
    requires
        forall|i: int| 0 <= i < events.len() ==> is_running(#[trigger] events[i]),
        readings(events).len() > 0,
    ensures
        ({
            let all = seq![EventView::Start(TagView::Paragraph)] + events + seq![
                EventView::End(TagEnd::Paragraph),
            ];
            let lines = rendered(all, base, assets);
            lines.len() == 1 && line_text(lines[0]) == readings(events)
        }),
{
    let page = blank_page(base, assets);
    let first = seq![EventView::Start(TagView::Paragraph)];
    let last = seq![EventView::End(TagEnd::Paragraph)];
    lemma_after_joined(page, first + events, last);
    lemma_after_joined(page, first, events);
    lemma_after_one(page, EventView::Start(TagView::Paragraph));
    law_running_text_is_read(page, events);
    let mid = page.after(events);
    lemma_after_one(mid, EventView::End(TagEnd::Paragraph));
    assert(line_text(page.current) + readings(events) =~= readings(events));
    let done = mid.closed(TagEnd::Paragraph).flushed();
    assert(mid.current.len() > 0) by {
        if mid.current.len() == 0 {
            assert(line_text(mid.current).len() == 0);
        }
    }
    assert(done.lines =~= seq![mid.current, no_spans()]);
    lemma_blank_reads_nothing(mid.current);
    lemma_blank_end_goes(mid.current);
}

proof fn lemma_blank_reads_nothing(line: Seq<(Seq<char>, Style)>)
    ensures
        is_blank(line) ==> line_text(line).len() == 0,
    decreases line.len(),
{
    if line.len() > 0 && is_blank(line) {
        let t = line.drop_last();
        assert forall|i: int| 0 <= i < t.len() implies (#[trigger] t[i]).0.len() == 0 by {
            assert(line[i].0.len() == 0);
        }
        lemma_blank_reads_nothing(t);
        assert(line[line.len() - 1].0.len() == 0);
    }
}

/// A hard break ends the line: what follows it is read on the next one.
pub proof fn law_hard_break_ends_the_line(page: Page, a: Seq<char>, b: Seq<char>)
    requires
        reads_plainly(page),
        page.current.len() == 0,
        a.len() > 0,
        b.len() > 0,
        forall|i: int| 0 <= i < a.len() ==> #[trigger] a[i] != '\n',
        forall|i: int| 0 <= i < b.len() ==> #[trigger] b[i] != '\n',
    ensures
        ({
            let after = page.handled(EventView::Text(a)).handled(EventView::HardBreak).handled(
                EventView::Text(b),
            );
            &&& after.lines.len() == page.lines.len() + 1
            &&& after.lines.drop_last() == page.lines
            &&& line_text(after.lines.last()) == a
            &&& line_text(after.current) == b
        }),
{
    lemma_typed_line(page, a);
    let first = page.handled(EventView::Text(a));
    lemma_line_text_push(page.current, (a, page.inline()));
    let broken = first.handled(EventView::HardBreak);
    lemma_typed_line(broken, b);
    lemma_line_text_push(broken.current, (b, broken.inline()));
    let after = broken.handled(EventView::Text(b));
    assert(after.lines.drop_last() =~= page.lines);
    assert(line_text(page.current) + a =~= a);
    assert(line_text(broken.current) + b =~= b);
}

/// Text in strong emphasis is drawn bold, in emphasis italic, struck out text crossed
/// out; a heading is bold, and underlined on the first level; a quote is italic; a link
/// underlined. Without any of these, text is drawn in the style of the page.
pub proof fn law_emphasis_is_drawn(page: Page, target: Seq<char>, level: u8)
    ensures
        page.opened(TagView::Strong).inline().bold,
        page.opened(TagView::Emphasis).inline().italic,
        page.opened(TagView::Strikethrough).inline().crossed_out,
        page.opened(TagView::Link(target)).inline().underlined,
        page.opened(TagView::Heading(level)).inline().bold,
        page.opened(TagView::Heading(1)).inline().underlined,
        page.opened(TagView::BlockQuote).inline().italic,
        !page.bold && !page.italic && !page.crossed_out && page.link is None && page.heading is None
            && page.quotes == 0 ==> page.inline() == page.base,
        page.opened(TagView::Strong).inline().italic == page.inline().italic,
        page.opened(TagView::Strong).inline().crossed_out == page.inline().crossed_out,
        page.opened(TagView::Emphasis).inline().bold == page.inline().bold,
        page.opened(TagView::Strikethrough).inline().bold == page.inline().bold,
        page.opened(TagView::Strikethrough).inline().italic == page.inline().italic,
{
}

/// Text is drawn in the style that is open around it.
pub proof fn law_text_has_the_open_style(page: Page, text: Seq<char>)
    requires
        reads_plainly(page),
        text.len() > 0,
        forall|i: int| 0 <= i < text.len() ==> #[trigger] text[i] != '\n',
    ensures
        page.handled(EventView::Text(text)).current == page.current.push((text, page.inline())),
        page.handled(EventView::Text(text)).lines == page.lines,
{
    lemma_typed_line(page, text);
}

/// The text of a link is followed by its target in brackets.
pub proof fn law_links_show_their_target(page: Page, target: Seq<char>, text: Seq<char>)
    requires
        reads_plainly(page),
        text.len() > 0,
        forall|i: int| 0 <= i < text.len() ==> #[trigger] text[i] != '\n',
    ensures
        ({
            let after = page.handled(EventView::Start(TagView::Link(target))).handled(
                EventView::Text(text),
            ).handled(EventView::End(TagEnd::Link));
            &&& line_text(after.current) == line_text(page.current) + text + seq![' ', '('] + target
                + seq![')']
            &&& after.lines == page.lines
            &&& reads_plainly(after)
        }),
{
    reveal_strlit(" (");
    reveal_strlit(")");
    let open = page.opened(TagView::Link(target));
    lemma_typed_line(open, text);
    let style = Style { fg: Some(link_fg()), dim: true, ..plain() };
    lemma_line_text_push(open.current, (text, open.inline()));
    lemma_line_text_push(
        open.current.push((text, open.inline())),
        (" ("@ + target + ")"@, style),
    );
    let after = open.typed(text);
    assert(line_text(after.current) =~= line_text(page.current) + text + seq![' ', '('] + target
        + seq![')']);
}

/// An item of a list begins a line with its marker: in a numbered list its number,
/// which counts on from item to item, else a bullet; two blanks for each list that it
/// stands deeper in.
pub proof fn law_items_begin_with_their_marker(page: Page)
    requires
        page.lists.len() > 0,
    ensures
        ({
            let after = page.opened(TagView::Item);
            let top = page.lists.last();
            let indent = repeated(seq![' ', ' '], (page.lists.len() - 1) as nat);
            &&& top matches Some(n) ==> line_text(after.current) == indent + digits(n as nat) + seq![
                '.',
                ' ',
            ] && (n < u64::MAX ==> after.lists.last() == Some((n + 1) as u64))
            &&& top is None ==> line_text(after.current) == indent + seq!['•', ' ']
                && after.lists.last() is None
            &&& after.lists.drop_last() == page.lists.drop_last()
            &&& after.lists.len() == page.lists.len()
            &&& page.current.len() > 0 ==> after.lines == page.lines.push(page.current)
            &&& page.current.len() == 0 ==> after.lines == page.lines
        }),
{
    reveal_strlit("  ");
    reveal_strlit(". ");
    reveal_strlit("• ");
    assert("  "@ =~= seq![' ', ' ']);
    let after = page.opened(TagView::Item);
    let none = no_spans();
    let mark = (repeated("  "@, (page.lists.len() - 1) as nat) + page.marker(), page.base);
    lemma_line_text_push(none, mark);
    assert(line_text(none) + mark.0 =~= mark.0);
    assert(after.current =~= none.push(mark));
    let indent = repeated(seq![' ', ' '], (page.lists.len() - 1) as nat);
    match page.lists.last() {
        Some(n) => {
            assert(line_text(after.current) =~= indent + digits(n as nat) + seq!['.', ' ']);
        },
        None => {
            assert(line_text(after.current) =~= indent + seq!['•', ' ']);
        },
    }
    assert(after.lists.drop_last() =~= page.lists.drop_last());
}

/// A list opens inside those that are open, from its first number, and closes alone; an
/// item and a list end their line.
pub proof fn law_lists_nest(page: Page, start: Option<u64>)
    ensures
        page.opened(TagView::List(start)).lists == page.lists.push(start),
        page.opened(TagView::List(start)).closed(TagEnd::List).lists == page.lists,
        page.closed(TagEnd::Item).lists == page.lists,
        page.closed(TagEnd::Item).current.len() == 0,
        page.current.len() > 0 ==> page.closed(TagEnd::Item).lines == page.lines.push(page.current),
        page.closed(TagEnd::List).current.len() == 0,
{
    let open = page.opened(TagView::List(start));
    assert(open.lists.take(open.lists.len() - 1) =~= page.lists);
}

/// A paragraph in a quote begins with a bar, and quotes nest: a closed one leaves those
/// around it open.
pub proof fn law_quotes_are_marked(page: Page)
    ensures
        page.opened(TagView::BlockQuote).quotes == page.quotes + 1,
        page.opened(TagView::BlockQuote).closed(TagEnd::BlockQuote).quotes == page.quotes,
        page.quotes > 0 ==> line_text(page.opened(TagView::Paragraph).current) == line_text(
            page.current,
        ) + seq!['│', ' '],
        page.quotes == 0 ==> page.opened(TagView::Paragraph) == page,
        page.closed(TagEnd::BlockQuote).current.len() == 0,
{
    reveal_strlit("│ ");
    lemma_line_text_push(page.current, ("│ "@, Style { fg: Some(quote_fg()), ..plain() }));
    assert("│ "@ =~= seq!['│', ' ']);
}

/// A heading stands on lines of its own: what was on the line before it is finished,
/// and so is the heading at its end, where it closes.
pub proof fn law_headings_stand_alone(page: Page, level: u8)
    ensures
        page.opened(TagView::Heading(level)).current.len() == 0,
        page.opened(TagView::Heading(level)).heading == Some(level),
        page.current.len() > 0 ==> page.opened(TagView::Heading(level)).lines == page.lines.push(
            page.current,
        ),
        page.closed(TagEnd::Heading).current.len() == 0,
        page.closed(TagEnd::Heading).heading is None,
        page.current.len() > 0 ==> page.closed(TagEnd::Heading).lines == page.lines.push(
            page.current,
        ).push(no_spans()),
{
}

/// The text of a code block, in however many pieces it comes, is drawn as one block in
/// the language of its fence; nothing of it is read as running text.
pub proof fn law_code_block_draws_its_text(page: Page, info: Seq<char>, parts: Seq<Seq<char>>)
    requires
        page.current.len() == 0,
    ensures
        ({
            let texts = Seq::new(parts.len(), |i: int| EventView::Text(parts[i]));
            let open = page.handled(EventView::Start(TagView::Fenced(info)));
            let after = open.after(texts).handled(EventView::End(TagEnd::CodeBlock));
            let source = joined(parts, Seq::<char>::empty());
            let lang = if trimmed(info).len() > 0 {
                Some(trimmed(info))
            } else {
                None
            };
            &&& after.lines == page.lines + code_block(source, lang, page.assets) + seq![no_spans()]
            &&& after.current.len() == 0
            &&& !after.in_code_block
        }),
{
    let texts = Seq::new(parts.len(), |i: int| EventView::Text(parts[i]));
    let open = page.opened(TagView::Fenced(info));
    lemma_code_is_gathered(open, parts);
    let none = Seq::<char>::empty();
    let source = joined(parts, none);
    assert(none + source =~= source);
    let before = open.after(texts);
    let after = before.closed(TagEnd::CodeBlock);
    let lang = if trimmed(info).len() > 0 {
        Some(trimmed(info))
    } else {
        None
    };
    assert(after.lines =~= page.lines + code_block(source, lang, page.assets) + seq![no_spans()]);
}

proof fn lemma_code_is_gathered(page: Page, parts: Seq<Seq<char>>)
    requires
        page.in_code_block,
    ensures
        page.after(Seq::new(parts.len(), |i: int| EventView::Text(parts[i]))) == (Page {
            code_buffer: page.code_buffer + joined(parts, Seq::<char>::empty()),
            ..page
        }),
    decreases parts.len(),
{
    let texts = Seq::new(parts.len(), |i: int| EventView::Text(parts[i]));
    let none = Seq::<char>::empty();
    if parts.len() == 0 {
        assert(page.code_buffer + joined(parts, none) =~= page.code_buffer);
    } else {
        let n = parts.len() - 1;
        let t = parts.take(n);
        lemma_code_is_gathered(page, t);
        assert(texts.take(n) =~= Seq::new(t.len(), |i: int| EventView::Text(t[i])));
        law_joined_text(t, parts[n], none);
        assert(t.push(parts[n]) =~= parts);
        assert(joined(t, none) + none + parts[n] =~= joined(t, none) + parts[n]);
        if n == 0 {
            assert(joined(t, none) =~= none);
            assert(none + parts[n] =~= parts[n]);
        }
        assert((page.code_buffer + joined(t, none)) + parts[n] =~= page.code_buffer + joined(
            parts,
            none,
        ));
    }
}

/// A table cell gathers its text, a row its cells and a table its rows, in their
/// order; the table is then drawn as a grid of them.
pub proof fn law_tables_gather_their_cells(page: Page, t: TableView, text: Seq<char>)
    requires
        page.table == Some(t),
        !page.in_code_block,
        page.link is None,
        text.len() > 0,
        forall|i: int| 0 <= i < text.len() ==> #[trigger] text[i] != '\n',
    ensures
        t.in_cell ==> page.handled(EventView::Text(text)).table == Some(
            TableView { cell: t.cell.push((text, page.inline())), ..t },
        ) && page.handled(EventView::Text(text)).current == page.current,
        page.opened(TagView::TableCell).table matches Some(c) && c.in_cell && c.cell.len() == 0
            && c.row == t.row && c.rows == t.rows,
        page.closed(TagEnd::TableCell).table matches Some(c) && !c.in_cell && c.row == t.row.push(
            t.cell,
        ) && c.rows == t.rows,
        page.opened(TagView::TableRow).table matches Some(c) && c.row.len() == 0 && c.rows
            == t.rows,
        page.opened(TagView::TableHead).table matches Some(c) && c.row.len() == 0 && c.rows
            == t.rows,
        page.closed(TagEnd::TableRow).table matches Some(c) && c.rows == t.rows.push(t.row),
        page.closed(TagEnd::TableHead).table matches Some(c) && c.rows == t.rows.push(t.row),
        page.closed(TagEnd::Table).table is None,
        page.closed(TagEnd::Table).lines == page.lines + grid(t.rows, page.base),
{
    lemma_typed_line(page, text);
}

/// A task of a list shows whether it is done, and a rule is a line of dashes.
pub proof fn law_marks_are_drawn(page: Page)
    ensures
        line_text(page.handled(EventView::TaskListMarker(true)).current) == line_text(page.current)
            + seq!['[', 'x', ']', ' '],
        line_text(page.handled(EventView::TaskListMarker(false)).current) == line_text(page.current)
            + seq!['[', ' ', ']', ' '],
        page.handled(EventView::Rule).lines.len() == page.flushed().lines.len() + 1,
        page.handled(EventView::Rule).current.len() == 0,
        line_text(page.handled(EventView::Rule).lines.last()) == repeated(seq!['─'], 40),
{
    reveal_strlit("[x] ");
    reveal_strlit("[ ] ");
    reveal_strlit("─");
    assert("[x] "@ =~= seq!['[', 'x', ']', ' ']);
    assert("[ ] "@ =~= seq!['[', ' ', ']', ' ']);
    assert("─"@ =~= seq!['─']);
    lemma_line_text_push(page.current, ("[x] "@, page.base));
    lemma_line_text_push(page.current, ("[ ] "@, page.base));
    let none = no_spans();
    let dash = (repeated("─"@, 40), border());
    lemma_line_text_push(none, dash);
    assert(none.push(dash) =~= seq![dash]);
    assert(line_text(none) + dash.0 =~= dash.0);
}

/// Only lines without text are left out at the end; all others are the page's lines, in
/// their order.
pub proof fn law_only_a_blank_end_is_left_out(
    events: Seq<EventView>,
    base: Style,
    assets: HighlightAssets,
)
    ensures
        ({
            let all = blank_page(base, assets).after(events).flushed().lines;
            let lines = rendered(events, base, assets);
            &&& lines.is_prefix_of(all)
            &&& forall|i: int|
                lines.len() <= i < all.len() ==> line_text(#[trigger] all[i]).len() == 0
        }),
{
    lemma_blank_end(blank_page(base, assets).after(events).flushed().lines);
}

proof fn lemma_blank_end(all: Seq<Seq<(Seq<char>, Style)>>)
    ensures
        without_blank_end(all).is_prefix_of(all),
        forall|i: int|
            without_blank_end(all).len() <= i < all.len() ==> line_text(#[trigger] all[i]).len()
                == 0,
    decreases all.len(),
{
    if all.len() > 0 && is_blank(all[all.len() - 1]) {
        let t = all.take(all.len() - 1);
        lemma_blank_end(t);
        lemma_blank_reads_nothing(all[all.len() - 1]);
        assert forall|i: int| without_blank_end(all).len() <= i < all.len() implies line_text(
            #[trigger] all[i],
        ).len() == 0 by {
            if i < all.len() - 1 {
                assert(t[i] == all[i]);
            }
        }
    }
}

/// Events are rendered one after the other: what comes later goes on from the page that
/// the earlier ones left.
pub proof fn law_events_follow_each_other(page: Page, a: Seq<EventView>, b: Seq<EventView>)
    ensures
        page.after(a + b) == page.after(a).after(b),
        page.after(Seq::<EventView>::empty()) == page,
{
    lemma_after_joined(page, a, b);
}

} // verus!
