//! Choosing the model for a conversation.
//!
//! The choice rides on the next prompt; the daemon keeps it from then on.

use vstd::prelude::*;
use crate::api::{
    Command, ConversationModelSelectionView, ModelListing, SendPromptOverride,
};
use crate::keys::{KeyCode, KeyEvent};
use crate::text::{cat2, cat3, cat4, same};
#[allow(unused_imports)]
use crate::text::{holds_text, law_text_is_held, opt_text, stands_at};
#[allow(unused_imports)]
use crate::connections::bare;
use crate::view::{
    line_of, plain_style, push_line, push_span, title_of, toned_style, turn, Line, ListView, Rect,
    Style, Tone,
};
#[allow(unused_imports)]
use crate::view::{
    items_view, law_steps_lead_to_the_neighbour, lemma_span_is_read, lemma_span_tells, less, lesser,
    line_text, line_view, lines_view, list_title, plain, shown_selection, toned, turned,
};

verus! {

/// How the picker was left.
#[derive(Debug, PartialEq, Eq)]
pub enum Outcome {
    /// A model was picked: it is pinned for the next prompt.
    Selected(SendPromptOverride),
    /// Nothing was picked.
    Cancelled,
}

impl Default for Outcome {
    fn default() -> (r: Self)
        ensures
            r is Cancelled,
    {
        Outcome::Cancelled
    }
}

pub struct State {
    pub models: Vec<ModelListing>,
    pub selected: usize,
    /// The conversation's model, which is marked in the list.
    pub current: Option<ConversationModelSelectionView>,
    pub error: Option<String>,
    pub busy: Option<String>,
    pub outcome: Option<Outcome>,
}

/// What the picker asks the daemon for.
pub enum Request {
    Nothing,
    /// The models of all connections. Where the transport takes no commands, the
    /// answer is `commands_unavailable`.
    Models(Command),
}

/// A row is the conversation's model.
pub open spec fn is_current(
    current: Option<ConversationModelSelectionView>,
    row: ModelListing,
) -> bool {
    match current {
        Some(c) => c.connection_id@ == row.connection_id@ && c.model_id@ == row.model.id@,
        None => false,
    }
}

/// The first row of the conversation's model from `from` on.
pub open spec fn current_row(
    models: Seq<ModelListing>,
    current: Option<ConversationModelSelectionView>,
    from: int,
) -> Option<int>
    decreases models.len() - from,
{
    if from < 0 || from >= models.len() {
        None
    } else if is_current(current, models[from]) {
        Some(from)
    } else {
        current_row(models, current, from + 1)
    }
}

impl State {
    /// The selection is in the list; 0 in an empty list.
    pub open spec fn in_range(self) -> bool {
        self.selected < self.models@.len() || (self.selected == 0 && self.models@.len() == 0)
    }

    /// The state with the conversation's model selected, where it is listed.
    pub open spec fn seeded(self) -> State {
        match current_row(self.models@, self.current, 0) {
            Some(i) => State { selected: i as usize, ..self },
            None => self,
        }
    }

    /// The state with the selection moved by one row.
    pub open spec fn moved(self, down: bool) -> State {
        if self.models@.len() == 0 {
            self
        } else {
            State {
                selected: turned(self.selected as int, self.models@.len() as int, down) as usize,
                ..self
            }
        }
    }

    /// The state in which the picker opens.
    pub fn new(current: Option<ConversationModelSelectionView>) -> (s: Self)
        ensures
            s.models@.len() == 0,
            s.selected == 0,
            s.current == current,
            s.error is None,
            opt_text(s.busy) == Some("Loading models..."@),
            s.outcome is None,
            s.in_range(),
    {
        State {
            models: Vec::new(),
            selected: 0,
            current,
            error: None,
            busy: Some("Loading models...".to_owned()),
            outcome: None,
        }
    }
}

/// Whether a row is the conversation's model.
fn marks(current: &Option<ConversationModelSelectionView>, row: &ModelListing) -> (b: bool)
    ensures
        b == is_current(*current, *row),
{
    match current {
        Some(c) => same(c.connection_id.as_str(), row.connection_id.as_str()) && same(
            c.model_id.as_str(),
            row.model.id.as_str(),
        ),
        None => false,
    }
}

/// Selects the row of the conversation's model.
pub fn seed_selection(state: &mut State)
    ensures
        *final(state) == old(state).seeded(),
        old(state).in_range() ==> final(state).in_range(),
{
    let mut i: usize = 0;
    while i < state.models.len()
        invariant
            *state == *old(state),
            i <= state.models@.len(),
            current_row(state.models@, state.current, 0) == current_row(
                state.models@,
                state.current,
                i as int,
            ),
        decreases state.models@.len() - i,
    {
        if marks(&state.current, &state.models[i]) {
            state.selected = i;
            return;
        }
        i += 1;
    }
}

/// Moves the selection one row down or up, in a circle.
pub fn advance(state: &mut State, down: bool)
    ensures
        *final(state) == old(state).moved(down),
        old(state).in_range() ==> final(state).in_range(),
{
    let len: usize = state.models.len();
    if len > 0 {
        state.selected = turn(state.selected, len, down);
    }
}

/// The models are asked for.
pub open spec fn refreshed(before: State, refresh_cache: bool, after: State, r: Request) -> bool {
    &&& r == Request::Models(
        Command::ListAvailableModels { connection_id: None, refresh: refresh_cache },
    )
    &&& after == (State { busy: after.busy, ..before })
    &&& opt_text(after.busy) == Some(
        if refresh_cache {
            "Refreshing models from daemon..."@
        } else {
            "Loading models..."@
        },
    )
}

/// Asks for the models, and for the daemon to look them up again.
pub fn refresh(state: &mut State, refresh_cache: bool) -> (r: Request)
    ensures
        refreshed(*old(state), refresh_cache, *final(state), r),
{
    state.busy = Some(
        (if refresh_cache {
            "Refreshing models from daemon..."
        } else {
            "Loading models..."
        }).to_owned(),
    );
    Request::Models(Command::ListAvailableModels { connection_id: None, refresh: refresh_cache })
}

/// The error where the transport takes no commands.
pub fn commands_unavailable() -> (s: &'static str)
    ensures
        s@
            == "Model selection isn't available over D-Bus — switch transport with --transport ws or the local socket"@,
{
    "Model selection isn't available over D-Bus — switch transport with --transport ws or the local socket"
}

/// The error where the daemon did not list its models.
pub fn load_failed(reason: &str) -> (s: String)
    ensures
        s@ == "Failed to load models: "@ + reason@,
{
    cat2("Failed to load models: ", reason)
}

/// What a key does.
#[derive(Debug, Clone, Copy, PartialEq, Eq, Structural)]
pub enum PickKey {
    Cancel,
    Down,
    Up,
    Refresh,
    Confirm,
    Other,
}

pub open spec fn pick_key(key: KeyEvent) -> PickKey {
    if !key.modifiers.none() {
        PickKey::Other
    } else {
        match key.code {
            KeyCode::Esc => PickKey::Cancel,
            KeyCode::Down => PickKey::Down,
            KeyCode::Up => PickKey::Up,
            KeyCode::Enter => PickKey::Confirm,
            KeyCode::Char(c) => match c {
                'q' => PickKey::Cancel,
                'j' => PickKey::Down,
                'k' => PickKey::Up,
                'r' => PickKey::Refresh,
                _ => PickKey::Other,
            },
            _ => PickKey::Other,
        }
    }
}

fn pick_key_of(key: KeyEvent) -> (k: PickKey)
    ensures
        k == pick_key(key),
{
    if !key.modifiers.is_empty() {
        return PickKey::Other;
    }
    match key.code {
        KeyCode::Esc | KeyCode::Char('q') => PickKey::Cancel,
        KeyCode::Down | KeyCode::Char('j') => PickKey::Down,
        KeyCode::Up | KeyCode::Char('k') => PickKey::Up,
        KeyCode::Enter => PickKey::Confirm,
        KeyCode::Char('r') => PickKey::Refresh,
        _ => PickKey::Other,
    }
}

/// A listed model as a choice for the next prompt. Its effort is left to the
/// daemon.
pub open spec fn choice(row: ModelListing) -> SendPromptOverride {
    SendPromptOverride {
        connection_id: row.connection_id,
        model_id: row.model.id,
        effort: None,
    }
}

/// What a key leads to.
pub open spec fn key_step(before: State, key: KeyEvent, after: State, r: Request) -> bool {
    match pick_key(key) {
        PickKey::Cancel => r is Nothing && after == (State {
            outcome: Some(Outcome::Cancelled),
            ..before
        }),
        PickKey::Down => r is Nothing && after == before.moved(true),
        PickKey::Up => r is Nothing && after == before.moved(false),
        PickKey::Refresh => refreshed(before, true, after, r),
        PickKey::Confirm => r is Nothing && after == (State {
            outcome: if before.selected < before.models@.len() {
                Some(Outcome::Selected(choice(before.models@[before.selected as int])))
            } else {
                before.outcome
            },
            ..before
        }),
        PickKey::Other => r is Nothing && after == before,
    }
}

/// A key in the picker.
pub fn handle_key(state: &mut State, key: KeyEvent) -> (r: Request)
    ensures
        key_step(*old(state), key, *final(state), r),
        old(state).in_range() ==> final(state).in_range(),
{
    match pick_key_of(key) {
        PickKey::Cancel => {
            state.outcome = Some(Outcome::Cancelled);
        },
        PickKey::Down => advance(state, true),
        PickKey::Up => advance(state, false),
        PickKey::Refresh => {
            return refresh(state, true);
        },
        PickKey::Confirm => {
            if state.selected < state.models.len() {
                let row = &state.models[state.selected];
                state.outcome = Some(
                    Outcome::Selected(
                        SendPromptOverride {
                            connection_id: row.connection_id.clone(),
                            model_id: row.model.id.clone(),
                            effort: None,
                        },
                    ),
                );
            }
        },
        PickKey::Other => {},
    }
    Request::Nothing
}

/// Applies the reply to a request for the models.
pub fn apply_models_result(state: &mut State, result: Result<Vec<ModelListing>, String>)
    ensures
        *final(state) == (match result {
            Ok(models) => State { models, error: None, busy: None, ..*old(state) }.seeded(),
            Err(e) => State { error: Some(e), busy: None, ..*old(state) },
        }),
{
    state.busy = None;
    match result {
        Ok(models) => {
            state.models = models;
            state.error = None;
            seed_selection(state);
        },
        Err(e) => {
            state.error = Some(e);
        },
    }
}

/// The lines above the list: what the picker is for, and the current model.
pub open spec fn header_lines(
    current: Option<ConversationModelSelectionView>,
) -> Seq<Seq<(Seq<char>, Style)>> {
    let second = match current {
        Some(c) => (
            "Current: "@ + c.connection_id@ + " · "@ + c.model_id@,
            Style { italic: true, ..toned(Tone::Pinned) },
        ),
        None => (
            "Current: (none — daemon will use the interactive purpose default)"@,
            toned(Tone::TextDim),
        ),
    };
    seq![
        seq![
            (
                "Pick a model for this conversation"@,
                Style { bold: true, ..toned(Tone::Title) },
            ),
        ],
        seq![second],
    ]
}

/// The lines above the list.
pub fn draw_header(state: &State) -> (lines: Vec<Line>)
    ensures
        lines_view(lines@) == header_lines(state.current),
{
    let mut lines: Vec<Line> = Vec::new();
    push_line(
        &mut lines,
        line_of(
            "Pick a model for this conversation".to_owned(),
            Style { bold: true, ..toned_style(Tone::Title) },
        ),
    );
    let second = match &state.current {
        Some(c) => line_of(
            cat4("Current: ", c.connection_id.as_str(), " · ", c.model_id.as_str()),
            Style { italic: true, ..toned_style(Tone::Pinned) },
        ),
        None => line_of(
            "Current: (none — daemon will use the interactive purpose default)".to_owned(),
            toned_style(Tone::TextDim),
        ),
    };
    push_line(&mut lines, second);
    assert(lines_view(lines@) =~= header_lines(state.current));
    lines
}

/// The spans of a row: a star for the current model, the connection, the model,
/// and its name where that says more.
pub open spec fn row_spans(
    current: Option<ConversationModelSelectionView>,
    row: ModelListing,
) -> Seq<(Seq<char>, Style)> {
    let mark = if is_current(current, row) {
        ("★ "@, toned(Tone::Pinned))
    } else {
        ("  "@, plain())
    };
    let head = seq![
        mark,
        (row.connection_label@, Style { bold: true, ..plain() }),
        ("  ·  "@, toned(Tone::HintSep)),
        (row.model.id@, plain()),
    ];
    if row.model.display_name@ != row.model.id@ {
        head.push(("  ("@ + row.model.display_name@ + ")"@, toned(Tone::TextDim)))
    } else {
        head
    }
}

fn draw_row(current: &Option<ConversationModelSelectionView>, row: &ModelListing) -> (line: Line)
    ensures
        line_view(line@) == row_spans(*current, *row),
{
    let mut line = if marks(current, row) {
        line_of("★ ".to_owned(), toned_style(Tone::Pinned))
    } else {
        line_of("  ".to_owned(), plain_style())
    };
    push_span(&mut line, row.connection_label.clone(), Style { bold: true, ..plain_style() });
    push_span(&mut line, "  ·  ".to_owned(), toned_style(Tone::HintSep));
    push_span(&mut line, row.model.id.clone(), plain_style());
    if !same(row.model.display_name.as_str(), row.model.id.as_str()) {
        push_span(
            &mut line,
            cat3("  (", row.model.display_name.as_str(), ")"),
            toned_style(Tone::TextDim),
        );
    }
    assert(line_view(line@) =~= row_spans(*current, *row));
    line
}

/// The rows of the list; a hint where it is empty.
pub open spec fn list_rows(
    models: Seq<ModelListing>,
    current: Option<ConversationModelSelectionView>,
) -> Seq<Seq<Seq<(Seq<char>, Style)>>> {
    if models.len() == 0 {
        seq![
            seq![
                seq![
                    ("(no models — configure connections via F3 first)"@, toned(Tone::TextDim)),
                ],
            ],
        ]
    } else {
        Seq::new(models.len(), |i: int| seq![row_spans(current, models[i])])
    }
}

/// The list as it is drawn.
pub fn draw_list(state: &State) -> (v: ListView)
    ensures
        v.title@ == list_title("Models"@, state.models@.len()),
        items_view(v.items@) == list_rows(state.models@, state.current),
        v.selected == shown_selection(state.selected, state.models@.len()),
{
    let mut items: Vec<Vec<Line>> = Vec::new();
    if state.models.len() == 0 {
        let line = line_of(
            "(no models — configure connections via F3 first)".to_owned(),
            toned_style(Tone::TextDim),
        );
        let mut lines: Vec<Line> = Vec::new();
        push_line(&mut lines, line);
        assert(lines_view(lines@) =~= list_rows(state.models@, state.current)[0]);
        items.push(lines);
    } else {
        let mut i: usize = 0;
        while i < state.models.len()
            invariant
                i <= state.models@.len(),
                items@.len() == i,
                forall|j: int|
                    0 <= j < i ==> lines_view((#[trigger] items@[j])@) == seq![
                        row_spans(state.current, state.models@[j]),
                    ],
            decreases state.models@.len() - i,
        {
            let mut lines: Vec<Line> = Vec::new();
            push_line(&mut lines, draw_row(&state.current, &state.models[i]));
            assert(lines_view(lines@) =~= seq![row_spans(state.current, state.models@[i as int])]);
            items.push(lines);
            i += 1;
        }
    }
    assert(items_view(items@) =~= list_rows(state.models@, state.current));
    ListView {
        title: title_of("Models", state.models.len()),
        items,
        selected: if state.models.len() == 0 {
            None
        } else {
            Some(state.selected)
        },
    }
}

/// The rectangle of the picker: in the middle of the screen, with a margin of
/// four columns and two rows on each side where the screen is small.
pub fn popup(area: Rect) -> (r: Rect)
    requires
        area.x + area.width <= u16::MAX,
        area.y + area.height <= u16::MAX,
    ensures
        r.width == lesser(80, less(area.width as int, 8)),
        r.height == lesser(24, less(area.height as int, 4)),
        r.x == area.x + (area.width - r.width) / 2,
        r.y == area.y + (area.height - r.height) / 2,
        area.x <= r.x && r.x + r.width <= area.x + area.width,
        area.y <= r.y && r.y + r.height <= area.y + area.height,
{
    let w_room: u16 = area.width.saturating_sub(8);
    let h_room: u16 = area.height.saturating_sub(4);
    let w: u16 = if 80 < w_room {
        80
    } else {
        w_room
    };
    let h: u16 = if 24 < h_room {
        24
    } else {
        h_room
    };
    Rect {
        x: area.x + (area.width - w) / 2,
        y: area.y + (area.height - h) / 2,
        width: w,
        height: h,
    }
}

/// The key hints.
pub fn hints() -> (h: Vec<(&'static str, &'static str)>)
    ensures
        h@ == seq![("Enter", "confirm"), ("r", "refresh"), ("Esc", "cancel")],
{
    vec![("Enter", "confirm"), ("r", "refresh"), ("Esc", "cancel")]
}

proof fn lemma_current_row(
    models: Seq<ModelListing>,
    current: Option<ConversationModelSelectionView>,
    from: int,
)
    requires
        0 <= from,
    ensures
        match current_row(models, current, from) {
            Some(i) => from <= i < models.len() && is_current(current, models[i]),
            None => forall|i: int|
                from <= i < models.len() ==> !is_current(current, #[trigger] models[i]),
        },
    decreases models.len() - from,
{
    if from < models.len() && !is_current(current, models[from]) {
        lemma_current_row(models, current, from + 1);
    }
}

/// When the list arrives, the conversation's model is selected if it is listed,
/// and the picker then confirms just that model.
pub proof fn law_current_model_is_preselected(state: State, key: KeyEvent, after: State, r: Request)
    requires
        exists|i: int| 0 <= i < state.models@.len() && is_current(state.current, #[trigger] state.models@[i]),
        state.models@.len() <= usize::MAX,
        pick_key(key) == PickKey::Confirm,
        key_step(state.seeded(), key, after, r),
    ensures
        state.seeded().selected < state.models@.len(),
        after.outcome matches Some(Outcome::Selected(o)) && o.connection_id@
            == state.current->0.connection_id@ && o.model_id@ == state.current->0.model_id@,
{
    lemma_current_row(state.models@, state.current, 0);
}

/// In the picker, the arrow keys go to the neighbouring row, Enter picks the selected
/// model, R has the daemon look the models up again, and Escape leaves without a choice.
/// No key changes the list or the conversation's model.
pub proof fn law_picker_keys(before: State, key: KeyEvent, after: State, r: Request)
    requires
        key_step(before, key, after, r),
        before.in_range(),
    ensures
        after.models == before.models,
        after.current == before.current,
        bare(key, KeyCode::Down) || bare(key, KeyCode::Char('j')) ==> after.selected == (
        if before.selected + 1 >= before.models@.len() {
            0
        } else {
            before.selected + 1
        }) && after.outcome == before.outcome,
        bare(key, KeyCode::Up) || bare(key, KeyCode::Char('k')) ==> after.selected == (
        if before.models@.len() == 0 {
            0
        } else if before.selected == 0 {
            before.models@.len() - 1
        } else {
            before.selected - 1
        }) && after.outcome == before.outcome,
        bare(key, KeyCode::Enter) && before.models@.len() > 0 ==> (after.outcome matches Some(
            Outcome::Selected(picked),
        ) && picked.connection_id == before.models@[before.selected as int].connection_id
            && picked.model_id == before.models@[before.selected as int].model.id
            && picked.effort is None),
        bare(key, KeyCode::Enter) && before.models@.len() == 0 ==> after == before,
        bare(key, KeyCode::Esc) || bare(key, KeyCode::Char('q')) ==> after.outcome == Some(
            Outcome::Cancelled,
        ),
        after.outcome != before.outcome ==> bare(key, KeyCode::Enter) || bare(key, KeyCode::Esc)
            || bare(key, KeyCode::Char('q')),
        r is Models <==> bare(key, KeyCode::Char('r')),
        r matches Request::Models(command) ==> (command matches Command::ListAvailableModels {
            connection_id,
            refresh,
        } && connection_id is None && refresh) && after.busy is Some,
{
    assert(before.models.len() == before.models@.len());
    if before.models@.len() > 0 {
        law_steps_lead_to_the_neighbour(before.selected as int, before.models@.len() as int);
    }
}

/// A model is the conversation's own exactly where both its connection and its id are;
/// without one, no row is marked.
pub proof fn law_marked_model_is_the_conversations(
    current: ConversationModelSelectionView,
    row: ModelListing,
)
    ensures
        is_current(Some(current), row) <==> row.connection_id@ == current.connection_id@
            && row.model.id@ == current.model_id@,
        !is_current(None, row),
        is_current(Some(current), row) <==> row_spans(Some(current), row)[0].0 == "★ "@,
{
    reveal_strlit("★ ");
    reveal_strlit("  ");
    assert("★ "@[0] != "  "@[0]);
}

/// The selection goes to the first row of the conversation's model and stays where it is
/// not listed; nothing else changes.
pub proof fn law_seeding_selects_the_current_model(state: State)
    ensures
        state.seeded().models == state.models,
        state.seeded().current == state.current,
        state.seeded().outcome == state.outcome,
        (exists|i: int|
            0 <= i < state.models@.len() && is_current(state.current, #[trigger] state.models@[i]))
            ==> state.seeded().selected < state.models@.len() && is_current(
            state.current,
            state.models@[state.seeded().selected as int],
        ),
        (forall|i: int|
            0 <= i < state.models@.len() ==> !is_current(state.current, #[trigger] state.models@[i]))
            ==> state.seeded() == state,
{
    lemma_current_row(state.models@, state.current, 0);
    assert(state.models.len() == state.models@.len());
}

/// The row of a model tells its connection, its id, and its name where that says more.
pub proof fn law_rows_tell_the_model(
    current: Option<ConversationModelSelectionView>,
    row: ModelListing,
)
    ensures
        holds_text(line_text(row_spans(current, row)), row.connection_label@),
        holds_text(line_text(row_spans(current, row)), row.model.id@),
        row.model.display_name@ != row.model.id@ ==> holds_text(
            line_text(row_spans(current, row)),
            row.model.display_name@,
        ),
        row.model.display_name@ == row.model.id@ ==> row_spans(current, row).len() == 4,
{
    let spans = row_spans(current, row);
    lemma_span_is_read(spans, 1);
    lemma_span_is_read(spans, 3);
    if row.model.display_name@ != row.model.id@ {
        law_text_is_held("  ("@, row.model.display_name@, ")"@);
        assert(spans[4].0 == "  ("@ + row.model.display_name@ + ")"@);
        lemma_span_tells(spans, 4, row.model.display_name@);
    }
}

/// The list has a row for each model, in order, or a hint where there is none.
pub proof fn law_every_model_has_a_row(
    models: Seq<ModelListing>,
    current: Option<ConversationModelSelectionView>,
    i: int,
)
    ensures
        models.len() > 0 ==> list_rows(models, current).len() == models.len(),
        models.len() == 0 ==> list_rows(models, current).len() == 1,
        0 <= i < models.len() ==> list_rows(models, current)[i].len() == 1 && holds_text(
            line_text(list_rows(models, current)[i][0]),
            models[i].model.id@,
        ),
{
    if 0 <= i < models.len() {
        law_rows_tell_the_model(current, models[i]);
    }
}

/// The header tells the conversation's model, connection and id, or that there is none.
pub proof fn law_header_tells_the_model(current: Option<ConversationModelSelectionView>)
    ensures
        header_lines(current).len() == 2,
        current matches Some(c) ==> holds_text(header_lines(current)[1][0].0, c.connection_id@)
            && holds_text(header_lines(current)[1][0].0, c.model_id@),
        current is None ==> holds_text(header_lines(current)[1][0].0, "none"@),
{
    match current {
        Some(c) => {
            let none = Seq::<char>::empty();
            let text = "Current: "@ + c.connection_id@ + " · "@ + c.model_id@;
            law_text_is_held("Current: "@, c.connection_id@, " · "@ + c.model_id@);
            assert("Current: "@ + c.connection_id@ + (" · "@ + c.model_id@) =~= text);
            law_text_is_held("Current: "@ + c.connection_id@ + " · "@, c.model_id@, none);
        },
        None => {
            reveal_strlit("Current: (none — daemon will use the interactive purpose default)");
            reveal_strlit("none");
            let text = header_lines(current)[1][0].0;
            assert(text.subrange(10, 14) =~= "none"@);
            assert(stands_at(text, "none"@, 10));
        },
    }
}

} // verus!
