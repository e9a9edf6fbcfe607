//! Managing LLM-provider connections: the form, the list and its keys.

use vstd::prelude::*;
use crate::api::Command;
#[allow(unused_imports)]
use crate::app::{empty_area, holds};
use crate::area::{field_content, new_textarea, press_key, textarea_with, Area};
#[allow(unused_imports)]
use crate::area::{area_lines, field_text, inserted_lines, pressed};
use crate::keys::{KeyCode, KeyEvent};
use crate::mcp::opt;
#[allow(unused_imports)]
use crate::mcp::given;
use crate::text::{cat2, cat3, cat4, contains, same, to_lower, trim};
#[allow(unused_imports)]
use crate::text::{
    holds_text, joined, law_held_text_is_held, law_text_is_held, lowered, opt_text, stands_at,
    trimmed,
};
use crate::view::{
    keep_selection, line_of, plain_style, push_chips, push_line, push_span, title_of, toned_style, turn,
    Line, ListView, Style, Tone,
};
#[allow(unused_imports)]
use crate::view::{
    chip_spans, field_after, field_before, items_view, kept_selection, lemma_span_is_read, line_text,
    line_view, lines_view, list_title, place_of, plain, shown_selection, toned, turned,
};

verus! {

/// The connectors that the form can build a connection for.
#[derive(Debug, Clone, Copy, PartialEq, Eq, Structural)]
pub enum ConnectorKind {
    Anthropic,
    OpenAi,
    Bedrock,
    Ollama,
}

impl ConnectorKind {
    pub open spec fn index(self) -> int {
        match self {
            ConnectorKind::Anthropic => 0,
            ConnectorKind::OpenAi => 1,
            ConnectorKind::Bedrock => 2,
            ConnectorKind::Ollama => 3,
        }
    }

    pub open spec fn tag_text(self) -> Seq<char> {
        match self {
            ConnectorKind::Anthropic => "anthropic"@,
            ConnectorKind::OpenAi => "openai"@,
            ConnectorKind::Bedrock => "bedrock"@,
            ConnectorKind::Ollama => "ollama"@,
        }
    }

    pub open spec fn label_text(self) -> Seq<char> {
        match self {
            ConnectorKind::Anthropic => "Anthropic"@,
            ConnectorKind::OpenAi => "OpenAI"@,
            ConnectorKind::Bedrock => "Bedrock"@,
            ConnectorKind::Ollama => "Ollama"@,
        }
    }

    pub fn label(self) -> (s: &'static str)
        ensures
            s@ == self.label_text(),
    {
        match self {
            ConnectorKind::Anthropic => "Anthropic",
            ConnectorKind::OpenAi => "OpenAI",
            ConnectorKind::Bedrock => "Bedrock",
            ConnectorKind::Ollama => "Ollama",
        }
    }

    /// The tag by which the daemon names the connector.
    pub fn tag(self) -> (s: &'static str)
        ensures
            s@ == self.tag_text(),
    {
        match self {
            ConnectorKind::Anthropic => "anthropic",
            ConnectorKind::OpenAi => "openai",
            ConnectorKind::Bedrock => "bedrock",
            ConnectorKind::Ollama => "ollama",
        }
    }

    /// The connector of a tag, where there is one.
    pub fn from_tag(tag: &str) -> (k: Option<Self>)
        ensures
            match k {
                Some(kind) => kind.tag_text() == tag@,
                None => forall|kind: ConnectorKind| kind.tag_text() != tag@,
            },
    {
        if same(tag, "anthropic") {
            Some(ConnectorKind::Anthropic)
        } else if same(tag, "openai") {
            Some(ConnectorKind::OpenAi)
        } else if same(tag, "bedrock") {
            Some(ConnectorKind::Bedrock)
        } else if same(tag, "ollama") {
            Some(ConnectorKind::Ollama)
        } else {
            None
        }
    }

    /// The next connector, in a circle.
    pub fn next(self) -> (k: Self)
        ensures
            k.index() == (self.index() + 1) % 4,
    {
        match self {
            ConnectorKind::Anthropic => ConnectorKind::OpenAi,
            ConnectorKind::OpenAi => ConnectorKind::Bedrock,
            ConnectorKind::Bedrock => ConnectorKind::Ollama,
            ConnectorKind::Ollama => ConnectorKind::Anthropic,
        }
    }

    /// The previous connector, in a circle.
    pub fn prev(self) -> (k: Self)
        ensures
            k.index() == (self.index() - 1) % 4,
    {
        match self {
            ConnectorKind::Anthropic => ConnectorKind::Ollama,
            ConnectorKind::OpenAi => ConnectorKind::Anthropic,
            ConnectorKind::Bedrock => ConnectorKind::OpenAi,
            ConnectorKind::Ollama => ConnectorKind::Bedrock,
        }
    }
}

/// Two connectors with the same tag are the same: a tag names one connector.
pub proof fn law_tags_are_distinct(a: ConnectorKind, b: ConnectorKind)
    requires
        a.tag_text() == b.tag_text(),
    ensures
        a == b,
{
    reveal_strlit("anthropic");
    reveal_strlit("openai");
    reveal_strlit("bedrock");
    reveal_strlit("ollama");
    assert("anthropic"@.len() == 9 && "openai"@.len() == 6 && "bedrock"@.len() == 7
        && "ollama"@.len() == 6);
    assert("openai"@[1] != "ollama"@[1]);
}

/// Stepping forward and back, or back and forward, gives the connector again.
pub proof fn law_next_and_prev_undo_each_other(a: ConnectorKind, b: ConnectorKind)
    ensures
        b.index() == (a.index() + 1) % 4 <==> a.index() == (b.index() - 1) % 4,
{
}

#[derive(Debug, PartialEq, Eq)]
pub enum ConnectionAvailability {
    Available,
    Unavailable { reason: String },
}

/// A connection as the daemon reports it.
#[derive(Debug, PartialEq, Eq)]
pub struct ConnectionView {
    pub id: String,
    pub connector_type: String,
    pub display_label: String,
    pub availability: ConnectionAvailability,
    pub has_credentials: bool,
}

/// The configuration of a connection. What the form does not ask for is left
/// to the daemon.
#[derive(Debug, PartialEq, Eq)]
pub enum ConnectionConfigView {
    Anthropic {
        base_url: Option<String>,
        api_key_env: Option<String>,
        connect_timeout_secs: Option<u64>,
        stream_timeout_secs: Option<u64>,
        max_context_tokens: Option<u64>,
    },
    OpenAi {
        base_url: Option<String>,
        api_key_env: Option<String>,
        connect_timeout_secs: Option<u64>,
        stream_timeout_secs: Option<u64>,
        max_context_tokens: Option<u64>,
    },
    Bedrock {
        aws_profile: Option<String>,
        region: Option<String>,
        base_url: Option<String>,
        connect_timeout_secs: Option<u64>,
        stream_timeout_secs: Option<u64>,
        max_context_tokens: Option<u64>,
    },
    Ollama {
        base_url: Option<String>,
        connect_timeout_secs: Option<u64>,
        stream_timeout_secs: Option<u64>,
        keep_warm: Option<bool>,
        max_context_tokens: Option<u64>,
    },
}

#[derive(Debug, Clone, Copy, PartialEq, Eq, Structural)]
pub enum Mode {
    List,
    Edit,
    DeleteConfirm,
}

#[derive(Debug, Clone, Copy, PartialEq, Eq, Structural)]
pub enum Field {
    Id,
    Type,
    ApiKeyEnv,
    BaseUrl,
    AwsProfile,
    Region,
}

/// The add/edit form.
pub struct EditForm {
    /// The connection that is edited; its id is fixed.
    pub editing_id: Option<String>,
    pub focus: Field,
    pub kind: ConnectorKind,
    pub id: Area,
    pub api_key_env: Area,
    pub base_url: Area,
    pub aws_profile: Area,
    pub region: Area,
}

/// The fields that a connector's form shows, in order.
pub open spec fn fields_of(kind: ConnectorKind) -> Seq<Field> {
    match kind {
        ConnectorKind::Anthropic => seq![
            Field::Id,
            Field::Type,
            Field::ApiKeyEnv,
            Field::BaseUrl,
        ],
        ConnectorKind::OpenAi => seq![Field::Id, Field::Type, Field::ApiKeyEnv, Field::BaseUrl],
        ConnectorKind::Bedrock => seq![
            Field::Id,
            Field::Type,
            Field::AwsProfile,
            Field::Region,
            Field::BaseUrl,
        ],
        ConnectorKind::Ollama => seq![Field::Id, Field::Type, Field::BaseUrl],
    }
}

fn place_in(fields: &Vec<Field>, f: Field) -> (i: usize)
    requires
        fields@.len() > 0,
    ensures
        i == place_of(fields@, f, 0),
        i < fields@.len(),
{
    let mut i: usize = 0;
    while i < fields.len()
        invariant
            fields@.len() > 0,
            i <= fields@.len(),
            place_of(fields@, f, 0) == place_of(fields@, f, i as int),
        decreases fields@.len() - i,
    {
        if fields[i] == f {
            return i;
        }
        i += 1;
    }
    0
}

/// A configuration that leaves to the daemon what the form does not ask for.
pub open spec fn config_matches(form: EditForm, config: ConnectionConfigView) -> bool {
    match config {
        ConnectionConfigView::Anthropic {
            base_url,
            api_key_env,
            connect_timeout_secs,
            stream_timeout_secs,
            max_context_tokens,
        } => {
            &&& form.kind == ConnectorKind::Anthropic
            &&& opt_text(base_url) == given(field_text(form.base_url))
            &&& opt_text(api_key_env) == given(field_text(form.api_key_env))
            &&& connect_timeout_secs is None
            &&& stream_timeout_secs is None
            &&& max_context_tokens is None
        },
        ConnectionConfigView::OpenAi {
            base_url,
            api_key_env,
            connect_timeout_secs,
            stream_timeout_secs,
            max_context_tokens,
        } => {
            &&& form.kind == ConnectorKind::OpenAi
            &&& opt_text(base_url) == given(field_text(form.base_url))
            &&& opt_text(api_key_env) == given(field_text(form.api_key_env))
            &&& connect_timeout_secs is None
            &&& stream_timeout_secs is None
            &&& max_context_tokens is None
        },
        ConnectionConfigView::Bedrock {
            aws_profile,
            region,
            base_url,
            connect_timeout_secs,
            stream_timeout_secs,
            max_context_tokens,
        } => {
            &&& form.kind == ConnectorKind::Bedrock
            &&& opt_text(aws_profile) == given(field_text(form.aws_profile))
            &&& opt_text(region) == given(field_text(form.region))
            &&& opt_text(base_url) == given(field_text(form.base_url))
            &&& connect_timeout_secs is None
            &&& stream_timeout_secs is None
            &&& max_context_tokens is None
        },
        ConnectionConfigView::Ollama {
            base_url,
            connect_timeout_secs,
            stream_timeout_secs,
            keep_warm,
            max_context_tokens,
        } => {
            &&& form.kind == ConnectorKind::Ollama
            &&& opt_text(base_url) == given(field_text(form.base_url))
            &&& connect_timeout_secs is None
            &&& stream_timeout_secs is None
            &&& keep_warm is None
            &&& max_context_tokens is None
        },
    }
}

fn given_text(area: &Area) -> (r: Option<String>)
    ensures
        opt_text(r) == given(field_text(*area)),
{
    let text = field_content(area);
    opt(text.as_str())
}

impl EditForm {
    /// Nothing is filled in but what identifies the connection.
    pub open spec fn options_blank(self) -> bool {
        empty_area(self.api_key_env) && empty_area(self.base_url) && empty_area(self.aws_profile)
            && empty_area(self.region)
    }

    /// The form for a new connection.
    pub open spec fn is_empty_form(self) -> bool {
        &&& self.editing_id is None
        &&& self.focus == Field::Id
        &&& self.kind == ConnectorKind::Anthropic
        &&& empty_area(self.id)
        &&& self.options_blank()
    }

    /// The form of an existing connection.
    pub open spec fn shows(self, view: ConnectionView) -> bool {
        &&& opt_text(self.editing_id) == Some(view.id@)
        &&& self.focus == Field::Id
        &&& holds(self.id, view.id@)
        &&& self.options_blank()
        &&& self.kind.tag_text() == view.connector_type@ || (self.kind == ConnectorKind::Anthropic
            && forall|k: ConnectorKind| k.tag_text() != view.connector_type@)
    }

    pub fn empty() -> (form: Self)
        ensures
            form.is_empty_form(),
    {
        EditForm {
            editing_id: None,
            focus: Field::Id,
            kind: ConnectorKind::Anthropic,
            id: new_textarea(),
            api_key_env: new_textarea(),
            base_url: new_textarea(),
            aws_profile: new_textarea(),
            region: new_textarea(),
        }
    }

    /// The form of an existing connection: its id and kind; the daemon does
    /// not say what else it was configured with.
    pub fn from_view(view: &ConnectionView) -> (form: Self)
        ensures
            form.shows(*view),
    {
        let kind = match ConnectorKind::from_tag(view.connector_type.as_str()) {
            Some(k) => k,
            None => ConnectorKind::Anthropic,
        };
        EditForm {
            editing_id: Some(view.id.clone()),
            focus: Field::Id,
            kind,
            id: textarea_with(view.id.as_str()),
            api_key_env: new_textarea(),
            base_url: new_textarea(),
            aws_profile: new_textarea(),
            region: new_textarea(),
        }
    }

    /// The fields that a connector's form shows.
    pub fn fields_for_kind(kind: ConnectorKind) -> (fields: Vec<Field>)
        ensures
            fields@ == fields_of(kind),
    {
        match kind {
            ConnectorKind::Anthropic | ConnectorKind::OpenAi => vec![
                Field::Id,
                Field::Type,
                Field::ApiKeyEnv,
                Field::BaseUrl,
            ],
            ConnectorKind::Bedrock => vec![
                Field::Id,
                Field::Type,
                Field::AwsProfile,
                Field::Region,
                Field::BaseUrl,
            ],
            ConnectorKind::Ollama => vec![Field::Id, Field::Type, Field::BaseUrl],
        }
    }

    pub fn next_field(&mut self)
        ensures
            *final(self) == (EditForm {
                focus: field_after(fields_of(old(self).kind), old(self).focus),
                ..*old(self)
            }),
    {
        let fields = EditForm::fields_for_kind(self.kind);
        let pos: usize = place_in(&fields, self.focus);
        let n: usize = fields.len();
        self.focus = fields[(pos + 1) % n];
    }

    pub fn prev_field(&mut self)
        ensures
            *final(self) == (EditForm {
                focus: field_before(fields_of(old(self).kind), old(self).focus),
                ..*old(self)
            }),
    {
        let fields = EditForm::fields_for_kind(self.kind);
        let pos: usize = place_in(&fields, self.focus);
        let n: usize = fields.len();
        self.focus = fields[(pos + n - 1) % n];
    }

    /// The id and configuration that the form describes.
    pub fn submit(&self) -> (r: Result<(String, ConnectionConfigView), String>)
        ensures
            match r {
                Ok((id, config)) => {
                    &&& id@ == trimmed(field_text(self.id))
                    &&& id@.len() > 0
                    &&& config_matches(*self, config)
                },
                Err(e) => trimmed(field_text(self.id)).len() == 0 && e@ == "Id is required"@,
            },
    {
        let text = field_content(&self.id);
        let id = trim(text.as_str());
        if id.as_str().is_empty() {
            return Err("Id is required".to_owned());
        }
        let config = match self.kind {
            ConnectorKind::Anthropic => ConnectionConfigView::Anthropic {
                base_url: given_text(&self.base_url),
                api_key_env: given_text(&self.api_key_env),
                connect_timeout_secs: None,
                stream_timeout_secs: None,
                max_context_tokens: None,
            },
            ConnectorKind::OpenAi => ConnectionConfigView::OpenAi {
                base_url: given_text(&self.base_url),
                api_key_env: given_text(&self.api_key_env),
                connect_timeout_secs: None,
                stream_timeout_secs: None,
                max_context_tokens: None,
            },
            ConnectorKind::Bedrock => ConnectionConfigView::Bedrock {
                aws_profile: given_text(&self.aws_profile),
                region: given_text(&self.region),
                base_url: given_text(&self.base_url),
                connect_timeout_secs: None,
                stream_timeout_secs: None,
                max_context_tokens: None,
            },
            ConnectorKind::Ollama => ConnectionConfigView::Ollama {
                base_url: given_text(&self.base_url),
                connect_timeout_secs: None,
                stream_timeout_secs: None,
                keep_warm: None,
                max_context_tokens: None,
            },
        };
        Ok((id, config))
    }

    /// Hands a key to the focused text field; no other field changes.
    pub fn press(&mut self, key: KeyEvent)
        ensures
            old(self).typed(key, *final(self)),
    {
        match self.focus {
            Field::Id => press_key(&mut self.id, key),
            Field::ApiKeyEnv => press_key(&mut self.api_key_env, key),
            Field::BaseUrl => press_key(&mut self.base_url, key),
            Field::AwsProfile => press_key(&mut self.aws_profile, key),
            Field::Region => press_key(&mut self.region, key),
            Field::Type => {},
        }
    }
}

/// A reply to a list request.
pub enum Listing {
    Rows(Vec<ConnectionView>),
    /// A reply of another kind, as it reads.
    Unexpected(String),
    Failed(String),
}

/// What a request to the daemon came to.
pub enum RpcOutcome {
    Listed(Listing),
    Saved(Result<(), String>),
    Deleted { force: bool, result: Result<(), String> },
}

/// What the screen asks the daemon for.
pub enum Request {
    Nothing,
    /// List the connections.
    Refresh,
    /// Create or update a connection.
    Save(Command),
    Delete { id: String, force: bool },
}

pub struct State {
    pub connections: Vec<ConnectionView>,
    pub selected: usize,
    pub mode: Mode,
    pub form: EditForm,
    pub error: Option<String>,
    pub busy: Option<String>,
    pub closing: bool,
}

/// What a key does in the list.
#[derive(Debug, Clone, Copy, PartialEq, Eq, Structural)]
pub enum ListKey {
    Close,
    Down,
    Up,
    Edit,
    New,
    Delete,
    Refresh,
    Other,
}

pub open spec fn list_key(key: KeyEvent) -> ListKey {
    if !key.modifiers.none() {
        ListKey::Other
    } else {
        match key.code {
            KeyCode::Esc => ListKey::Close,
            KeyCode::Down => ListKey::Down,
            KeyCode::Up => ListKey::Up,
            KeyCode::Enter => ListKey::Edit,
            KeyCode::Char(c) => match c {
                'q' => ListKey::Close,
                'j' => ListKey::Down,
                'k' => ListKey::Up,
                'e' => ListKey::Edit,
                'a' => ListKey::New,
                'd' => ListKey::Delete,
                'r' => ListKey::Refresh,
                _ => ListKey::Other,
            },
            _ => ListKey::Other,
        }
    }
}

fn list_key_of(key: KeyEvent) -> (k: ListKey)
    ensures
        k == list_key(key),
{
    if !key.modifiers.is_empty() {
        return ListKey::Other;
    }
    match key.code {
        KeyCode::Esc | KeyCode::Char('q') => ListKey::Close,
        KeyCode::Down | KeyCode::Char('j') => ListKey::Down,
        KeyCode::Up | KeyCode::Char('k') => ListKey::Up,
        KeyCode::Enter | KeyCode::Char('e') => ListKey::Edit,
        KeyCode::Char('a') => ListKey::New,
        KeyCode::Char('d') => ListKey::Delete,
        KeyCode::Char('r') => ListKey::Refresh,
        _ => ListKey::Other,
    }
}

impl State {
    /// The selection is in the list; 0 in an empty list.
    pub open spec fn in_range(self) -> bool {
        self.selected < self.connections@.len() || (self.selected == 0 && self.connections@.len()
            == 0)
    }

    /// A row is selected.
    pub open spec fn has_selection(self) -> bool {
        self.selected < self.connections@.len()
    }

    /// The state with another selection.
    pub open spec fn moved(self, down: bool) -> State {
        if self.connections@.len() == 0 {
            self
        } else {
            State {
                selected: turned(self.selected as int, self.connections@.len() as int, down) as usize,
                ..self
            }
        }
    }

    /// The state in which the screen opens: an empty list that is being loaded.
    pub fn new() -> (s: Self)
        ensures
            s.connections@.len() == 0,
            s.selected == 0,
            s.mode == Mode::List,
            s.form.is_empty_form(),
            s.error is None,
            opt_text(s.busy) == Some("Loading connections..."@),
            !s.closing,
            s.in_range(),
    {
        State {
            connections: Vec::new(),
            selected: 0,
            mode: Mode::List,
            form: EditForm::empty(),
            error: None,
            busy: Some("Loading connections...".to_owned()),
            closing: false,
        }
    }
}

/// Moves the selection one row down or up, in a circle.
pub fn advance_selection(state: &mut State, down: bool)
    ensures
        *final(state) == old(state).moved(down),
        old(state).in_range() ==> final(state).in_range(),
{
    let len: usize = state.connections.len();
    if len > 0 {
        state.selected = turn(state.selected, len, down);
    }
}

/// Asks for the list.
pub fn refresh_list(state: &mut State) -> (r: Request)
    ensures
        r is Refresh,
        *final(state) == (State { busy: final(state).busy, ..*old(state) }),
        opt_text(final(state).busy) == Some("Loading connections..."@),
{
    state.busy = Some("Loading connections...".to_owned());
    Request::Refresh
}

/// What a key in the list leads to.
pub open spec fn list_step(before: State, key: KeyEvent, after: State, r: Request) -> bool {
    &&& r is Nothing <==> list_key(key) != ListKey::Refresh
    &&& match list_key(key) {
            ListKey::Close => after == (State { closing: true, ..before }),
            ListKey::Down => after == before.moved(true),
            ListKey::Up => after == before.moved(false),
            ListKey::Edit => if before.has_selection() {
                &&& after == (State {
                    form: after.form,
                    error: None,
                    mode: Mode::Edit,
                    ..before
                })
                &&& after.form.shows(before.connections@[before.selected as int])
            } else {
                after == before
            },
            ListKey::New => {
                &&& after == (State {
                    form: after.form,
                    error: None,
                    mode: Mode::Edit,
                    ..before
                })
                &&& after.form.is_empty_form()
            },
            ListKey::Delete => after == (State {
                mode: if before.has_selection() {
                    Mode::DeleteConfirm
                } else {
                    before.mode
                },
                ..before
            }),
            ListKey::Refresh => {
                &&& r is Refresh
                &&& after == (State { busy: after.busy, ..before })
                &&& opt_text(after.busy) == Some("Loading connections..."@)
            },
            ListKey::Other => after == before,
        }
}

/// A key in the list.
pub fn handle_list_key(state: &mut State, key: KeyEvent) -> (r: Request)
    ensures
        old(state).in_range() ==> final(state).in_range(),
        list_step(*old(state), key, *final(state), r),
{
    match list_key_of(key) {
        ListKey::Close => {
            state.closing = true;
        },
        ListKey::Down => advance_selection(state, true),
        ListKey::Up => advance_selection(state, false),
        ListKey::Edit => {
            if state.selected < state.connections.len() {
                state.form = EditForm::from_view(&state.connections[state.selected]);
                state.error = None;
                state.mode = Mode::Edit;
            }
        },
        ListKey::New => {
            state.form = EditForm::empty();
            state.error = None;
            state.mode = Mode::Edit;
        },
        ListKey::Delete => {
            if state.selected < state.connections.len() {
                state.mode = Mode::DeleteConfirm;
            }
        },
        ListKey::Refresh => {
            return refresh_list(state);
        },
        ListKey::Other => {},
    }
    Request::Nothing
}

/// What a save sends: an update of the edited connection, else a new one.
pub open spec fn saves(form: EditForm, command: Command) -> bool {
    match command {
        Command::UpdateConnection { id, config } => opt_text(form.editing_id) == Some(id@)
            && config_matches(form, config),
        Command::CreateConnection { id, config } => form.editing_id is None && id@ == trimmed(
            field_text(form.id),
        ) && config_matches(form, config),
        _ => false,
    }
}

/// Checks the form and asks for it to be saved.
pub fn save_edit(state: &mut State) -> (r: Request)
    ensures
        if trimmed(field_text(old(state).form.id)).len() == 0 {
            &&& r is Nothing
            &&& *final(state) == (State { error: final(state).error, ..*old(state) })
            &&& opt_text(final(state).error) == Some("Id is required"@)
        } else {
            &&& r matches Request::Save(command)
            &&& saves(old(state).form, command)
            &&& *final(state) == (State { busy: final(state).busy, ..*old(state) })
            &&& opt_text(final(state).busy) == Some("Saving..."@)
        },
{
    match state.form.submit() {
        Ok((id, config)) => {
            state.busy = Some("Saving...".to_owned());
            let command = match &state.form.editing_id {
                Some(existing) => Command::UpdateConnection { id: existing.clone(), config },
                None => Command::CreateConnection { id, config },
            };
            Request::Save(command)
        },
        Err(e) => {
            state.error = Some(e);
            Request::Nothing
        },
    }
}

/// What a key does in the form.
#[derive(Debug, Clone, Copy, PartialEq, Eq, Structural)]
pub enum EditKey {
    Save,
    Cancel,
    NextField,
    PrevField,
    /// Choose the next or previous connector.
    Cycle { back: bool },
    /// Goes to the focused text field.
    Text,
}

pub open spec fn edit_key(key: KeyEvent, focus: Field) -> EditKey {
    if key.modifiers.control && key.code == KeyCode::Char('s') {
        EditKey::Save
    } else {
        match key.code {
            KeyCode::Esc => EditKey::Cancel,
            KeyCode::Tab => EditKey::NextField,
            KeyCode::BackTab => EditKey::PrevField,
            _ => if focus == Field::Type && (key.code == KeyCode::Left || key.code
                == KeyCode::Right || key.code == KeyCode::Char(' ')) {
                EditKey::Cycle { back: key.code == KeyCode::Left }
            } else {
                EditKey::Text
            },
        }
    }
}

fn edit_key_of(key: KeyEvent, focus: Field) -> (k: EditKey)
    ensures
        k == edit_key(key, focus),
{
    if key.modifiers.control && key.code == KeyCode::Char('s') {
        return EditKey::Save;
    }
    match key.code {
        KeyCode::Esc => EditKey::Cancel,
        KeyCode::Tab => EditKey::NextField,
        KeyCode::BackTab => EditKey::PrevField,
        KeyCode::Left if focus == Field::Type => EditKey::Cycle { back: true },
        KeyCode::Right if focus == Field::Type => EditKey::Cycle { back: false },
        KeyCode::Char(' ') if focus == Field::Type => EditKey::Cycle { back: false },
        _ => EditKey::Text,
    }
}

/// What a key in the form leads to.
pub open spec fn edit_step(before: State, key: KeyEvent, after: State, r: Request) -> bool {
    &&& edit_key(key, before.form.focus) != EditKey::Save ==> r is Nothing
    &&& match edit_key(key, before.form.focus) {
            EditKey::Save => if trimmed(field_text(before.form.id)).len() == 0 {
                &&& r is Nothing
                &&& after == (State { error: after.error, ..before })
                &&& opt_text(after.error) == Some("Id is required"@)
            } else {
                &&& r matches Request::Save(command)
                &&& saves(before.form, command)
                &&& after == (State { busy: after.busy, ..before })
                &&& opt_text(after.busy) == Some("Saving..."@)
            },
            EditKey::Cancel => {
                &&& after == (State {
                    error: None,
                    form: after.form,
                    mode: Mode::List,
                    ..before
                })
                &&& after.form.is_empty_form()
            },
            EditKey::NextField => after == (State {
                form: EditForm {
                    focus: field_after(fields_of(before.form.kind), before.form.focus),
                    ..before.form
                },
                ..before
            }),
            EditKey::PrevField => after == (State {
                form: EditForm {
                    focus: field_before(fields_of(before.form.kind), before.form.focus),
                    ..before.form
                },
                ..before
            }),
            EditKey::Cycle { back } => if before.form.editing_id is Some {
                &&& after == (State { error: after.error, ..before })
                &&& opt_text(after.error) == Some(
                    "Type can't be changed on edit — delete and add a new connection"@,
                )
            } else {
                &&& after == (State {
                    form: EditForm { kind: after.form.kind, ..before.form },
                    ..before
                })
                &&& after.form.kind.index() == (if back {
                    (before.form.kind.index() - 1) % 4
                } else {
                    (before.form.kind.index() + 1) % 4
                })
            },
            EditKey::Text => if before.form.focus == Field::Id && before.form.editing_id is Some {
                &&& after == (State { error: after.error, ..before })
                &&& opt_text(after.error) == Some("Id is immutable on edit"@)
            } else {
                &&& after == (State { form: after.form, ..before })
                &&& before.form.typed(key, after.form)
            },
        }
}

/// A key in the form.
pub fn handle_edit_key(state: &mut State, key: KeyEvent) -> (r: Request)
    ensures
        old(state).in_range() ==> final(state).in_range(),
        edit_step(*old(state), key, *final(state), r),
{
    match edit_key_of(key, state.form.focus) {
        EditKey::Save => {
            return save_edit(state);
        },
        EditKey::Cancel => {
            state.error = None;
            state.form = EditForm::empty();
            state.mode = Mode::List;
        },
        EditKey::NextField => state.form.next_field(),
        EditKey::PrevField => state.form.prev_field(),
        EditKey::Cycle { back } => {
            if state.form.editing_id.is_none() {
                state.form.kind = if back {
                    state.form.kind.prev()
                } else {
                    state.form.kind.next()
                };
            } else {
                state.error = Some(
                    "Type can't be changed on edit — delete and add a new connection".to_owned(),
                );
            }
        },
        EditKey::Text => {
            let locked: bool = state.form.focus == Field::Id && state.form.editing_id.is_some();
            if locked {
                state.error = Some("Id is immutable on edit".to_owned());
            } else {
                state.form.press(key);
            }
        },
    }
    Request::Nothing
}

impl EditForm {
    /// The field of an area after a key went to the form.
    pub open spec fn field_typed(self, field: Field, before: Area, key: KeyEvent, after: Area) -> bool {
        if self.focus == field {
            pressed(before, key, after)
        } else {
            after == before
        }
    }

    /// The form after a key went to the focused text field.
    pub open spec fn typed(self, key: KeyEvent, other: EditForm) -> bool {
        &&& other == (EditForm {
            id: other.id,
            api_key_env: other.api_key_env,
            base_url: other.base_url,
            aws_profile: other.aws_profile,
            region: other.region,
            ..self
        })
        &&& self.field_typed(Field::Id, self.id, key, other.id)
        &&& self.field_typed(Field::ApiKeyEnv, self.api_key_env, key, other.api_key_env)
        &&& self.field_typed(Field::BaseUrl, self.base_url, key, other.base_url)
        &&& self.field_typed(Field::AwsProfile, self.aws_profile, key, other.aws_profile)
        &&& self.field_typed(Field::Region, self.region, key, other.region)
    }
}

/// Asks for the selected connection to be deleted.
pub fn do_delete(state: &mut State, force: bool) -> (r: Request)
    ensures
        if old(state).has_selection() {
            &&& r matches Request::Delete { id, force: f }
            &&& id@ == old(state).connections@[old(state).selected as int].id@
            &&& f == force
            &&& *final(state) == (State { busy: final(state).busy, ..*old(state) })
            &&& opt_text(final(state).busy) == Some(
                if force {
                    "Deleting (force)..."@
                } else {
                    "Deleting..."@
                },
            )
        } else {
            &&& r is Nothing
            &&& *final(state) == (State { mode: Mode::List, ..*old(state) })
        },
{
    if state.selected >= state.connections.len() {
        state.mode = Mode::List;
        return Request::Nothing;
    }
    state.busy = Some(
        (if force {
            "Deleting (force)..."
        } else {
            "Deleting..."
        }).to_owned(),
    );
    Request::Delete { id: state.connections[state.selected].id.clone(), force }
}

/// Whether a key confirms a deletion, and whether it forces it.
pub open spec fn delete_key(code: KeyCode) -> Option<bool> {
    match code {
        KeyCode::Enter => Some(false),
        KeyCode::Char(c) => if c == 'y' || c == 'Y' {
            Some(false)
        } else if c == 'f' || c == 'F' {
            Some(true)
        } else {
            None
        },
        _ => None,
    }
}

/// What a key in the delete confirmation leads to.
pub open spec fn delete_step(before: State, key: KeyEvent, after: State, r: Request) -> bool {
    &&& match delete_key(key.code) {
            Some(force) if before.has_selection() => {
                &&& r matches Request::Delete { id, force: f }
                &&& id@ == before.connections@[before.selected as int].id@
                &&& f == force
                &&& after == (State { busy: after.busy, ..before })
                &&& opt_text(after.busy) == Some(
                    if force {
                        "Deleting (force)..."@
                    } else {
                        "Deleting..."@
                    },
                )
            },
            _ => r is Nothing && after == (State { mode: Mode::List, ..before }),
        }
}

/// A key in the delete confirmation: every key but a confirming one cancels.
pub fn handle_delete_key(state: &mut State, key: KeyEvent) -> (r: Request)
    ensures
        old(state).in_range() ==> final(state).in_range(),
        delete_step(*old(state), key, *final(state), r),
{
    match key.code {
        KeyCode::Char('y') | KeyCode::Char('Y') | KeyCode::Enter => do_delete(state, false),
        KeyCode::Char('f') | KeyCode::Char('F') => do_delete(state, true),
        _ => {
            state.mode = Mode::List;
            Request::Nothing
        },
    }
}

/// A key in any mode.
pub fn handle_key(state: &mut State, key: KeyEvent) -> (r: Request)
    ensures
        old(state).in_range() ==> final(state).in_range(),
        match old(state).mode {
            Mode::List => list_step(*old(state), key, *final(state), r),
            Mode::Edit => edit_step(*old(state), key, *final(state), r),
            Mode::DeleteConfirm => delete_step(*old(state), key, *final(state), r),
        },
{
    match state.mode {
        Mode::List => handle_list_key(state, key),
        Mode::Edit => handle_edit_key(state, key),
        Mode::DeleteConfirm => handle_delete_key(state, key),
    }
}

/// The daemon refused because purposes still refer to the connection.
pub open spec fn purposes_refer(message: Seq<char>) -> bool {
    holds_text(lowered(message), "purpose"@)
}

/// The state that an outcome leads to differs from `before` in what the
/// outcome brought.
pub open spec fn applied(before: State, outcome: RpcOutcome, after: State, r: Request) -> bool {
    match outcome {
        RpcOutcome::Listed(Listing::Rows(rows)) => {
            &&& r is Nothing
            &&& after == (State {
                connections: rows,
                selected: kept_selection(before.selected as int, rows@.len() as int) as usize,
                busy: None,
                ..before
            })
        },
        RpcOutcome::Listed(Listing::Unexpected(what)) => {
            &&& r is Nothing
            &&& after == (State { busy: None, error: after.error, ..before })
            &&& opt_text(after.error) == Some("Unexpected response: "@ + what@)
        },
        RpcOutcome::Listed(Listing::Failed(e)) => {
            &&& r is Nothing
            &&& after == (State { busy: None, error: after.error, ..before })
            &&& opt_text(after.error) == Some("Failed to load connections: "@ + e@)
        },
        RpcOutcome::Saved(Ok(_)) => {
            &&& r is Refresh
            &&& after == (State {
                error: None,
                form: after.form,
                mode: Mode::List,
                busy: after.busy,
                ..before
            })
            &&& after.form.is_empty_form()
            &&& opt_text(after.busy) == Some("Loading connections..."@)
        },
        RpcOutcome::Saved(Err(e)) => {
            &&& r is Nothing
            &&& after == (State { busy: None, error: after.error, ..before })
            &&& opt_text(after.error) == Some("Save failed: "@ + e@)
        },
        RpcOutcome::Deleted { force, result: Ok(_) } => {
            &&& r is Refresh
            &&& after == (State { mode: Mode::List, busy: after.busy, ..before })
            &&& opt_text(after.busy) == Some("Loading connections..."@)
        },
        RpcOutcome::Deleted { force, result: Err(e) } => if !force && purposes_refer(e@) {
            &&& r is Nothing
            &&& after == (State { busy: None, error: after.error, ..before })
            &&& opt_text(after.error) == Some(e@ + " — press 'f' to force"@)
        } else {
            &&& r is Nothing
            &&& after == (State { busy: None, error: after.error, mode: Mode::List, ..before })
            &&& opt_text(after.error) == Some("Delete failed: "@ + e@)
        },
    }
}

/// Applies what a request came to; a save or deletion is followed by a fresh
/// list.
pub fn apply_outcome(state: &mut State, outcome: RpcOutcome) -> (r: Request)
    ensures
        applied(*old(state), outcome, *final(state), r),
        old(state).in_range() ==> final(state).in_range(),
{
    state.busy = None;
    match outcome {
        RpcOutcome::Listed(Listing::Rows(rows)) => {
            state.selected = keep_selection(state.selected, rows.len());
            state.connections = rows;
        },
        RpcOutcome::Listed(Listing::Unexpected(what)) => {
            state.error = Some(cat2("Unexpected response: ", what.as_str()));
        },
        RpcOutcome::Listed(Listing::Failed(e)) => {
            state.error = Some(cat2("Failed to load connections: ", e.as_str()));
        },
        RpcOutcome::Saved(Ok(_)) => {
            state.error = None;
            state.form = EditForm::empty();
            state.mode = Mode::List;
            return refresh_list(state);
        },
        RpcOutcome::Saved(Err(e)) => {
            state.error = Some(cat2("Save failed: ", e.as_str()));
        },
        RpcOutcome::Deleted { force, result: Ok(_) } => {
            state.mode = Mode::List;
            return refresh_list(state);
        },
        RpcOutcome::Deleted { force, result: Err(e) } => {
            let low = to_lower(e.as_str());
            if !force && contains(low.as_str(), "purpose") {
                state.error = Some(cat2(e.as_str(), " — press 'f' to force"));
            } else {
                state.error = Some(cat2("Delete failed: ", e.as_str()));
                state.mode = Mode::List;
            }
        },
    }
    Request::Nothing
}

/// The error where the transport has no command channel.
pub fn commands_unavailable() -> (s: &'static str)
    ensures
        s@
            == "Connection management isn't available over D-Bus — switch transport with --transport ws or the local socket"@,
{
    "Connection management isn't available over D-Bus — switch transport with --transport ws or the local socket"
}

pub open spec fn reason_of(a: ConnectionAvailability) -> Option<Seq<char>> {
    match a {
        ConnectionAvailability::Available => None,
        ConnectionAvailability::Unavailable { reason } => Some(reason@),
    }
}

pub open spec fn bold() -> Style {
    Style { bold: true, ..plain() }
}

/// The spans of a connection's row: a dot for its availability, its id and
/// connector, its label where that says more, and why it is unavailable.
pub open spec fn row_spans(c: ConnectionView) -> Seq<(Seq<char>, Style)> {
    let reason = reason_of(c.availability);
    let usual = c.id@ + " ("@ + c.connector_type@ + ")"@;
    let head = seq![
        (
            "●"@,
            toned(
                if reason is None {
                    Tone::Good
                } else {
                    Tone::Error
                },
            ),
        ),
        (" "@, plain()),
        (c.id@, bold()),
        (" ["@ + c.connector_type@ + "]"@, toned(Tone::TextDim)),
    ];
    let label = if c.display_label@ != usual {
        seq![("  ·  "@ + c.display_label@, toned(Tone::TextDim))]
    } else {
        Seq::<(Seq<char>, Style)>::empty()
    };
    let why = match reason {
        Some(r) => seq![("  ·  "@ + r, Style { italic: true, ..toned(Tone::Error) })],
        None => Seq::<(Seq<char>, Style)>::empty(),
    };
    head + label + why
}

fn draw_row(c: &ConnectionView) -> (line: Line)
    ensures
        line_view(line@) == row_spans(*c),
{
    let mut line: Line = Vec::new();
    let tone = match &c.availability {
        ConnectionAvailability::Available => Tone::Good,
        ConnectionAvailability::Unavailable { .. } => Tone::Error,
    };
    push_span(&mut line, "●".to_owned(), toned_style(tone));
    push_span(&mut line, " ".to_owned(), plain_style());
    push_span(&mut line, c.id.clone(), Style { bold: true, ..plain_style() });
    push_span(&mut line, cat3(" [", c.connector_type.as_str(), "]"), toned_style(Tone::TextDim));
    let usual = cat4(c.id.as_str(), " (", c.connector_type.as_str(), ")");
    if !same(c.display_label.as_str(), usual.as_str()) {
        push_span(&mut line, cat2("  ·  ", c.display_label.as_str()), toned_style(Tone::TextDim));
    }
    match &c.availability {
        ConnectionAvailability::Unavailable { reason } => {
            push_span(
                &mut line,
                cat2("  ·  ", reason.as_str()),
                Style { italic: true, ..toned_style(Tone::Error) },
            );
        },
        ConnectionAvailability::Available => {},
    }
    assert(line_view(line@) =~= row_spans(*c));
    line
}

/// The rows of the list; a hint where it is empty.
pub open spec fn list_rows(connections: Seq<ConnectionView>) -> Seq<
    Seq<Seq<(Seq<char>, Style)>>,
> {
    if connections.len() == 0 {
        seq![seq![seq![("(no connections — press 'a' to add one)"@, toned(Tone::TextDim))]]]
    } else {
        Seq::new(connections.len(), |i: int| seq![row_spans(connections[i])])
    }
}

/// The list as it is drawn.
pub fn draw_list(state: &State) -> (v: ListView)
    ensures
        v.title@ == list_title("Connections"@, state.connections@.len()),
        items_view(v.items@) == list_rows(state.connections@),
        v.selected == shown_selection(state.selected, state.connections@.len()),
{
    let mut items: Vec<Vec<Line>> = Vec::new();
    if state.connections.len() == 0 {
        let line = line_of(
            "(no connections — press 'a' to add one)".to_owned(),
            toned_style(Tone::TextDim),
        );
        let mut lines: Vec<Line> = Vec::new();
        push_line(&mut lines, line);
        assert(lines_view(lines@) =~= list_rows(state.connections@)[0]);
        items.push(lines);
    } else {
        let mut i: usize = 0;
        while i < state.connections.len()
            invariant
                i <= state.connections@.len(),
                items@.len() == i,
                forall|j: int|
                    0 <= j < i ==> lines_view((#[trigger] items@[j])@) == seq![
                        row_spans(state.connections@[j]),
                    ],
            decreases state.connections@.len() - i,
        {
            let mut lines: Vec<Line> = Vec::new();
            push_line(&mut lines, draw_row(&state.connections[i]));
            assert(lines_view(lines@) =~= seq![row_spans(state.connections@[i as int])]);
            items.push(lines);
            i += 1;
        }
    }
    assert(items_view(items@) =~= list_rows(state.connections@));
    ListView {
        title: title_of("Connections", state.connections.len()),
        items,
        selected: if state.connections.len() == 0 {
            None
        } else {
            Some(state.selected)
        },
    }
}

/// The label of a form field.
pub open spec fn field_label(form: EditForm, field: Field) -> Seq<char> {
    let editing = form.editing_id is Some;
    match field {
        Field::Id => if editing {
            "Id (immutable)"@
        } else {
            "Id (slug; lowercase, no spaces)"@
        },
        Field::Type => if editing {
            "Type"@ + " — locked on edit"@
        } else {
            "Type"@ + " (←/→ or Space to cycle)"@
        },
        Field::ApiKeyEnv => "API key env var name (e.g. ANTHROPIC_API_KEY)"@,
        Field::BaseUrl => "Base URL (optional)"@,
        Field::AwsProfile => "AWS profile (optional)"@,
        Field::Region => "AWS region (e.g. us-east-1)"@,
    }
}

/// The title of the form.
pub fn form_title(form: &EditForm) -> (s: &'static str)
    ensures
        s@ == (if form.editing_id is Some {
            "Edit connection"@
        } else {
            "New connection"@
        }),
{
    if form.editing_id.is_some() {
        "Edit connection"
    } else {
        "New connection"
    }
}

/// The fields that are drawn, each with its label and whether it has the
/// focus.
pub fn draw_edit_form(form: &EditForm) -> (rows: Vec<(Field, String, bool)>)
    ensures
        rows@.len() == fields_of(form.kind).len(),
        forall|i: int|
            0 <= i < rows@.len() ==> {
                let field = fields_of(form.kind)[i];
                &&& (#[trigger] rows@[i]).0 == field
                &&& rows@[i].1@ == field_label(*form, field)
                &&& rows@[i].2 == (form.focus == field)
            },
{
    let fields = EditForm::fields_for_kind(form.kind);
    let editing: bool = form.editing_id.is_some();
    let mut rows: Vec<(Field, String, bool)> = Vec::new();
    let mut i: usize = 0;
    while i < fields.len()
        invariant
            fields@ == fields_of(form.kind),
            editing == form.editing_id is Some,
            i <= fields@.len(),
            rows@.len() == i,
            forall|j: int|
                0 <= j < i ==> {
                    let field = fields@[j];
                    &&& (#[trigger] rows@[j]).0 == field
                    &&& rows@[j].1@ == field_label(*form, field)
                    &&& rows@[j].2 == (form.focus == field)
                },
        decreases fields@.len() - i,
    {
        let field = fields[i];
        let label = match field {
            Field::Id => (if editing {
                "Id (immutable)"
            } else {
                "Id (slug; lowercase, no spaces)"
            }).to_owned(),
            Field::Type => cat2(
                "Type",
                if editing {
                    " — locked on edit"
                } else {
                    " (←/→ or Space to cycle)"
                },
            ),
            Field::ApiKeyEnv => "API key env var name (e.g. ANTHROPIC_API_KEY)".to_owned(),
            Field::BaseUrl => "Base URL (optional)".to_owned(),
            Field::AwsProfile => "AWS profile (optional)".to_owned(),
            Field::Region => "AWS region (e.g. us-east-1)".to_owned(),
        };
        rows.push((field, label, form.focus == field));
        i += 1;
    }
    rows
}

/// The connector chips, the chosen one active.
pub open spec fn kind_chips(kind: ConnectorKind) -> Seq<(&'static str, bool)> {
    seq![
        ("Anthropic", kind == ConnectorKind::Anthropic),
        ("OpenAI", kind == ConnectorKind::OpenAi),
        ("Bedrock", kind == ConnectorKind::Bedrock),
        ("Ollama", kind == ConnectorKind::Ollama),
    ]
}

/// The connector selector as it is drawn.
pub fn draw_type_toggle(kind: ConnectorKind) -> (line: Line)
    ensures
        line_view(line@) == chip_spans(kind_chips(kind)),
{
    let chips: Vec<(&'static str, bool)> = vec![
        ("Anthropic", kind == ConnectorKind::Anthropic),
        ("OpenAI", kind == ConnectorKind::OpenAi),
        ("Bedrock", kind == ConnectorKind::Bedrock),
        ("Ollama", kind == ConnectorKind::Ollama),
    ];
    assert(chips@ =~= kind_chips(kind));
    let mut line: Line = Vec::new();
    push_chips(&mut line, &chips);
    assert(line_view(line@) =~= chip_spans(kind_chips(kind)));
    line
}

/// The question of the delete confirmation.
pub fn delete_question(state: &State) -> (s: String)
    ensures
        s@ == "Delete \""@ + (if state.has_selection() {
            state.connections@[state.selected as int].id@
        } else {
            "this connection"@
        }) + "\"?"@,
{
    if state.selected < state.connections.len() {
        cat3("Delete \"", state.connections[state.selected].id.as_str(), "\"?")
    } else {
        cat3("Delete \"", "this connection", "\"?")
    }
}

/// The key hints of a mode.
pub fn hints(mode: Mode) -> (h: Vec<(&'static str, &'static str)>)
    ensures
        h@ == (match mode {
            Mode::List => seq![
                ("Enter", "edit"),
                ("a", "add"),
                ("d", "delete"),
                ("r", "refresh"),
                ("Esc", "back to chat"),
            ],
            Mode::Edit => seq![("Tab", "next field"), ("Ctrl+S", "save"), ("Esc", "cancel")],
            Mode::DeleteConfirm => seq![("y/Enter", "confirm"), ("f", "force"), ("any", "cancel")],
        }),
{
    match mode {
        Mode::List => vec![
            ("Enter", "edit"),
            ("a", "add"),
            ("d", "delete"),
            ("r", "refresh"),
            ("Esc", "back to chat"),
        ],
        Mode::Edit => vec![("Tab", "next field"), ("Ctrl+S", "save"), ("Esc", "cancel")],
        Mode::DeleteConfirm => vec![("y/Enter", "confirm"), ("f", "force"), ("any", "cancel")],
    }
}

impl EditForm {
    /// The text area of a field; the connector is chosen, not typed.
    pub open spec fn input(self, field: Field) -> Option<Area> {
        match field {
            Field::Id => Some(self.id),
            Field::ApiKeyEnv => Some(self.api_key_env),
            Field::BaseUrl => Some(self.base_url),
            Field::AwsProfile => Some(self.aws_profile),
            Field::Region => Some(self.region),
            Field::Type => None,
        }
    }
}

/// What a configuration says for a field of the form.
pub open spec fn config_member(config: ConnectionConfigView, field: Field) -> Option<Seq<char>> {
    match (config, field) {
        (ConnectionConfigView::Anthropic { api_key_env, .. }, Field::ApiKeyEnv) => opt_text(
            api_key_env,
        ),
        (ConnectionConfigView::Anthropic { base_url, .. }, Field::BaseUrl) => opt_text(base_url),
        (ConnectionConfigView::OpenAi { api_key_env, .. }, Field::ApiKeyEnv) => opt_text(
            api_key_env,
        ),
        (ConnectionConfigView::OpenAi { base_url, .. }, Field::BaseUrl) => opt_text(base_url),
        (ConnectionConfigView::Bedrock { aws_profile, .. }, Field::AwsProfile) => opt_text(
            aws_profile,
        ),
        (ConnectionConfigView::Bedrock { region, .. }, Field::Region) => opt_text(region),
        (ConnectionConfigView::Bedrock { base_url, .. }, Field::BaseUrl) => opt_text(base_url),
        (ConnectionConfigView::Ollama { base_url, .. }, Field::BaseUrl) => opt_text(base_url),
        _ => None,
    }
}

/// Every field that the form shows reaches the configuration that is saved: its text
/// without white space around it, and nothing where there is no text. The
/// configuration is of the chosen connector.
pub proof fn law_shown_fields_are_saved(form: EditForm, config: ConnectionConfigView, field: Field)
    requires
        config_matches(form, config),
    ensures
        fields_of(form.kind).contains(field) ==> (form.input(field) matches Some(area) ==> (field
            != Field::Id ==> config_member(config, field) == (if trimmed(field_text(area)).len()
            > 0 {
            Some(trimmed(field_text(area)))
        } else {
            None
        }))),
        config is Anthropic <==> form.kind == ConnectorKind::Anthropic,
        config is OpenAi <==> form.kind == ConnectorKind::OpenAi,
        config is Bedrock <==> form.kind == ConnectorKind::Bedrock,
        config is Ollama <==> form.kind == ConnectorKind::Ollama,
{
    let fields = fields_of(form.kind);
    if fields.contains(field) {
        let i = choose|i: int| 0 <= i < fields.len() && fields[i] == field;
        assert(fields[i] == field);
    }
}

/// The form shows the id, the connector and the address for every connector, the key
/// for those that take one, profile and region for Bedrock, and no field twice.
pub proof fn law_fields_of_connectors(kind: ConnectorKind)
    ensures
        fields_of(kind)[0] == Field::Id,
        fields_of(kind)[1] == Field::Type,
        fields_of(kind).contains(Field::BaseUrl),
        fields_of(kind).contains(Field::ApiKeyEnv) <==> kind == ConnectorKind::Anthropic || kind
            == ConnectorKind::OpenAi,
        fields_of(kind).contains(Field::AwsProfile) <==> kind == ConnectorKind::Bedrock,
        fields_of(kind).contains(Field::Region) <==> kind == ConnectorKind::Bedrock,
        fields_of(kind).no_duplicates(),
{
    let fields = fields_of(kind);
    match kind {
        ConnectorKind::Anthropic | ConnectorKind::OpenAi => {
            assert(fields[2] == Field::ApiKeyEnv && fields[3] == Field::BaseUrl);
        },
        ConnectorKind::Bedrock => {
            assert(fields[2] == Field::AwsProfile && fields[3] == Field::Region && fields[4]
                == Field::BaseUrl);
        },
        ConnectorKind::Ollama => {
            assert(fields[2] == Field::BaseUrl);
        },
    }
}

/// A save goes to the connection that is edited; a new one is created under the typed
/// id, without white space around it.
pub proof fn law_saves_reach_their_connection(form: EditForm, command: Command)
    requires
        saves(form, command),
    ensures
        form.editing_id matches Some(id) ==> (command matches Command::UpdateConnection {
            id: target,
            ..
        } && target@ == id@),
        form.editing_id is None ==> (command matches Command::CreateConnection { id: target, .. }
            && target@ == trimmed(field_text(form.id))),
        match command {
            Command::UpdateConnection { config, .. } => config_matches(form, config),
            Command::CreateConnection { config, .. } => config_matches(form, config),
            _ => false,
        },
{
}

/// A key press without modifiers.
pub open spec fn bare(key: KeyEvent, code: KeyCode) -> bool {
    key.code == code && key.modifiers.none()
}

/// In the list, the arrow keys go to the neighbouring row, Enter opens the selected
/// connection, A an empty form, D asks before a deletion, R loads the list again and
/// Escape leaves; the list itself changes by none of them.
pub proof fn law_list_keys(before: State, key: KeyEvent, after: State, r: Request)
    requires
        list_step(before, key, after, r),
        before.in_range(),
    ensures
        after.connections == before.connections,
        after.in_range(),
        r is Refresh <==> bare(key, KeyCode::Char('r')),
        !(r is Refresh) ==> r is Nothing,
        bare(key, KeyCode::Down) || bare(key, KeyCode::Char('j')) ==> after.selected == (
        if before.selected + 1 >= before.connections@.len() {
            0
        } else {
            before.selected + 1
        }) && after.mode == before.mode,
        bare(key, KeyCode::Up) || bare(key, KeyCode::Char('k')) ==> after.selected == (
        if before.connections@.len() == 0 {
            0
        } else if before.selected == 0 {
            before.connections@.len() - 1
        } else {
            before.selected - 1
        }) && after.mode == before.mode,
        (bare(key, KeyCode::Enter) || bare(key, KeyCode::Char('e'))) && before.connections@.len()
            > 0 ==> after.mode == Mode::Edit && opt_text(after.form.editing_id) == Some(
            before.connections@[before.selected as int].id@,
        ) && field_text(after.form.id) == joined(
            inserted_lines(before.connections@[before.selected as int].id@),
            Seq::<char>::empty(),
        ),
        bare(key, KeyCode::Char('a')) ==> after.mode == Mode::Edit && after.form.editing_id is None
            && after.form.is_empty_form(),
        after.mode == Mode::DeleteConfirm && before.mode != Mode::DeleteConfirm ==> bare(
            key,
            KeyCode::Char('d'),
        ) && before.connections@.len() > 0,
        bare(key, KeyCode::Char('d')) && before.connections@.len() > 0 ==> after.mode
            == Mode::DeleteConfirm,
        after.closing && !before.closing ==> bare(key, KeyCode::Esc) || bare(
            key,
            KeyCode::Char('q'),
        ),
        bare(key, KeyCode::Esc) || bare(key, KeyCode::Char('q')) ==> after.closing,
{
    assert(before.connections.len() == before.connections@.len());
}

/// In the form, saving asks for the save of what is typed, or says that the id is
/// missing; Escape leaves without a request; a key that is typed changes the focused
/// field alone.
pub proof fn law_form_keys(before: State, key: KeyEvent, after: State, r: Request)
    requires
        edit_step(before, key, after, r),
    ensures
        after.connections == before.connections,
        after.selected == before.selected,
        r is Save <==> key.modifiers.control && key.code == KeyCode::Char('s') && trimmed(
            field_text(before.form.id),
        ).len() > 0,
        !(r is Save) ==> r is Nothing,
        r matches Request::Save(command) ==> saves(before.form, command) && after.form
            == before.form && after.mode == before.mode,
        key.code == KeyCode::Esc ==> after.mode == Mode::List && after.error is None,
        key.code == KeyCode::Tab ==> after.form == (EditForm {
            focus: field_after(fields_of(before.form.kind), before.form.focus),
            ..before.form
        }),
        after.form.kind != before.form.kind && after.mode != Mode::List ==> before.form.editing_id
            is None && before.form.focus == Field::Type,
        after.mode != Mode::List ==> after.form.editing_id == before.form.editing_id,
        forall|f: Field|
            f != before.form.focus && after.mode != Mode::List ==> after.form.input(f)
                == #[trigger] before.form.input(f),
        before.form.editing_id is Some && after.mode != Mode::List ==> after.form.id
            == before.form.id,
{
}

/// Only a confirmation deletes, and it deletes the selected connection; by force only
/// where that was asked for.
pub proof fn law_deletion_is_confirmed(before: State, key: KeyEvent, after: State, r: Request)
    requires
        delete_step(before, key, after, r),
    ensures
        r is Delete <==> before.has_selection() && (key.code == KeyCode::Enter || key.code
            == KeyCode::Char('y') || key.code == KeyCode::Char('Y') || key.code == KeyCode::Char(
            'f',
        ) || key.code == KeyCode::Char('F')),
        r matches Request::Delete { id, force } ==> id@
            == before.connections@[before.selected as int].id@ && (force <==> key.code
            == KeyCode::Char('f') || key.code == KeyCode::Char('F')),
        !(r is Delete) ==> r is Nothing && after.mode == Mode::List,
        after.connections == before.connections,
        after.form == before.form,
{
}

/// What a request came to is shown: the reported list is the list, a failure is told
/// in the daemon's words and leaves the form as it is, and a save or deletion that
/// went well has the list loaded again. Nothing stays busy but a list that is loaded.
pub proof fn law_outcomes_are_shown(before: State, outcome: RpcOutcome, after: State, r: Request)
    requires
        applied(before, outcome, after, r),
    ensures
        outcome matches RpcOutcome::Listed(Listing::Rows(rows)) ==> after.connections == rows
            && after.error == before.error && (before.selected < rows@.len() ==> after.selected
            == before.selected),
        !(outcome matches RpcOutcome::Listed(Listing::Rows(_))) ==> after.connections
            == before.connections,
        outcome matches RpcOutcome::Listed(Listing::Failed(e)) ==> (after.error matches Some(m)
            && holds_text(m@, e@)),
        outcome matches RpcOutcome::Listed(Listing::Unexpected(e)) ==> (after.error matches Some(m)
            && holds_text(m@, e@)),
        outcome matches RpcOutcome::Saved(Err(e)) ==> (after.error matches Some(m) && holds_text(
            m@,
            e@,
        )) && after.form == before.form && after.mode == before.mode,
        outcome matches RpcOutcome::Deleted { result: Err(e), .. } ==> (after.error matches Some(m)
            && holds_text(m@, e@)),
        outcome matches RpcOutcome::Saved(Ok(_)) ==> after.mode == Mode::List && after.error is None,
        r is Refresh <==> (outcome matches RpcOutcome::Saved(Ok(_))) || (
        outcome matches RpcOutcome::Deleted { result: Ok(_), .. }),
        !(r is Refresh) ==> r is Nothing,
        after.busy is Some <==> r is Refresh,
        after.closing == before.closing,
{
    let none = Seq::<char>::empty();
    match outcome {
        RpcOutcome::Listed(Listing::Failed(e)) => law_text_is_held(
            "Failed to load connections: "@,
            e@,
            none,
        ),
        RpcOutcome::Listed(Listing::Unexpected(e)) => law_text_is_held(
            "Unexpected response: "@,
            e@,
            none,
        ),
        RpcOutcome::Saved(Err(e)) => law_text_is_held("Save failed: "@, e@, none),
        RpcOutcome::Deleted { result: Err(e), .. } => {
            law_text_is_held("Delete failed: "@, e@, none);
            law_text_is_held(none, e@, " — press 'f' to force"@);
        },
        _ => {},
    }
}

/// A row of the list reads the id and the connector, the label where it says more, and
/// why a connection is not available.
pub proof fn law_rows_tell_the_connection(c: ConnectionView)
    ensures
        holds_text(line_text(row_spans(c)), c.id@),
        holds_text(line_text(row_spans(c)), c.connector_type@),
        c.display_label@ != c.id@ + " ("@ + c.connector_type@ + ")"@ ==> exists|i: int|
            0 <= i < row_spans(c).len() && holds_text(
                (#[trigger] row_spans(c)[i]).0,
                c.display_label@,
            ),
        c.availability matches ConnectionAvailability::Unavailable { reason } ==> holds_text(
            row_spans(c).last().0,
            reason@,
        ),
        row_spans(c)[0].1 == toned(Tone::Good) <==> c.availability is Available,
        row_spans(c)[0].1 == toned(Tone::Error) <==> c.availability is Unavailable,
{
    let spans = row_spans(c);
    let none = Seq::<char>::empty();
    assert(spans[2].0 == c.id@);
    lemma_span_is_read(spans, 2);
    lemma_span_is_read(spans, 3);
    law_text_is_held(" ["@, c.connector_type@, "]"@);
    law_held_text_is_held(line_text(spans), spans[3].0, c.connector_type@);
    law_text_is_held("  ·  "@, c.display_label@, none);
    if c.display_label@ != c.id@ + " ("@ + c.connector_type@ + ")"@ {
        assert(spans[4].0 == "  ·  "@ + c.display_label@);
    }
    match c.availability {
        ConnectionAvailability::Unavailable { reason } => {
            law_text_is_held("  ·  "@, reason@, none);
        },
        _ => {},
    }
}

/// The list has a row for each connection, in order, or a hint where there is none.
pub proof fn law_every_connection_has_a_row(connections: Seq<ConnectionView>, i: int)
    ensures
        connections.len() > 0 ==> list_rows(connections).len() == connections.len(),
        connections.len() == 0 ==> list_rows(connections).len() == 1,
        0 <= i < connections.len() ==> holds_text(
            line_text(list_rows(connections)[i][0]),
            connections[i].id@,
        ) && list_rows(connections)[i].len() == 1,
{
    if 0 <= i < connections.len() {
        law_rows_tell_the_connection(connections[i]);
    }
}

/// The selector shows the four connectors, and only the chosen one as chosen.
pub proof fn law_chosen_connector_is_active(kind: ConnectorKind, other: ConnectorKind)
    ensures
        kind_chips(kind).len() == 4,
        kind_chips(kind)[other.index()].0@ == other.label_text(),
        kind_chips(kind)[other.index()].1 <==> other == kind,
{
}

/// The form of a connection is of its own connector.
pub proof fn law_form_is_of_the_connector(form: EditForm, view: ConnectionView, kind: ConnectorKind)
    requires
        form.shows(view),
        view.connector_type@ == kind.tag_text(),
    ensures
        form.kind == kind,
        form.editing_id matches Some(id) && id@ == view.id@,
{
    law_tags_are_distinct(form.kind, kind);
}

/// A deletion that the daemon refused because purposes refer to the connection, in
/// whatever case it says so, leaves the question open, with the hint that it can be
/// forced; a forced one, and any other refusal, goes back to the list.
pub proof fn law_refused_deletion_can_be_forced(
    before: State,
    force: bool,
    e: String,
    after: State,
    r: Request,
)
    requires
        applied(before, RpcOutcome::Deleted { force, result: Err(e) }, after, r),
    ensures
        !force && holds_text(lowered(e@), "purpose"@) ==> after.mode == before.mode && (
        after.error matches Some(t) && holds_text(t@, e@) && holds_text(t@, "force"@)),
        force || !holds_text(lowered(e@), "purpose"@) ==> after.mode == Mode::List && (
        after.error matches Some(t) && holds_text(t@, e@)),
        after.connections == before.connections,
        after.busy is None,
        r is Nothing,
{
    reveal_strlit(" — press 'f' to force");
    reveal_strlit("force");
    let hint = " — press 'f' to force"@;
    assert(hint.subrange(16, 21) =~= "force"@);
    assert(stands_at(hint, "force"@, 16));
    law_text_is_held(e@, hint, Seq::<char>::empty());
    law_text_is_held(Seq::<char>::empty(), e@, hint);
    law_held_text_is_held(e@ + hint, hint, "force"@);
    law_text_is_held("Delete failed: "@, e@, Seq::<char>::empty());
}

/// The forms open without the error of what came before, and what is asked for is told.
pub proof fn law_errors_do_not_linger(before: State, key: KeyEvent, after: State, r: Request)
    ensures
        list_step(before, key, after, r) && before.mode == Mode::List && after.mode == Mode::Edit
            ==> after.error is None,
        edit_step(before, key, after, r) && before.mode == Mode::Edit && after.mode == Mode::List
            ==> after.error is None,
        list_step(before, key, after, r) && r is Refresh ==> after.busy is Some,
        edit_step(before, key, after, r) && r is Save ==> after.busy is Some,
{
}

/// The connector of a new connection goes on or back by one, round at the ends; that of
/// an existing one stays.
pub proof fn law_connectors_are_stepped_through(
    before: State,
    key: KeyEvent,
    after: State,
    r: Request,
)
    requires
        edit_step(before, key, after, r),
        before.form.focus == Field::Type,
        !key.modifiers.control,
    ensures
        before.form.editing_id is None && (key.code == KeyCode::Right || key.code == KeyCode::Char(
            ' ',
        )) ==> (match before.form.kind {
            ConnectorKind::Anthropic => after.form.kind == ConnectorKind::OpenAi,
            ConnectorKind::OpenAi => after.form.kind == ConnectorKind::Bedrock,
            ConnectorKind::Bedrock => after.form.kind == ConnectorKind::Ollama,
            ConnectorKind::Ollama => after.form.kind == ConnectorKind::Anthropic,
        }),
        before.form.editing_id is None && key.code == KeyCode::Left ==> (match before.form.kind {
            ConnectorKind::Anthropic => after.form.kind == ConnectorKind::Ollama,
            ConnectorKind::OpenAi => after.form.kind == ConnectorKind::Anthropic,
            ConnectorKind::Bedrock => after.form.kind == ConnectorKind::OpenAi,
            ConnectorKind::Ollama => after.form.kind == ConnectorKind::Bedrock,
        }),
        before.form.editing_id is Some && key.code != KeyCode::Esc ==> after.form.kind
            == before.form.kind,
        r is Nothing,
{
}

/// The connectors are told apart by their tags and by their labels, and the fields of a
/// form by theirs.
pub proof fn law_connectors_have_their_own_names(
    a: ConnectorKind,
    b: ConnectorKind,
    form: EditForm,
    f: Field,
    g: Field,
)
    ensures
        a.tag_text() == b.tag_text() ==> a == b,
        a.label_text() == b.label_text() ==> a == b,
        lowered(a.label_text()) == a.tag_text(),
        field_label(form, f) == field_label(form, g) ==> f == g,
{
    reveal_strlit("anthropic");
    reveal_strlit("openai");
    reveal_strlit("bedrock");
    reveal_strlit("ollama");
    reveal_strlit("Anthropic");
    reveal_strlit("OpenAI");
    reveal_strlit("Bedrock");
    reveal_strlit("Ollama");
    assert("anthropic"@.len() == 9 && "openai"@.len() == 6 && "bedrock"@.len() == 7);
    assert("ollama"@.len() == 6 && "openai"@[1] == 'p' && "ollama"@[1] == 'l');
    assert("Anthropic"@.len() == 9 && "OpenAI"@.len() == 6 && "Bedrock"@.len() == 7);
    assert("Ollama"@.len() == 6 && "OpenAI"@[1] == 'p' && "Ollama"@[1] == 'l');
    assert(lowered("Anthropic"@) =~= "anthropic"@);
    assert(lowered("OpenAI"@) =~= "openai"@);
    assert(lowered("Bedrock"@) =~= "bedrock"@);
    assert(lowered("Ollama"@) =~= "ollama"@);
    reveal_strlit("Id (immutable)");
    reveal_strlit("Id (slug; lowercase, no spaces)");
    reveal_strlit("Type");
    reveal_strlit(" — locked on edit");
    reveal_strlit(" (←/→ or Space to cycle)");
    reveal_strlit("API key env var name (e.g. ANTHROPIC_API_KEY)");
    reveal_strlit("Base URL (optional)");
    reveal_strlit("AWS profile (optional)");
    reveal_strlit("AWS region (e.g. us-east-1)");
    assert("Id (immutable)"@[0] == 'I' && "Id (slug; lowercase, no spaces)"@[0] == 'I');
    assert(("Type"@ + " — locked on edit"@)[0] == 'T');
    assert(("Type"@ + " (←/→ or Space to cycle)"@)[0] == 'T');
    assert("API key env var name (e.g. ANTHROPIC_API_KEY)"@[1] == 'P');
    assert("Base URL (optional)"@[0] == 'B');
    assert("AWS profile (optional)"@[4] == 'p' && "AWS region (e.g. us-east-1)"@[4] == 'r');
    assert("API key env var name (e.g. ANTHROPIC_API_KEY)"@[0] == 'A');
    assert("AWS profile (optional)"@[0] == 'A' && "AWS region (e.g. us-east-1)"@[0] == 'A');
    assert("AWS profile (optional)"@[1] == 'W' && "AWS region (e.g. us-east-1)"@[1] == 'W');
}

} // verus!
