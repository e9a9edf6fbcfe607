//! The MCP-servers panel: its form widget, its keys and what it draws.

use vstd::prelude::*;
use crate::api::{Command, Secret, ServiceAccountView};
#[allow(unused_imports)]
use crate::app::{empty_area, holds};
use crate::area::{content, field_content, lines_of, mask_with, press_key, textarea_with, Area};
#[allow(unused_imports)]
use crate::area::{
    area_lines, area_mask, area_text, field_text, inserted_lines, law_field_keeps_its_text,
    law_text_survives_an_area, lemma_one_line, no_return_ends_a_line, pressed, text_end,
};
use crate::builtins::{disabled_reason, BuiltinServerDto};
#[allow(unused_imports)]
use crate::builtins::off_reason;
#[allow(unused_imports)]
use crate::connections::bare;
#[allow(unused_imports)]
use crate::json::json_object;
use crate::keys::{KeyCode, KeyEvent};
use crate::mcp::{
    sanitize, split_args, status_display, transport_chip, McpAuthKind, McpForm, McpServerView,
    McpTransport, StatusTone,
};
#[allow(unused_imports)]
use crate::mcp::{chip, law_status_is_told, sanitized, status_shown, text_or_empty, words};
use crate::text::{cat2, cat3, cat4, decimal, join, same};
#[allow(unused_imports)]
use crate::text::{
    digit, digits, holds_text, is_control, joined, law_held_text_is_held, law_text_is_held,
    opt_text, texts, trimmed,
};
use crate::view::{
    chosen_style, draw_status, keep_selection, line_of, plain_style, push_chips, push_line, push_span,
    step, title_of, toned_style, Line, ListView, Span, Style, Tone,
};
#[allow(unused_imports)]
use crate::view::{
    chip_spans, chosen, field_after, field_before, items_view, kept_selection, law_status_tells,
    law_steps_lead_to_the_neighbour, lemma_span_is_read, lemma_span_tells, line_text,
    line_view, lines_view,
    list_title, place_of, plain, shown_selection, span_view, status_line, stepped, toned,
};

verus! {

#[derive(Debug, Clone, Copy, PartialEq, Eq, Structural)]
pub enum Mode {
    List,
    Edit,
    /// The question before a server is removed.
    RemoveConfirm,
    /// The sign-in command of a server, to be run on the daemon's host.
    SignInInfo,
}

/// A field of the form.
#[derive(Debug, Clone, Copy, PartialEq, Eq, Structural)]
pub enum Field {
    Name,
    Transport,
    Enabled,
    Command,
    Args,
    Namespace,
    Env,
    Url,
    Auth,
    BearerToken,
    OAuthAccount,
    Scopes,
}

impl Field {
    /// The field is chosen from a few values, not typed.
    pub open spec fn selects(self) -> bool {
        self == Field::Transport || self == Field::Enabled || self == Field::Auth || self
            == Field::OAuthAccount
    }

    pub fn is_selector(self) -> (b: bool)
        ensures
            b == self.selects(),
    {
        match self {
            Field::Transport | Field::Enabled | Field::Auth | Field::OAuthAccount => true,
            _ => false,
        }
    }
}

/// The fields that the form shows, in order.
pub open spec fn shown_fields(transport: McpTransport, auth: McpAuthKind) -> Seq<Field> {
    let head = seq![Field::Name, Field::Transport, Field::Enabled];
    match transport {
        McpTransport::Stdio => head + seq![
            Field::Command,
            Field::Args,
            Field::Namespace,
            Field::Env,
        ],
        McpTransport::Http => head + seq![Field::Url, Field::Auth] + (match auth {
            McpAuthKind::Anonymous => Seq::<Field>::empty(),
            McpAuthKind::Bearer => seq![Field::BearerToken],
            McpAuthKind::OAuth => seq![Field::OAuthAccount, Field::Scopes],
        }),
    }
}

/// The fields that the form shows for a transport and authentication.
pub fn fields_for(transport: McpTransport, auth: McpAuthKind) -> (fields: Vec<Field>)
    ensures
        fields@ == shown_fields(transport, auth),
        fields@.len() >= 3,
{
    let mut fields: Vec<Field> = vec![Field::Name, Field::Transport, Field::Enabled];
    match transport {
        McpTransport::Stdio => {
            fields.push(Field::Command);
            fields.push(Field::Args);
            fields.push(Field::Namespace);
            fields.push(Field::Env);
        },
        McpTransport::Http => {
            fields.push(Field::Url);
            fields.push(Field::Auth);
            match auth {
                McpAuthKind::Anonymous => {},
                McpAuthKind::Bearer => fields.push(Field::BearerToken),
                McpAuthKind::OAuth => {
                    fields.push(Field::OAuthAccount);
                    fields.push(Field::Scopes);
                },
            }
        },
    }
    assert(fields@ =~= shown_fields(transport, auth));
    fields
}

/// The height of a field's input.
pub fn field_input_height(field: Field) -> (h: u16)
    ensures
        h == (if field.selects() {
            1u16
        } else if field == Field::Env {
            5u16
        } else {
            3u16
        }),
{
    if field.is_selector() {
        1
    } else if field == Field::Env {
        5
    } else {
        3
    }
}

fn place_in(fields: &Vec<Field>, f: Field) -> (r: (usize, bool))
    requires
        fields@.len() > 0,
    ensures
        r.0 == place_of(fields@, f, 0),
        r.0 < fields@.len(),
        r.1 == fields@.contains(f),
{
    let mut i: usize = 0;
    while i < fields.len()
        invariant
            fields@.len() > 0,
            i <= fields@.len(),
            place_of(fields@, f, 0) == place_of(fields@, f, i as int),
            forall|j: int| 0 <= j < i ==> fields@[j] != f,
        decreases fields@.len() - i,
    {
        if fields[i] == f {
            return (i, true);
        }
        i += 1;
    }
    (0, false)
}

/// The words of several lines, line after line.
pub open spec fn line_words(lines: Seq<Seq<char>>) -> Seq<Seq<char>>
    decreases lines.len(),
{
    if lines.len() == 0 {
        Seq::<Seq<char>>::empty()
    } else {
        line_words(lines.take(lines.len() - 1)) + words(lines[lines.len() - 1])
    }
}

/// The text of a field of words: its words, a blank between neighbours.
pub open spec fn spaced_text(area: Area) -> Seq<char> {
    joined(line_words(area_lines(area)), " "@)
}

/// The text of a field of words.
fn spaced(area: &Area) -> (s: String)
    ensures
        s@ == spaced_text(*area),
{
    let lines = lines_of(area);
    let ghost all = texts(lines@);
    let mut parts: Vec<String> = Vec::new();
    let mut i: usize = 0;
    assert(texts(parts@) =~= line_words(all.take(0)));
    while i < lines.len()
        invariant
            all == texts(lines@),
            i <= lines@.len(),
            texts(parts@) == line_words(all.take(i as int)),
        decreases lines@.len() - i,
    {
        let ghost t = all.take(i + 1);
        assert(t.take(t.len() - 1) =~= all.take(i as int));
        let mut more = split_args(lines[i].as_str());
        let ghost parts0 = parts@;
        let ghost more0 = more@;
        parts.append(&mut more);
        assert(texts(parts@) =~= texts(parts0) + texts(more0));
        i += 1;
    }
    assert(all.take(all.len() as int) =~= all);
    join(&parts, " ")
}

proof fn lemma_no_text(text: Seq<char>)
    requires
        text.len() == 0,
    ensures
        inserted_lines(text) == seq![Seq::<char>::empty()],
        text_end(inserted_lines(text)) == (0nat, 0nat),
{
    lemma_one_line(text);
    assert(text =~= Seq::<char>::empty());
}

/// The form widget: a text area for each text field, and the chosen values.
pub struct FormState {
    pub editing: bool,
    pub transport: McpTransport,
    pub auth: McpAuthKind,
    pub enabled: bool,
    pub focus: Field,
    pub name: Area,
    pub command: Area,
    pub args: Area,
    pub namespace: Area,
    pub env: Area,
    pub url: Area,
    /// Drawn masked.
    pub bearer_token: Area,
    pub scopes: Area,
    pub oauth_account: String,
}

impl FormState {
    /// The widget holds what the plain form says.
    pub open spec fn holds(self, f: McpForm) -> bool {
        &&& self.editing == f.editing
        &&& self.transport == f.transport
        &&& self.auth == f.auth
        &&& self.enabled == f.enabled
        &&& holds(self.name, f.name@)
        &&& holds(self.command, f.command@)
        &&& holds(self.args, f.args@)
        &&& holds(self.namespace, f.namespace@)
        &&& holds(self.env, f.env@)
        &&& holds(self.url, f.url@)
        &&& holds(self.bearer_token, f.bearer_token@)
        &&& holds(self.scopes, f.scopes@)
        &&& self.oauth_account@ == f.oauth_account@
    }

    /// The token, and nothing else, is drawn masked.
    pub open spec fn masks_token(self) -> bool {
        &&& area_mask(self.bearer_token) == Some('●')
        &&& area_mask(self.name) is None
        &&& area_mask(self.command) is None
        &&& area_mask(self.args) is None
        &&& area_mask(self.namespace) is None
        &&& area_mask(self.env) is None
        &&& area_mask(self.url) is None
        &&& area_mask(self.scopes) is None
    }

    /// The plain form says what the widget holds.
    pub open spec fn reads(self, f: McpForm) -> bool {
        &&& f.editing == self.editing
        &&& f.transport == self.transport
        &&& f.auth == self.auth
        &&& f.enabled == self.enabled
        &&& f.name@ == field_text(self.name)
        &&& f.command@ == field_text(self.command)
        &&& f.args@ == spaced_text(self.args)
        &&& f.namespace@ == field_text(self.namespace)
        &&& f.env@ == area_text(self.env)
        &&& f.url@ == field_text(self.url)
        &&& f.bearer_token@ == field_text(self.bearer_token)
        &&& f.scopes@ == spaced_text(self.scopes)
        &&& f.oauth_account@ == self.oauth_account@
    }

    /// The widget for a plain form.
    pub fn from_pure(f: McpForm) -> (w: Self)
        ensures
            w.holds(f),
            w.masks_token(),
            w.focus == Field::Name,
    {
        let mut bearer_token = textarea_with(f.bearer_token.as_str());
        mask_with(&mut bearer_token, '●');
        FormState {
            editing: f.editing,
            transport: f.transport,
            auth: f.auth,
            enabled: f.enabled,
            focus: Field::Name,
            name: textarea_with(f.name.as_str()),
            command: textarea_with(f.command.as_str()),
            args: textarea_with(f.args.as_str()),
            namespace: textarea_with(f.namespace.as_str()),
            env: textarea_with(f.env.as_str()),
            url: textarea_with(f.url.as_str()),
            bearer_token,
            scopes: textarea_with(f.scopes.as_str()),
            oauth_account: f.oauth_account,
        }
    }

    /// The widget for a new local server.
    pub fn blank() -> (w: Self)
        ensures
            w.is_blank(),
    {
        let f = McpForm::blank(McpTransport::Stdio);
        proof {
            lemma_no_text(f.name@);
            lemma_no_text(f.command@);
            lemma_no_text(f.args@);
            lemma_no_text(f.namespace@);
            lemma_no_text(f.env@);
            lemma_no_text(f.url@);
            lemma_no_text(f.bearer_token@);
            lemma_no_text(f.scopes@);
        }
        FormState::from_pure(f)
    }

    /// Nothing is filled in; a local server is described.
    pub open spec fn is_blank(self) -> bool {
        &&& self.focus == Field::Name
        &&& !self.editing
        &&& self.transport == McpTransport::Stdio
        &&& self.auth == McpAuthKind::Anonymous
        &&& self.enabled
        &&& empty_area(self.name)
        &&& empty_area(self.command)
        &&& empty_area(self.args)
        &&& empty_area(self.namespace)
        &&& empty_area(self.env)
        &&& empty_area(self.url)
        &&& empty_area(self.bearer_token)
        &&& empty_area(self.scopes)
        &&& self.oauth_account@.len() == 0
        &&& self.masks_token()
    }

    /// The widget shows an existing server.
    pub open spec fn shows(self, view: McpServerView) -> bool {
        &&& self.focus == Field::Name
        &&& self.editing
        &&& self.transport == (if view.transport@ == "http"@ {
            McpTransport::Http
        } else {
            McpTransport::Stdio
        })
        &&& self.auth == (if opt_text(view.auth_kind) == Some("bearer"@) {
            McpAuthKind::Bearer
        } else if opt_text(view.auth_kind) == Some("oauth"@) {
            McpAuthKind::OAuth
        } else {
            McpAuthKind::Anonymous
        })
        &&& self.enabled == view.enabled
        &&& holds(self.name, view.name@)
        &&& holds(self.command, view.command@)
        &&& holds(self.args, joined(texts(view.args@), " "@))
        &&& holds(self.namespace, text_or_empty(view.namespace))
        &&& holds(self.env, Seq::<char>::empty())
        &&& holds(
            self.url,
            if view.transport@ == "http"@ {
                view.target@
            } else {
                Seq::<char>::empty()
            },
        )
        &&& holds(self.bearer_token, Seq::<char>::empty())
        &&& holds(self.scopes, joined(texts(view.oauth_scopes@), " "@))
        &&& self.oauth_account@ == text_or_empty(view.oauth_account_ref)
        &&& self.masks_token()
    }

    /// The widget for an existing server.
    pub fn of_server(view: &McpServerView) -> (w: Self)
        ensures
            w.shows(*view),
    {
        let f = McpForm::from_view(view);
        assert(f.env@ =~= Seq::<char>::empty());
        assert(f.bearer_token@ =~= Seq::<char>::empty());
        FormState::from_pure(f)
    }

    /// The plain form that the widget holds.
    pub fn snapshot(&self) -> (f: McpForm)
        ensures
            self.reads(f),
    {
        McpForm {
            editing: self.editing,
            transport: self.transport,
            name: field_content(&self.name),
            enabled: self.enabled,
            command: field_content(&self.command),
            args: spaced(&self.args),
            namespace: field_content(&self.namespace),
            env: content(&self.env),
            url: field_content(&self.url),
            auth: self.auth,
            bearer_token: field_content(&self.bearer_token),
            oauth_account: self.oauth_account.clone(),
            scopes: spaced(&self.scopes),
        }
    }

    /// The text area of a field; a selector has none.
    pub open spec fn input(self, field: Field) -> Option<Area> {
        match field {
            Field::Name => Some(self.name),
            Field::Command => Some(self.command),
            Field::Args => Some(self.args),
            Field::Namespace => Some(self.namespace),
            Field::Env => Some(self.env),
            Field::Url => Some(self.url),
            Field::BearerToken => Some(self.bearer_token),
            Field::Scopes => Some(self.scopes),
            Field::Transport | Field::Enabled | Field::Auth | Field::OAuthAccount => None,
        }
    }

    /// The text area of a field.
    pub fn input_of(&self, field: Field) -> (area: Option<&Area>)
        ensures
            match area {
                Some(a) => self.input(field) == Some(*a),
                None => self.input(field) is None,
            },
    {
        match field {
            Field::Name => Some(&self.name),
            Field::Command => Some(&self.command),
            Field::Args => Some(&self.args),
            Field::Namespace => Some(&self.namespace),
            Field::Env => Some(&self.env),
            Field::Url => Some(&self.url),
            Field::BearerToken => Some(&self.bearer_token),
            Field::Scopes => Some(&self.scopes),
            Field::Transport | Field::Enabled | Field::Auth | Field::OAuthAccount => None,
        }
    }

    pub open spec fn shown(self) -> Seq<Field> {
        shown_fields(self.transport, self.auth)
    }

    /// The focus on a field that is shown: kept, else the first field.
    pub open spec fn clamped_focus(self) -> Field {
        if self.shown().contains(self.focus) {
            self.focus
        } else {
            Field::Name
        }
    }

    pub fn next_field(&mut self)
        ensures
            *final(self) == (FormState {
                focus: field_after(old(self).shown(), old(self).focus),
                ..*old(self)
            }),
    {
        let fields = fields_for(self.transport, self.auth);
        let (pos, _found) = place_in(&fields, self.focus);
        let n: usize = fields.len();
        proof {
            assert(n <= 7);
        }
        self.focus = fields[(pos + 1) % n];
    }

    pub fn prev_field(&mut self)
        ensures
            *final(self) == (FormState {
                focus: field_before(old(self).shown(), old(self).focus),
                ..*old(self)
            }),
    {
        let fields = fields_for(self.transport, self.auth);
        let (pos, _found) = place_in(&fields, self.focus);
        let n: usize = fields.len();
        proof {
            assert(n <= 7);
        }
        self.focus = fields[(pos + n - 1) % n];
    }

    /// Brings the focus back to a field that is shown.
    pub fn clamp_focus(&mut self)
        ensures
            *final(self) == (FormState { focus: old(self).clamped_focus(), ..*old(self) }),
    {
        let fields = fields_for(self.transport, self.auth);
        let (_pos, found) = place_in(&fields, self.focus);
        if !found {
            self.focus = fields[0];
        }
    }

    /// A text field after a key went to the form.
    pub open spec fn field_typed(self, field: Field, before: Area, key: KeyEvent, after: Area) -> bool {
        if self.focus == field {
            pressed(before, key, after)
        } else {
            after == before
        }
    }

    /// The form after a key went to the focused text field.
    pub open spec fn typed(self, key: KeyEvent, other: FormState) -> bool {
        &&& other == (FormState {
            name: other.name,
            command: other.command,
            args: other.args,
            namespace: other.namespace,
            env: other.env,
            url: other.url,
            bearer_token: other.bearer_token,
            scopes: other.scopes,
            ..self
        })
        &&& self.field_typed(Field::Name, self.name, key, other.name)
        &&& self.field_typed(Field::Command, self.command, key, other.command)
        &&& self.field_typed(Field::Args, self.args, key, other.args)
        &&& self.field_typed(Field::Namespace, self.namespace, key, other.namespace)
        &&& self.field_typed(Field::Env, self.env, key, other.env)
        &&& self.field_typed(Field::Url, self.url, key, other.url)
        &&& self.field_typed(Field::BearerToken, self.bearer_token, key, other.bearer_token)
        &&& self.field_typed(Field::Scopes, self.scopes, key, other.scopes)
    }

    /// Hands a key to the focused text field.
    pub fn press(&mut self, key: KeyEvent)
        ensures
            old(self).typed(key, *final(self)),
    {
        match self.focus {
            Field::Name => press_key(&mut self.name, key),
            Field::Command => press_key(&mut self.command, key),
            Field::Args => press_key(&mut self.args, key),
            Field::Namespace => press_key(&mut self.namespace, key),
            Field::Env => press_key(&mut self.env, key),
            Field::Url => press_key(&mut self.url, key),
            Field::BearerToken => press_key(&mut self.bearer_token, key),
            Field::Scopes => press_key(&mut self.scopes, key),
            Field::Transport | Field::Enabled | Field::Auth | Field::OAuthAccount => {},
        }
    }
}

/// The focus is always on a field that the form shows, after it was clamped.
pub proof fn law_clamped_focus_is_shown(form: FormState)
    ensures
        form.shown().contains(form.clamped_focus()),
{
    if !form.shown().contains(form.focus) {
        assert(form.shown()[0] == Field::Name);
    }
}

/// A text without line breaks.
pub open spec fn one_line(text: Seq<char>) -> bool {
    forall|i: int| 0 <= i < text.len() ==> text[i] != '\n' && text[i] != '\r'
}

/// A text of words with one blank between neighbours, on one line.
pub open spec fn plain_words(text: Seq<char>) -> bool {
    one_line(text) && joined(words(text), " "@) == text
}

proof fn lemma_spaced_keeps(area: Area, text: Seq<char>)
    requires
        plain_words(text),
        area_lines(area) == inserted_lines(text),
    ensures
        spaced_text(area) == text,
{
    lemma_one_line(text);
    assert(inserted_lines(text) =~= seq![text]);
    let lines = seq![text];
    assert(lines.take(0) =~= Seq::<Seq<char>>::empty());
    assert(line_words(lines.take(0)) =~= Seq::<Seq<char>>::empty());
    assert(line_words(lines) =~= words(text));
}

/// What is put into the form comes back out of it: one-line fields, fields of
/// words and an environment whose lines no carriage return ends. The masked
/// token comes back like any other text.
pub proof fn law_form_survives_the_widget(w: FormState, f: McpForm, g: McpForm)
    requires
        w.holds(f),
        w.reads(g),
        one_line(f.name@),
        one_line(f.command@),
        plain_words(f.args@),
        one_line(f.namespace@),
        no_return_ends_a_line(f.env@),
        one_line(f.url@),
        one_line(f.bearer_token@),
        plain_words(f.scopes@),
    ensures
        g.editing == f.editing,
        g.transport == f.transport,
        g.enabled == f.enabled,
        g.auth == f.auth,
        g.name@ == f.name@,
        g.command@ == f.command@,
        g.args@ == f.args@,
        g.namespace@ == f.namespace@,
        g.env@ == f.env@,
        g.url@ == f.url@,
        g.bearer_token@ == f.bearer_token@,
        g.scopes@ == f.scopes@,
        g.oauth_account@ == f.oauth_account@,
{
    law_field_keeps_its_text(f.name@);
    law_field_keeps_its_text(f.command@);
    law_field_keeps_its_text(f.namespace@);
    law_field_keeps_its_text(f.url@);
    law_field_keeps_its_text(f.bearer_token@);
    lemma_spaced_keeps(w.args, f.args@);
    lemma_spaced_keeps(w.scopes, f.scopes@);
    law_text_survives_an_area(f.env@);
}

/// What a request came to.
pub enum RpcOutcome {
    Refreshed {
        servers: Result<Vec<McpServerView>, String>,
        accounts: Result<Vec<ServiceAccountView>, String>,
    },
    Saved(Result<(), String>),
    Toggled(Result<(), String>),
    Removed(Result<(), String>),
    /// The configuration of a compiled-in server was written.
    BuiltinSet { index: usize, disabled: bool, result: Result<(), String> },
}

/// What the panel asks for.
pub enum Request {
    Nothing,
    /// List servers and service accounts.
    Refresh,
    /// Store the secret, where there is one, and then the server.
    Save { secret: Option<Command>, upsert: Command },
    Toggle(Command),
    Remove(Command),
    /// Turn a compiled-in server off or on in the client's configuration.
    SetBuiltin { index: usize, name: String, disabled: bool },
}

pub struct State {
    pub servers: Vec<McpServerView>,
    pub accounts: Vec<ServiceAccountView>,
    /// Compiled-in servers, shown below the daemon's.
    pub builtins: Vec<BuiltinServerDto>,
    pub selected: usize,
    pub mode: Mode,
    pub form: FormState,
    pub error: Option<String>,
    /// A remark on what was done.
    pub notice: Option<String>,
    pub busy: Option<String>,
    pub closing: bool,
}

/// What a key does in the list.
#[derive(Debug, Clone, Copy, PartialEq, Eq, Structural)]
pub enum ListKey {
    Close,
    Down,
    Up,
    Edit,
    New,
    Toggle,
    SignIn,
    Remove,
    Refresh,
    Other,
}

pub open spec fn list_key(key: KeyEvent) -> ListKey {
    if !key.modifiers.none() {
        ListKey::Other
    } else {
        match key.code {
            KeyCode::Esc => ListKey::Close,
            KeyCode::Down => ListKey::Down,
            KeyCode::Up => ListKey::Up,
            KeyCode::Enter => ListKey::Edit,
            KeyCode::Char(c) => match c {
                'q' => ListKey::Close,
                'j' => ListKey::Down,
                'k' => ListKey::Up,
                'e' => ListKey::Edit,
                'a' => ListKey::New,
                ' ' => ListKey::Toggle,
                't' => ListKey::Toggle,
                'c' => ListKey::SignIn,
                'd' => ListKey::Remove,
                'r' => ListKey::Refresh,
                _ => ListKey::Other,
            },
            _ => ListKey::Other,
        }
    }
}

fn list_key_of(key: KeyEvent) -> (k: ListKey)
    ensures
        k == list_key(key),
{
    if !key.modifiers.is_empty() {
        return ListKey::Other;
    }
    match key.code {
        KeyCode::Esc | KeyCode::Char('q') => ListKey::Close,
        KeyCode::Down | KeyCode::Char('j') => ListKey::Down,
        KeyCode::Up | KeyCode::Char('k') => ListKey::Up,
        KeyCode::Enter | KeyCode::Char('e') => ListKey::Edit,
        KeyCode::Char('a') => ListKey::New,
        KeyCode::Char(' ') | KeyCode::Char('t') => ListKey::Toggle,
        KeyCode::Char('c') => ListKey::SignIn,
        KeyCode::Char('d') => ListKey::Remove,
        KeyCode::Char('r') => ListKey::Refresh,
        _ => ListKey::Other,
    }
}

impl State {
    /// Rows of the list: the daemon's servers, then the compiled-in ones.
    pub open spec fn rows(self) -> nat {
        self.servers@.len() + self.builtins@.len()
    }

    /// The selection is in the list; 0 in an empty list.
    pub open spec fn in_range(self) -> bool {
        self.selected < self.rows() || (self.selected == 0 && self.rows() == 0)
    }

    /// A server of the daemon is selected.
    pub open spec fn on_server(self) -> bool {
        self.selected < self.servers@.len()
    }

    pub open spec fn server(self) -> McpServerView {
        self.servers@[self.selected as int]
    }

    /// A compiled-in server is selected.
    pub open spec fn on_builtin(self) -> bool {
        self.servers@.len() <= self.selected < self.rows()
    }

    pub open spec fn builtin(self) -> BuiltinServerDto {
        self.builtins@[self.selected - self.servers@.len()]
    }

    pub open spec fn moved(self, down: bool) -> State {
        if self.rows() == 0 {
            self
        } else {
            State {
                selected: stepped(self.selected as int, self.rows() as int, down) as usize,
                ..self
            }
        }
    }

    /// The rows fit a machine word.
    pub open spec fn fits(self) -> bool {
        self.rows() <= usize::MAX
    }

    /// The state in which the panel opens.
    pub fn new(builtins: Vec<BuiltinServerDto>) -> (s: Self)
        ensures
            s.servers@.len() == 0,
            s.accounts@.len() == 0,
            s.builtins == builtins,
            s.selected == 0,
            s.mode == Mode::List,
            s.form.is_blank(),
            s.error is None,
            s.notice is None,
            opt_text(s.busy) == Some("Loading MCP servers..."@),
            !s.closing,
            s.in_range(),
    {
        State {
            servers: Vec::new(),
            accounts: Vec::new(),
            builtins,
            selected: 0,
            mode: Mode::List,
            form: FormState::blank(),
            error: None,
            notice: None,
            busy: Some("Loading MCP servers...".to_owned()),
            closing: false,
        }
    }
}

/// Moves the selection one row down or up, in a circle.
pub fn advance_selection(state: &mut State, down: bool)
    requires
        old(state).fits(),
    ensures
        *final(state) == old(state).moved(down),
        old(state).in_range() ==> final(state).in_range(),
{
    let len: usize = state.servers.len() + state.builtins.len();
    if len > 0 {
        state.selected = step(state.selected, len, down);
    }
}

/// Asks for servers and accounts.
pub fn refresh_all(state: &mut State) -> (r: Request)
    ensures
        r is Refresh,
        *final(state) == (State { busy: final(state).busy, ..*old(state) }),
        opt_text(final(state).busy) == Some("Loading MCP servers..."@),
{
    state.busy = Some("Loading MCP servers...".to_owned());
    Request::Refresh
}

/// Shows the sign-in command of the selected server, where it has one.
pub fn show_signin(state: &mut State)
    ensures
        if !old(state).on_server() {
            *final(state) == *old(state)
        } else if old(state).server().configure_command@.len() == 0 {
            &&& *final(state) == (State { error: final(state).error, ..*old(state) })
            &&& opt_text(final(state).error) == Some(
                "This server doesn't need an interactive sign-in."@,
            )
        } else {
            *final(state) == (State { error: None, mode: Mode::SignInInfo, ..*old(state) })
        },
{
    if state.selected >= state.servers.len() {
        return ;
    }
    if state.servers[state.selected].configure_command.len() == 0 {
        state.error = Some("This server doesn't need an interactive sign-in.".to_owned());
        return ;
    }
    state.error = None;
    state.mode = Mode::SignInInfo;
}

/// What a toggle of the selected row asks for.
pub open spec fn toggle_request(s: State, r: Request) -> bool {
    if s.on_server() {
        r matches Request::Toggle(Command::SetMcpServerEnabled { name, enabled }) && name@
            == s.server().name@ && enabled == !s.server().enabled
    } else if s.on_builtin() {
        r matches Request::SetBuiltin { index, name, disabled } && index == s.selected
            - s.servers@.len() && name@ == s.builtin().name@ && disabled
            == !s.builtin().disabled_by_config
    } else {
        r is Nothing
    }
}

/// The state after a toggle of the selected row.
pub open spec fn toggled(before: State, after: State, r: Request) -> bool {
    &&& toggle_request(before, r)
    &&& after == (State { busy: after.busy, ..before })
    &&& if before.on_server() {
        opt_text(after.busy) == Some(
            if before.server().enabled {
                "Disabling..."@
            } else {
                "Enabling..."@
            },
        )
    } else {
        after.busy == before.busy
    }
}

/// Enables or disables the selected server.
pub fn do_toggle(state: &mut State) -> (r: Request)
    requires
        old(state).fits(),
    ensures
        toggled(*old(state), *final(state), r),
{
    let n: usize = state.servers.len();
    if state.selected < n {
        let enabled: bool = state.servers[state.selected].enabled;
        state.busy = Some(
            (if enabled {
                "Disabling..."
            } else {
                "Enabling..."
            }).to_owned(),
        );
        let name = state.servers[state.selected].name.clone();
        Request::Toggle(Command::SetMcpServerEnabled { name, enabled: !enabled })
    } else if state.selected - n < state.builtins.len() {
        let index: usize = state.selected - n;
        Request::SetBuiltin {
            index,
            name: state.builtins[index].name.clone(),
            disabled: !state.builtins[index].disabled_by_config,
        }
    } else {
        Request::Nothing
    }
}

/// What a key in the list leads to.
pub open spec fn list_step(before: State, key: KeyEvent, after: State, r: Request) -> bool {
    &&& list_key(key) != ListKey::Toggle && list_key(key) != ListKey::Refresh ==> r is Nothing
    &&& match list_key(key) {
            ListKey::Close => after == (State { closing: true, ..before }),
            ListKey::Down => after == before.moved(true),
            ListKey::Up => after == before.moved(false),
            ListKey::Edit => if before.on_server() {
                &&& after == (State {
                    form: after.form,
                    error: None,
                    mode: Mode::Edit,
                    ..before
                })
                &&& after.form.shows(before.server())
            } else {
                after == before
            },
            ListKey::New => {
                &&& after == (State {
                    form: after.form,
                    error: None,
                    mode: Mode::Edit,
                    ..before
                })
                &&& after.form.is_blank()
            },
            ListKey::Toggle => toggled(before, after, r),
            ListKey::SignIn => if before.on_server() && before.server().configure_command@.len() > 0 {
                after == (State { error: None, mode: Mode::SignInInfo, ..before })
            } else if before.on_server() {
                &&& after == (State { error: after.error, ..before })
                &&& opt_text(after.error) == Some(
                    "This server doesn't need an interactive sign-in."@,
                )
            } else {
                after == before
            },
            ListKey::Remove => after == (State {
                mode: if before.on_server() {
                    Mode::RemoveConfirm
                } else {
                    before.mode
                },
                ..before
            }),
            ListKey::Refresh => {
                &&& r is Refresh
                &&& after == (State { busy: after.busy, ..before })
                &&& opt_text(after.busy) == Some("Loading MCP servers..."@)
            },
            ListKey::Other => after == before,
        }
}

/// A key in the list.
pub fn handle_list_key(state: &mut State, key: KeyEvent) -> (r: Request)
    requires
        old(state).fits(),
    ensures
        old(state).form.masks_token() ==> final(state).form.masks_token(),
        old(state).in_range() ==> final(state).in_range(),
        list_step(*old(state), key, *final(state), r),
{
    match list_key_of(key) {
        ListKey::Close => {
            state.closing = true;
        },
        ListKey::Down => advance_selection(state, true),
        ListKey::Up => advance_selection(state, false),
        ListKey::Edit => {
            if state.selected < state.servers.len() {
                state.form = FormState::of_server(&state.servers[state.selected]);
                state.error = None;
                state.mode = Mode::Edit;
            }
        },
        ListKey::New => {
            state.form = FormState::blank();
            state.error = None;
            state.mode = Mode::Edit;
        },
        ListKey::Toggle => {
            return do_toggle(state);
        },
        ListKey::SignIn => show_signin(state),
        ListKey::Remove => {
            if state.selected < state.servers.len() {
                state.mode = Mode::RemoveConfirm;
            }
        },
        ListKey::Refresh => {
            return refresh_all(state);
        },
        ListKey::Other => {},
    }
    Request::Nothing
}

/// The place of the account `id` from place `i` on; 0 where it is not there.
pub open spec fn account_place(accounts: Seq<ServiceAccountView>, id: Seq<char>, i: int) -> int
    decreases accounts.len() - i,
{
    if i < 0 || i >= accounts.len() {
        0
    } else if accounts[i].id@ == id {
        i
    } else {
        account_place(accounts, id, i + 1)
    }
}

/// The account behind (or before) the chosen one, in a circle.
pub open spec fn next_account(accounts: Seq<ServiceAccountView>, id: Seq<char>, back: bool) -> Seq<
    char,
> {
    accounts[stepped(account_place(accounts, id, 0), accounts.len() as int, !back)].id@
}

/// Chooses the next or previous service account.
pub fn cycle_account(state: &mut State, back: bool)
    ensures
        *final(state) == (State {
            form: FormState { oauth_account: final(state).form.oauth_account, ..old(state).form },
            ..*old(state)
        }),
        if old(state).accounts@.len() == 0 {
            final(state).form.oauth_account == old(state).form.oauth_account
        } else {
            final(state).form.oauth_account@ == next_account(
                old(state).accounts@,
                old(state).form.oauth_account@,
                back,
            )
        },
{
    let n: usize = state.accounts.len();
    if n == 0 {
        return ;
    }
    let mut i: usize = 0;
    let mut at: usize = 0;
    let mut found: bool = false;
    while i < n && !found
        invariant
            *state == *old(state),
            n == state.accounts@.len(),
            n > 0,
            i <= n,
            at < n,
            !found ==> at == 0 && account_place(
                state.accounts@,
                state.form.oauth_account@,
                0,
            ) == account_place(state.accounts@, state.form.oauth_account@, i as int),
            found ==> at == account_place(state.accounts@, state.form.oauth_account@, 0),
        decreases n - i + (if found { 0int } else { 1 }),
    {
        if same(state.accounts[i].id.as_str(), state.form.oauth_account.as_str()) {
            at = i;
            found = true;
        } else {
            i += 1;
        }
    }
    let next: usize = step(at, n, !back);
    state.form.oauth_account = state.accounts[next].id.clone();
}

/// The state after the focused selector was cycled. The transport of an existing
/// server is fixed.
pub open spec fn cycled(before: State, back: bool, after: State) -> bool {
    match before.form.focus {
        Field::Transport => if before.form.editing {
            &&& after == (State { error: after.error, ..before })
            &&& opt_text(after.error) == Some(
                "Transport is locked on edit — remove and re-add to change it."@,
            )
        } else {
            let t = if before.form.transport == McpTransport::Stdio {
                McpTransport::Http
            } else {
                McpTransport::Stdio
            };
            after == (State { form: FormState { transport: t, ..before.form }, ..before })
        },
        Field::Enabled => after == (State {
            form: FormState { enabled: !before.form.enabled, ..before.form },
            ..before
        }),
        Field::Auth => {
            let a = McpAuthKind::at(
                (before.form.auth.index() + (if back {
                    -1int
                } else {
                    1
                })) % 3,
            );
            let changed = FormState { auth: a, ..before.form };
            after == (State {
                form: FormState { focus: changed.clamped_focus(), ..changed },
                ..before
            })
        },
        Field::OAuthAccount => {
            &&& after == (State {
                form: FormState { oauth_account: after.form.oauth_account, ..before.form },
                ..before
            })
            &&& if before.accounts@.len() == 0 {
                after.form.oauth_account == before.form.oauth_account
            } else {
                after.form.oauth_account@ == next_account(
                    before.accounts@,
                    before.form.oauth_account@,
                    back,
                )
            }
        },
        _ => after == before,
    }
}

/// Chooses the next or previous value of the focused selector.
pub fn cycle_selector(state: &mut State, back: bool)
    ensures
        cycled(*old(state), back, *final(state)),
{
    let delta: i32 = if back {
        -1
    } else {
        1
    };
    match state.form.focus {
        Field::Transport => {
            if state.form.editing {
                state.error = Some(
                    "Transport is locked on edit — remove and re-add to change it.".to_owned(),
                );
                return ;
            }
            state.form.transport = state.form.transport.cycle(delta);
            assert(state.form.shown()[1] == Field::Transport);
            state.form.clamp_focus();
        },
        Field::Enabled => {
            state.form.enabled = !state.form.enabled;
        },
        Field::Auth => {
            state.form.auth = state.form.auth.cycle(delta);
            state.form.clamp_focus();
        },
        Field::OAuthAccount => cycle_account(state, back),
        _ => {},
    }
}

/// The command that stores a bearer token.
pub fn mcp_secret_command(id: String, value: String) -> (c: Command)
    ensures
        c == (Command::SetMcpSecret { id, value: Secret(value) }),
{
    Command::SetMcpSecret { id, value: Secret(value) }
}

/// What a save asks for: the typed token under its name first, then the
/// server.
pub open spec fn save_request(f: McpForm, r: Request) -> bool {
    match r {
        Request::Save { secret, upsert } => {
            &&& f.error() is None
            &&& match secret {
                Some(Command::SetMcpSecret { id, value }) => f.secret() == Some((id@, value.0@)),
                Some(_) => false,
                None => f.secret() is None,
            }
            &&& upsert matches Command::UpsertMcpServer { config_json } && config_json@
                == f.config()
        },
        _ => false,
    }
}

/// The state after a save was asked for: the form is checked first, and what is
/// wrong with it is shown.
pub open spec fn saving(before: State, after: State, r: Request) -> bool {
    &&& after == (State { error: after.error, busy: after.busy, ..before })
    &&& exists|f: McpForm| #[trigger]
        before.form.reads(f) && match f.error() {
            Some(e) => r is Nothing && opt_text(after.error) == Some(e) && after.busy
                == before.busy,
            None => save_request(f, r) && opt_text(after.busy) == Some("Saving..."@)
                && after.error == before.error,
        }
}

/// Checks the form and asks for it to be saved.
pub fn save_edit(state: &mut State) -> (r: Request)
    ensures
        saving(*old(state), *final(state), r),
{
    let form = state.form.snapshot();
    match form.build() {
        Ok(built) => {
            state.busy = Some("Saving...".to_owned());
            let secret = match built.secret {
                Some((id, value)) => Some(mcp_secret_command(id, value)),
                None => None,
            };
            let upsert = Command::UpsertMcpServer { config_json: built.config_json };
            assert(old(state).form.reads(form));
            Request::Save { secret, upsert }
        },
        Err(e) => {
            state.error = Some(e);
            assert(old(state).form.reads(form));
            Request::Nothing
        },
    }
}

/// What a save came to when its token could not be stored: the server is then
/// not sent.
pub fn token_failed(e: &str) -> (r: RpcOutcome)
    ensures
        r matches RpcOutcome::Saved(Err(m)) && m@ == "Saving the token failed: "@ + e@,
{
    RpcOutcome::Saved(Err(cat2("Saving the token failed: ", e)))
}

/// Where the token alone is masked, a field's text is drawn masked exactly where it
/// is the token's, and typing into the form does not change that.
pub proof fn law_only_the_token_is_masked(w: FormState, field: Field, key: KeyEvent, after: FormState)
    requires
        w.masks_token(),
        w.typed(key, after),
    ensures
        w.input(field) matches Some(area) ==> area_mask(area) == (if field == Field::BearerToken {
            Some('●')
        } else {
            None
        }),
        after.masks_token(),
{
}

/// Goes on with a save once its token was to be stored: the server is sent only
/// where that went well.
pub fn after_secret(result: Result<(), String>, upsert: Command) -> (r: Result<Command, RpcOutcome>)
    ensures
        match result {
            Ok(_) => r == Ok::<Command, RpcOutcome>(upsert),
            Err(e) => r matches Err(RpcOutcome::Saved(Err(m))) && m@ == "Saving the token failed: "@
                + e@,
        },
{
    match result {
        Ok(_) => Ok(upsert),
        Err(e) => Err(token_failed(e.as_str())),
    }
}

/// What a key does in the form.
#[derive(Debug, Clone, Copy, PartialEq, Eq, Structural)]
pub enum EditKey {
    Save,
    Cancel,
    NextField,
    PrevField,
    Cycle { back: bool },
    Text,
}

pub open spec fn edit_key(key: KeyEvent, focus: Field) -> EditKey {
    if key.modifiers.control && key.code == KeyCode::Char('s') {
        EditKey::Save
    } else {
        match key.code {
            KeyCode::Esc => EditKey::Cancel,
            KeyCode::Tab => EditKey::NextField,
            KeyCode::BackTab => EditKey::PrevField,
            _ => if focus.selects() && (key.code == KeyCode::Left || key.code == KeyCode::Right
                || key.code == KeyCode::Char(' ')) {
                EditKey::Cycle { back: key.code == KeyCode::Left }
            } else {
                EditKey::Text
            },
        }
    }
}

fn edit_key_of(key: KeyEvent, focus: Field) -> (k: EditKey)
    ensures
        k == edit_key(key, focus),
{
    if key.modifiers.control && key.code == KeyCode::Char('s') {
        return EditKey::Save;
    }
    let selects: bool = focus.is_selector();
    match key.code {
        KeyCode::Esc => EditKey::Cancel,
        KeyCode::Tab => EditKey::NextField,
        KeyCode::BackTab => EditKey::PrevField,
        KeyCode::Left if selects => EditKey::Cycle { back: true },
        KeyCode::Right if selects => EditKey::Cycle { back: false },
        KeyCode::Char(' ') if selects => EditKey::Cycle { back: false },
        _ => EditKey::Text,
    }
}

/// What a key in the form leads to.
pub open spec fn edit_step(before: State, key: KeyEvent, after: State, r: Request) -> bool {
    &&& edit_key(key, before.form.focus) != EditKey::Save ==> r is Nothing
    &&& match edit_key(key, before.form.focus) {
            EditKey::Save => saving(before, after, r),
            EditKey::Cancel => after == (State {
                error: None,
                mode: Mode::List,
                ..before
            }),
            EditKey::NextField => after == (State {
                form: FormState {
                    focus: field_after(before.form.shown(), before.form.focus),
                    ..before.form
                },
                ..before
            }),
            EditKey::PrevField => after == (State {
                form: FormState {
                    focus: field_before(before.form.shown(), before.form.focus),
                    ..before.form
                },
                ..before
            }),
            EditKey::Cycle { back } => cycled(before, back, after),
            EditKey::Text => if before.form.focus == Field::Name && before.form.editing {
                &&& after == (State { error: after.error, ..before })
                &&& opt_text(after.error) == Some("Name is immutable on edit."@)
            } else {
                &&& after == (State { form: after.form, ..before })
                &&& before.form.typed(key, after.form)
            },
        }
}

/// A key in the form. A selector is cycled; every other key goes to the
/// focused text field, except that the name of an existing server is fixed.
pub fn handle_edit_key(state: &mut State, key: KeyEvent) -> (r: Request)
    ensures
        old(state).form.masks_token() ==> final(state).form.masks_token(),
        old(state).in_range() ==> final(state).in_range(),
        edit_step(*old(state), key, *final(state), r),
{
    match edit_key_of(key, state.form.focus) {
        EditKey::Save => {
            return save_edit(state);
        },
        EditKey::Cancel => {
            state.error = None;
            state.mode = Mode::List;
        },
        EditKey::NextField => state.form.next_field(),
        EditKey::PrevField => state.form.prev_field(),
        EditKey::Cycle { back } => cycle_selector(state, back),
        EditKey::Text => {
            if state.form.focus == Field::Name && state.form.editing {
                state.error = Some("Name is immutable on edit.".to_owned());
            } else {
                state.form.press(key);
            }
        },
    }
    Request::Nothing
}

/// Asks for the selected server to be removed.
pub fn do_remove(state: &mut State) -> (r: Request)
    ensures
        if old(state).on_server() {
            &&& r matches Request::Remove(Command::RemoveMcpServer { name }) && name@ == old(state).server().name@
            &&& *final(state) == (State { busy: final(state).busy, ..*old(state) })
            &&& opt_text(final(state).busy) == Some("Removing..."@)
        } else {
            r is Nothing && *final(state) == (State { mode: Mode::List, ..*old(state) })
        },
{
    if state.selected >= state.servers.len() {
        state.mode = Mode::List;
        return Request::Nothing;
    }
    state.busy = Some("Removing...".to_owned());
    Request::Remove(
        Command::RemoveMcpServer { name: state.servers[state.selected].name.clone() },
    )
}

/// Whether a key answers the question before a removal.
pub open spec fn remove_answer(code: KeyCode) -> Option<bool> {
    match code {
        KeyCode::Enter => Some(true),
        KeyCode::Esc => Some(false),
        KeyCode::Char(c) => if c == 'y' || c == 'Y' {
            Some(true)
        } else if c == 'n' || c == 'N' {
            Some(false)
        } else {
            None
        },
        _ => None,
    }
}

/// What a key in the question before a removal leads to.
pub open spec fn remove_step(before: State, key: KeyEvent, after: State, r: Request) -> bool {
    &&& match remove_answer(key.code) {
            Some(true) => if before.on_server() {
                &&& r matches Request::Remove(Command::RemoveMcpServer { name }) && name@ == before.server().name@
                &&& after == (State { busy: after.busy, ..before })
                &&& opt_text(after.busy) == Some("Removing..."@)
            } else {
                r is Nothing && after == (State { mode: Mode::List, ..before })
            },
            Some(false) => r is Nothing && after == (State {
                mode: Mode::List,
                ..before
            }),
            None => r is Nothing && after == before,
        }
}

/// A key in the question before a removal. Only an answer has an effect.
pub fn handle_remove_key(state: &mut State, key: KeyEvent) -> (r: Request)
    ensures
        old(state).form.masks_token() ==> final(state).form.masks_token(),
        old(state).in_range() ==> final(state).in_range(),
        remove_step(*old(state), key, *final(state), r),
{
    match key.code {
        KeyCode::Char('y') | KeyCode::Char('Y') | KeyCode::Enter => do_remove(state),
        KeyCode::Char('n') | KeyCode::Char('N') | KeyCode::Esc => {
            state.mode = Mode::List;
            Request::Nothing
        },
        _ => Request::Nothing,
    }
}

/// A key in any mode. The sign-in command is dismissed by any key.
pub fn handle_key(state: &mut State, key: KeyEvent) -> (r: Request)
    requires
        old(state).fits(),
    ensures
        old(state).form.masks_token() ==> final(state).form.masks_token(),
        old(state).in_range() ==> final(state).in_range(),
        match old(state).mode {
            Mode::List => list_step(*old(state), key, *final(state), r),
            Mode::Edit => edit_step(*old(state), key, *final(state), r),
            Mode::RemoveConfirm => remove_step(*old(state), key, *final(state), r),
            Mode::SignInInfo => r is Nothing && *final(state) == (State {
                mode: Mode::List,
                ..*old(state)
            }),
        },
{
    match state.mode {
        Mode::List => handle_list_key(state, key),
        Mode::Edit => handle_edit_key(state, key),
        Mode::RemoveConfirm => handle_remove_key(state, key),
        Mode::SignInInfo => {
            state.mode = Mode::List;
            Request::Nothing
        },
    }
}

/// The state that an outcome leads to.
pub open spec fn applied(before: State, outcome: RpcOutcome, after: State, r: Request) -> bool {
    match outcome {
        RpcOutcome::Refreshed { servers, accounts } => {
            let rows = (match servers {
                Ok(list) => list@.len(),
                Err(_) => before.servers@.len(),
            }) + before.builtins@.len();
            &&& r is Nothing
            &&& after == (State {
                servers: after.servers,
                accounts: after.accounts,
                selected: after.selected,
                busy: None,
                error: after.error,
                ..before
            })
            &&& match servers {
                Ok(list) => after.servers == list && after.error is None && after.selected
                    == kept_selection(before.selected as int, rows as int),
                Err(e) => after.servers == before.servers && after.selected == before.selected
                    && opt_text(after.error) == Some("Failed to load MCP servers: "@ + e@),
            }
            &&& match accounts {
                Ok(list) => after.accounts == list,
                Err(_) => after.accounts@.len() == 0,
            }
        },
        RpcOutcome::Saved(Ok(_)) => {
            &&& r is Refresh
            &&& after == (State { error: None, mode: Mode::List, busy: after.busy, ..before })
            &&& opt_text(after.busy) == Some("Loading MCP servers..."@)
        },
        RpcOutcome::Saved(Err(e)) => {
            &&& r is Nothing
            &&& after == (State { error: after.error, busy: None, ..before })
            &&& opt_text(after.error) == Some("Save failed: "@ + e@)
        },
        RpcOutcome::Toggled(Ok(_)) => {
            &&& r is Refresh
            &&& after == (State { busy: after.busy, ..before })
            &&& opt_text(after.busy) == Some("Loading MCP servers..."@)
        },
        RpcOutcome::Toggled(Err(e)) => {
            &&& r is Nothing
            &&& after == (State { error: after.error, busy: None, ..before })
            &&& opt_text(after.error) == Some("Toggle failed: "@ + e@)
        },
        RpcOutcome::Removed(Ok(_)) => {
            &&& r is Refresh
            &&& after == (State { mode: Mode::List, busy: after.busy, ..before })
            &&& opt_text(after.busy) == Some("Loading MCP servers..."@)
        },
        RpcOutcome::Removed(Err(e)) => {
            &&& r is Nothing
            &&& after == (State { error: after.error, mode: Mode::List, busy: None, ..before })
            &&& opt_text(after.error) == Some("Remove failed: "@ + e@)
        },
        RpcOutcome::BuiltinSet { index, disabled, result: Ok(_) } => {
            &&& r is Nothing
            &&& after == (State {
                builtins: after.builtins,
                notice: after.notice,
                error: None,
                busy: None,
                ..before
            })
            &&& opt_text(after.notice) == Some("(applies on restart)"@)
            &&& after.builtins@ == (if index < before.builtins@.len() {
                before.builtins@.update(
                    index as int,
                    BuiltinServerDto {
                        disabled_by_config: disabled,
                        ..before.builtins@[index as int]
                    },
                )
            } else {
                before.builtins@
            })
        },
        RpcOutcome::BuiltinSet { index, disabled, result: Err(e) } => {
            &&& r is Nothing
            &&& after == (State { error: after.error, busy: None, ..before })
            &&& opt_text(after.error) == Some("Toggle failed: "@ + e@)
        },
    }
}

/// Applies what a request came to; a change is followed by a fresh list.
pub fn apply_outcome(state: &mut State, outcome: RpcOutcome) -> (r: Request)
    requires
        outcome matches RpcOutcome::Refreshed { servers: Ok(list), .. } ==> list@.len() + old(state).builtins@.len() <= usize::MAX,
    ensures
        applied(*old(state), outcome, *final(state), r),
        old(state).in_range() ==> final(state).in_range(),
{
    state.busy = None;
    match outcome {
        RpcOutcome::Refreshed { servers, accounts } => {
            match servers {
                Ok(list) => {
                    state.selected = keep_selection(
                        state.selected,
                        list.len() + state.builtins.len(),
                    );
                    state.servers = list;
                    state.error = None;
                },
                Err(e) => {
                    state.error = Some(cat2("Failed to load MCP servers: ", e.as_str()));
                },
            }
            match accounts {
                Ok(list) => {
                    state.accounts = list;
                },
                Err(_) => {
                    state.accounts = Vec::new();
                },
            }
            Request::Nothing
        },
        RpcOutcome::Saved(Ok(_)) => {
            state.error = None;
            state.mode = Mode::List;
            refresh_all(state)
        },
        RpcOutcome::Saved(Err(e)) => {
            state.error = Some(cat2("Save failed: ", e.as_str()));
            Request::Nothing
        },
        RpcOutcome::Toggled(Ok(_)) => refresh_all(state),
        RpcOutcome::Toggled(Err(e)) => {
            state.error = Some(cat2("Toggle failed: ", e.as_str()));
            Request::Nothing
        },
        RpcOutcome::Removed(Ok(_)) => {
            state.mode = Mode::List;
            refresh_all(state)
        },
        RpcOutcome::Removed(Err(e)) => {
            state.error = Some(cat2("Remove failed: ", e.as_str()));
            state.mode = Mode::List;
            Request::Nothing
        },
        RpcOutcome::BuiltinSet { index, disabled, result: Ok(_) } => {
            if index < state.builtins.len() {
                let row = &state.builtins[index];
                let changed = BuiltinServerDto {
                    name: row.name.clone(),
                    namespace: row.namespace.clone(),
                    tool_count: row.tool_count,
                    overridden_by: match &row.overridden_by {
                        Some(name) => Some(name.clone()),
                        None => None,
                    },
                    disabled_by_config: disabled,
                };
                state.builtins.set(index, changed);
            }
            state.error = None;
            state.notice = Some("(applies on restart)".to_owned());
            Request::Nothing
        },
        RpcOutcome::BuiltinSet { index, disabled, result: Err(e) } => {
            state.error = Some(cat2("Toggle failed: ", e.as_str()));
            Request::Nothing
        },
    }
}

/// The error where the transport has no command channel.
pub fn commands_unavailable() -> (s: &'static str)
    ensures
        s@
            == "MCP-server management isn't available over D-Bus — switch transport with --transport ws or the local socket"@,
{
    "MCP-server management isn't available over D-Bus — switch transport with --transport ws or the local socket"
}

pub open spec fn tone_color(tone: StatusTone) -> Tone {
    match tone {
        StatusTone::Good => Tone::Good,
        StatusTone::Warn => Tone::Warn,
        StatusTone::Error => Tone::Error,
        StatusTone::Neutral => Tone::TextDim,
    }
}

impl StatusTone {
    /// The theme's colour for a tone.
    pub fn color(self) -> (t: Tone)
        ensures
            t == tone_color(self),
    {
        match self {
            StatusTone::Good => Tone::Good,
            StatusTone::Warn => Tone::Warn,
            StatusTone::Error => Tone::Error,
            StatusTone::Neutral => Tone::TextDim,
        }
    }
}

pub open spec fn bold() -> Style {
    Style { bold: true, ..plain() }
}

/// The first line of a server's row: a dot, the name, the transport, the
/// status, and for a running server how many tools it has.
pub open spec fn head_spans(server: McpServerView) -> Seq<(Seq<char>, Style)> {
    let (tone, label) = status_shown(server.status@);
    let head = seq![
        ("●"@, toned(tone_color(tone))),
        (" "@, plain()),
        (sanitized(server.name@), bold()),
        ("  ["@ + chip(server.transport@) + "]"@, toned(Tone::TextDim)),
        ("  "@ + label, toned(tone_color(tone))),
    ];
    if server.status@ == "running"@ && server.tool_count > 0 {
        head.push(
            (
                " · "@ + digits(server.tool_count as nat) + " tool"@ + (if server.tool_count == 1 {
                    ""@
                } else {
                    "s"@
                }),
                toned(Tone::TextDim),
            ),
        )
    } else {
        head
    }
}

/// A server waits for an interactive sign-in.
pub open spec fn awaits_sign_in(server: McpServerView) -> bool {
    server.configure_command@.len() > 0 && (server.status@ == "needs_auth"@ || server.status@
        == "auth_expired"@)
}

/// One line, where `present`.
pub open spec fn line_if(present: bool, text: Seq<char>, style: Style) -> Seq<
    Seq<(Seq<char>, Style)>,
> {
    if present {
        seq![seq![(text, style)]]
    } else {
        Seq::<Seq<(Seq<char>, Style)>>::empty()
    }
}

/// The lines of a server's row. What the daemon sent is sanitized.
pub open spec fn server_lines(server: McpServerView) -> Seq<Seq<(Seq<char>, Style)>> {
    seq![head_spans(server)] + line_if(
        server.target@.len() > 0,
        "    "@ + sanitized(server.target@),
        toned(Tone::TextDim),
    ) + line_if(
        server.detail is Some,
        "    "@ + sanitized(text_or_empty(server.detail)),
        Style { italic: true, ..toned(Tone::Error) },
    ) + line_if(
        awaits_sign_in(server),
        "    Sign-in required — press 'c' for the command to run on the daemon host"@,
        toned(Tone::Warn),
    )
}

fn head_line(server: &McpServerView) -> (line: Line)
    ensures
        line_view(line@) == head_spans(*server),
{
    let (tone, label) = status_display(server.status.as_str());
    let mut line: Line = Vec::new();
    push_span(&mut line, "●".to_owned(), toned_style(tone.color()));
    push_span(&mut line, " ".to_owned(), plain_style());
    push_span(
        &mut line,
        sanitize(server.name.as_str()),
        Style { bold: true, ..plain_style() },
    );
    push_span(
        &mut line,
        cat3("  [", transport_chip(server.transport.as_str()), "]"),
        toned_style(Tone::TextDim),
    );
    push_span(&mut line, cat2("  ", label), toned_style(tone.color()));
    if same(server.status.as_str(), "running") && server.tool_count > 0 {
        let n = decimal(server.tool_count as u64);
        let plural = if server.tool_count == 1 {
            ""
        } else {
            "s"
        };
        push_span(
            &mut line,
            cat4(" · ", n.as_str(), " tool", plural),
            toned_style(Tone::TextDim),
        );
    }
    assert(line_view(line@) =~= head_spans(*server));
    line
}

/// The row of a server.
pub fn server_item(server: &McpServerView) -> (lines: Vec<Line>)
    ensures
        lines_view(lines@) == server_lines(*server),
{
    let mut lines: Vec<Line> = Vec::new();
    push_line(&mut lines, head_line(server));
    if !server.target.as_str().is_empty() {
        let target = sanitize(server.target.as_str());
        push_line(
            &mut lines,
            line_of(cat2("    ", target.as_str()), toned_style(Tone::TextDim)),
        );
    }
    match &server.detail {
        Some(detail) => {
            let text = sanitize(detail.as_str());
            push_line(
                &mut lines,
                line_of(
                    cat2("    ", text.as_str()),
                    Style { italic: true, ..toned_style(Tone::Error) },
                ),
            );
        },
        None => {},
    }
    if server.configure_command.len() > 0 && (same(server.status.as_str(), "needs_auth") || same(
        server.status.as_str(),
        "auth_expired",
    )) {
        push_line(
            &mut lines,
            line_of(
                "    Sign-in required — press 'c' for the command to run on the daemon host".to_owned(),
                toned_style(Tone::Warn),
            ),
        );
    }
    assert(lines_view(lines@) =~= server_lines(*server));
    lines
}

/// The row of a compiled-in server: dimmed, with the reason, where it does not
/// run.
pub open spec fn builtin_spans(b: BuiltinServerDto) -> Seq<(Seq<char>, Style)> {
    let reason = off_reason(b.disabled_by_config, opt_text(b.overridden_by));
    let style = if reason is Some {
        toned(Tone::TextDim)
    } else {
        bold()
    };
    let head = seq![
        (sanitized(b.name@), style),
        ("  [built-in]"@, toned(Tone::TextDim)),
    ];
    match reason {
        Some(r) => head.push(("  "@ + r, toned(Tone::TextDim))),
        None => head,
    }
}

fn builtin_item(b: &BuiltinServerDto) -> (line: Line)
    ensures
        line_view(line@) == builtin_spans(*b),
{
    let by = match &b.overridden_by {
        Some(name) => Some(name.as_str()),
        None => None,
    };
    let reason = disabled_reason(b.disabled_by_config, by);
    let mut line: Line = Vec::new();
    let style = if reason.is_some() {
        toned_style(Tone::TextDim)
    } else {
        Style { bold: true, ..plain_style() }
    };
    push_span(&mut line, sanitize(b.name.as_str()), style);
    push_span(&mut line, "  [built-in]".to_owned(), toned_style(Tone::TextDim));
    match reason {
        Some(r) => {
            push_span(&mut line, cat2("  ", r.as_str()), toned_style(Tone::TextDim));
        },
        None => {},
    }
    assert(line_view(line@) =~= builtin_spans(*b));
    line
}

/// The rows of the panel; a hint where there is none.
pub open spec fn list_rows(state: State) -> Seq<Seq<Seq<(Seq<char>, Style)>>> {
    if state.rows() == 0 {
        seq![seq![seq![("(no MCP servers — press 'a' to add one)"@, toned(Tone::TextDim))]]]
    } else {
        Seq::new(state.servers@.len(), |i: int| server_lines(state.servers@[i])) + Seq::new(
            state.builtins@.len(),
            |i: int| seq![builtin_spans(state.builtins@[i])],
        )
    }
}

/// The list as it is drawn.
pub fn draw_list(state: &State) -> (v: ListView)
    requires
        state.fits(),
    ensures
        v.title@ == list_title("Servers"@, state.servers@.len()),
        items_view(v.items@) == list_rows(*state),
        v.selected == shown_selection(state.selected, state.rows()),
{
    let mut items: Vec<Vec<Line>> = Vec::new();
    let total: usize = state.servers.len() + state.builtins.len();
    if total == 0 {
        let line = line_of(
            "(no MCP servers — press 'a' to add one)".to_owned(),
            toned_style(Tone::TextDim),
        );
        let mut lines: Vec<Line> = Vec::new();
        push_line(&mut lines, line);
        assert(lines_view(lines@) =~= list_rows(*state)[0]);
        items.push(lines);
    } else {
        let mut i: usize = 0;
        while i < state.servers.len()
            invariant
                i <= state.servers@.len(),
                items@.len() == i,
                forall|j: int|
                    0 <= j < i ==> lines_view((#[trigger] items@[j])@) == server_lines(
                        state.servers@[j],
                    ),
            decreases state.servers@.len() - i,
        {
            items.push(server_item(&state.servers[i]));
            i += 1;
        }
        let n: usize = state.servers.len();
        let mut k: usize = 0;
        while k < state.builtins.len()
            invariant
                n == state.servers@.len(),
                k <= state.builtins@.len(),
                items@.len() == n + k,
                forall|j: int|
                    0 <= j < n ==> lines_view((#[trigger] items@[j])@) == server_lines(
                        state.servers@[j],
                    ),
                forall|j: int|
                    n <= j < n + k ==> lines_view((#[trigger] items@[j])@) == seq![
                        builtin_spans(state.builtins@[j - n]),
                    ],
            decreases state.builtins@.len() - k,
        {
            let mut lines: Vec<Line> = Vec::new();
            push_line(&mut lines, builtin_item(&state.builtins[k]));
            assert(lines_view(lines@) =~= seq![builtin_spans(state.builtins@[k as int])]);
            items.push(lines);
            k += 1;
        }
    }
    assert(items_view(items@) =~= list_rows(*state));
    ListView {
        title: title_of("Servers", state.servers.len()),
        items,
        selected: if total == 0 {
            None
        } else {
            Some(state.selected)
        },
    }
}

/// A selector: chips, with arrows around them where it has the focus.
pub open spec fn selector_spans(chips: Seq<(&'static str, bool)>, focused: bool) -> Seq<
    (Seq<char>, Style),
> {
    if focused {
        seq![("‹ "@, toned(Tone::BorderActive))] + chip_spans(chips) + seq![
            (" ›  (←/→)"@, toned(Tone::BorderActive)),
        ]
    } else {
        seq![("  "@, plain())] + chip_spans(chips)
    }
}

/// A selector as it is drawn.
pub fn draw_chip_line(chips: &Vec<(&'static str, bool)>, focused: bool) -> (line: Line)
    ensures
        line_view(line@) == selector_spans(chips@, focused),
{
    let mut line: Line = Vec::new();
    if focused {
        push_span(&mut line, "‹ ".to_owned(), toned_style(Tone::BorderActive));
    } else {
        push_span(&mut line, "  ".to_owned(), plain_style());
    }
    push_chips(&mut line, chips);
    if focused {
        push_span(&mut line, " ›  (←/→)".to_owned(), toned_style(Tone::BorderActive));
    }
    assert(line_view(line@) =~= selector_spans(chips@, focused));
    line
}

/// The account `id` is in the list, first at place `i` or later.
pub open spec fn account_known(accounts: Seq<ServiceAccountView>, id: Seq<char>) -> bool {
    exists|i: int| 0 <= i < accounts.len() && (#[trigger] accounts[i]).id@ == id
}

/// How the chosen account reads.
pub open spec fn account_label(accounts: Seq<ServiceAccountView>, id: Seq<char>) -> Seq<char> {
    if account_known(accounts, id) {
        let a = accounts[account_place(accounts, id, 0)];
        if a.display_name@.len() > 0 {
            sanitized(a.display_name@)
        } else {
            sanitized(a.id@)
        }
    } else {
        "(choose account)"@
    }
}

/// The account selector; a note where there are no accounts.
pub open spec fn account_spans(
    accounts: Seq<ServiceAccountView>,
    id: Seq<char>,
    focused: bool,
) -> Seq<(Seq<char>, Style)> {
    if accounts.len() == 0 {
        seq![("  (no service accounts — add one on the daemon host)"@, toned(Tone::Warn))]
    } else {
        let label = " "@ + account_label(accounts, id) + " "@;
        if focused {
            seq![
                ("  "@, plain()),
                ("‹ "@, toned(Tone::BorderActive)),
                (label, chosen()),
                (" ›  (←/→)"@, toned(Tone::BorderActive)),
            ]
        } else {
            seq![("  "@, plain()), (label, toned(Tone::TextDim))]
        }
    }
}

fn account_label_of(accounts: &Vec<ServiceAccountView>, id: &str) -> (s: String)
    ensures
        s@ == account_label(accounts@, id@),
{
    let mut i: usize = 0;
    while i < accounts.len()
        invariant
            i <= accounts@.len(),
            forall|j: int| 0 <= j < i ==> (#[trigger] accounts@[j]).id@ != id@,
            account_place(accounts@, id@, 0) == account_place(accounts@, id@, i as int),
        decreases accounts@.len() - i,
    {
        if same(accounts[i].id.as_str(), id) {
            assert(accounts@[i as int].id@ == id@);
            return if accounts[i].display_name.as_str().is_empty() {
                sanitize(accounts[i].id.as_str())
            } else {
                sanitize(accounts[i].display_name.as_str())
            };
        }
        i += 1;
    }
    "(choose account)".to_owned()
}

/// The account selector as it is drawn.
pub fn draw_account_line(state: &State, focused: bool) -> (line: Line)
    ensures
        line_view(line@) == account_spans(state.accounts@, state.form.oauth_account@, focused),
{
    if state.accounts.len() == 0 {
        return line_of(
            "  (no service accounts — add one on the daemon host)".to_owned(),
            toned_style(Tone::Warn),
        );
    }
    let name = account_label_of(&state.accounts, state.form.oauth_account.as_str());
    let label = cat3(" ", name.as_str(), " ");
    let mut line: Line = Vec::new();
    push_span(&mut line, "  ".to_owned(), plain_style());
    if focused {
        push_span(&mut line, "‹ ".to_owned(), toned_style(Tone::BorderActive));
        push_span(&mut line, label, chosen_style());
        push_span(&mut line, " ›  (←/→)".to_owned(), toned_style(Tone::BorderActive));
    } else {
        push_span(&mut line, label, toned_style(Tone::TextDim));
    }
    assert(line_view(line@) =~= account_spans(
        state.accounts@,
        state.form.oauth_account@,
        focused,
    ));
    line
}

/// What a field of the form is drawn as.
pub enum FieldInput {
    /// The text area of the field.
    Text,
    /// A selector.
    Selector(Line),
}

/// The label of a field.
pub open spec fn field_label(editing: bool, field: Field) -> Seq<char> {
    match field {
        Field::Name => if editing {
            "Name (locked)"@
        } else {
            "Name"@
        },
        Field::Transport => if editing {
            "Transport — locked on edit"@
        } else {
            "Transport"@
        },
        Field::Enabled => "Enabled"@,
        Field::Command => "Command (e.g. fileio-mcp)"@,
        Field::Args => "Arguments (space-separated)"@,
        Field::Namespace => "Namespace (optional)"@,
        Field::Env => "Environment (KEY=value per line)"@,
        Field::Url => "URL (https://host/mcp)"@,
        Field::Auth => "Authentication"@,
        Field::BearerToken => "Bearer token (write-only; blank keeps current)"@,
        Field::OAuthAccount => "Service account"@,
        Field::Scopes => "Scopes (space or comma-separated)"@,
    }
}

pub open spec fn transport_chips(t: McpTransport) -> Seq<(&'static str, bool)> {
    seq![
        ("Local (stdio)", t == McpTransport::Stdio),
        ("Remote (HTTP)", t == McpTransport::Http),
    ]
}

pub open spec fn enabled_chips(on: bool) -> Seq<(&'static str, bool)> {
    seq![("Enabled", on), ("Disabled", !on)]
}

pub open spec fn auth_chips(a: McpAuthKind) -> Seq<(&'static str, bool)> {
    seq![
        ("None", a == McpAuthKind::Anonymous),
        ("Bearer token", a == McpAuthKind::Bearer),
        ("OAuth account", a == McpAuthKind::OAuth),
    ]
}

/// What the input of a field shows; `None` for a text area.
pub open spec fn field_selector(state: State, field: Field, focused: bool) -> Option<
    Seq<(Seq<char>, Style)>,
> {
    match field {
        Field::Transport => Some(selector_spans(transport_chips(state.form.transport), focused)),
        Field::Enabled => Some(selector_spans(enabled_chips(state.form.enabled), focused)),
        Field::Auth => Some(selector_spans(auth_chips(state.form.auth), focused)),
        Field::OAuthAccount => Some(
            account_spans(state.accounts@, state.form.oauth_account@, focused),
        ),
        _ => None,
    }
}

pub open spec fn input_view(input: FieldInput) -> Option<Seq<(Seq<char>, Style)>> {
    match input {
        FieldInput::Text => None,
        FieldInput::Selector(line) => Some(line_view(line@)),
    }
}

fn field_label_of(editing: bool, field: Field) -> (s: &'static str)
    ensures
        s@ == field_label(editing, field),
{
    match field {
        Field::Name => if editing {
            "Name (locked)"
        } else {
            "Name"
        },
        Field::Transport => if editing {
            "Transport — locked on edit"
        } else {
            "Transport"
        },
        Field::Enabled => "Enabled",
        Field::Command => "Command (e.g. fileio-mcp)",
        Field::Args => "Arguments (space-separated)",
        Field::Namespace => "Namespace (optional)",
        Field::Env => "Environment (KEY=value per line)",
        Field::Url => "URL (https://host/mcp)",
        Field::Auth => "Authentication",
        Field::BearerToken => "Bearer token (write-only; blank keeps current)",
        Field::OAuthAccount => "Service account",
        Field::Scopes => "Scopes (space or comma-separated)",
    }
}

/// A field of the form as it is drawn: its label and its input.
pub fn draw_field(state: &State, field: Field, focused: bool) -> (r: (&'static str, FieldInput))
    ensures
        r.0@ == field_label(state.form.editing, field),
        input_view(r.1) == field_selector(*state, field, focused),
{
    let label = field_label_of(state.form.editing, field);
    match field {
        Field::Transport => {
            let t = state.form.transport;
            let chips: Vec<(&'static str, bool)> = vec![
                ("Local (stdio)", t == McpTransport::Stdio),
                ("Remote (HTTP)", t == McpTransport::Http),
            ];
            assert(chips@ =~= transport_chips(t));
            (label, FieldInput::Selector(draw_chip_line(&chips, focused)))
        },
        Field::Enabled => {
            let chips: Vec<(&'static str, bool)> = vec![
                ("Enabled", state.form.enabled),
                ("Disabled", !state.form.enabled),
            ];
            assert(chips@ =~= enabled_chips(state.form.enabled));
            (label, FieldInput::Selector(draw_chip_line(&chips, focused)))
        },
        Field::Auth => {
            let a = state.form.auth;
            let chips: Vec<(&'static str, bool)> = vec![
                ("None", a == McpAuthKind::Anonymous),
                ("Bearer token", a == McpAuthKind::Bearer),
                ("OAuth account", a == McpAuthKind::OAuth),
            ];
            assert(chips@ =~= auth_chips(a));
            (label, FieldInput::Selector(draw_chip_line(&chips, focused)))
        },
        Field::OAuthAccount => (label, FieldInput::Selector(draw_account_line(state, focused))),
        _ => (label, FieldInput::Text),
    }
}

/// The title of the form.
pub fn form_title(form: &FormState) -> (s: &'static str)
    ensures
        s@ == (if form.editing {
            "Edit MCP server"@
        } else {
            "New MCP server"@
        }),
{
    if form.editing {
        "Edit MCP server"
    } else {
        "New MCP server"
    }
}

/// The fields of the form in order, each with the height of its input and
/// whether it has the focus.
pub fn draw_edit_form(form: &FormState) -> (rows: Vec<(Field, u16, bool)>)
    ensures
        rows@.len() == form.shown().len(),
        forall|i: int|
            0 <= i < rows@.len() ==> {
                let field = form.shown()[i];
                &&& (#[trigger] rows@[i]).0 == field
                &&& rows@[i].1 == (if field.selects() {
                    1u16
                } else if field == Field::Env {
                    5u16
                } else {
                    3u16
                })
                &&& rows@[i].2 == (form.focus == field)
            },
{
    let fields = fields_for(form.transport, form.auth);
    let mut rows: Vec<(Field, u16, bool)> = Vec::new();
    let mut i: usize = 0;
    while i < fields.len()
        invariant
            fields@ == form.shown(),
            i <= fields@.len(),
            rows@.len() == i,
            forall|j: int|
                0 <= j < i ==> {
                    let field = form.shown()[j];
                    &&& (#[trigger] rows@[j]).0 == field
                    &&& rows@[j].1 == (if field.selects() {
                        1u16
                    } else if field == Field::Env {
                        5u16
                    } else {
                        3u16
                    })
                    &&& rows@[j].2 == (form.focus == field)
                },
        decreases fields@.len() - i,
    {
        rows.push((fields[i], field_input_height(fields[i]), form.focus == fields[i]));
        i += 1;
    }
    rows
}

/// The question before a removal.
pub fn remove_question(state: &State) -> (s: String)
    ensures
        s@ == "Remove \""@ + (if state.on_server() {
            sanitized(state.server().name@)
        } else {
            "this server"@
        }) + "\"?"@,
{
    if state.selected < state.servers.len() {
        let name = sanitize(state.servers[state.selected].name.as_str());
        cat3("Remove \"", name.as_str(), "\"?")
    } else {
        cat3("Remove \"", "this server", "\"?")
    }
}

/// Every part of a command line sanitized.
pub open spec fn sanitized_each(parts: Seq<Seq<char>>) -> Seq<Seq<char>> {
    Seq::new(parts.len(), |i: int| sanitized(parts[i]))
}

/// The sign-in command of the selected server, to be run on the daemon's host.
pub fn signin_command(state: &State) -> (s: Option<String>)
    ensures
        opt_text(s) == (if state.on_server() {
            Some(joined(sanitized_each(texts(state.server().configure_command@)), " "@))
        } else {
            None
        }),
{
    if state.selected >= state.servers.len() {
        return None;
    }
    let parts = &state.servers[state.selected].configure_command;
    let mut clean: Vec<String> = Vec::new();
    let mut i: usize = 0;
    while i < parts.len()
        invariant
            i <= parts@.len(),
            clean@.len() == i,
            forall|j: int| 0 <= j < i ==> (#[trigger] clean@[j])@ == sanitized(parts@[j]@),
        decreases parts@.len() - i,
    {
        clean.push(sanitize(parts[i].as_str()));
        i += 1;
    }
    assert(texts(clean@) =~= sanitized_each(texts(parts@)));
    Some(join(&clean, " "))
}

/// The status line of the panel: what is going on, else what went wrong, else what
/// is to be told.
pub open spec fn panel_status(s: State) -> Option<(Seq<char>, Style)> {
    if s.busy is Some || s.error is Some {
        status_line(s.busy, s.error)
    } else {
        match s.notice {
            Some(text) => Some((text@, toned(Tone::Good))),
            None => None,
        }
    }
}

/// The status line of the panel.
pub fn draw_panel_status(state: &State) -> (s: Option<Span>)
    ensures
        match s {
            Some(span) => panel_status(*state) == Some(span_view(span)),
            None => panel_status(*state) is None,
        },
{
    match draw_status(&state.busy, &state.error) {
        Some(span) => Some(span),
        None => match &state.notice {
            Some(text) => Some(Span { text: text.clone(), style: toned_style(Tone::Good) }),
            None => None,
        },
    }
}

/// The key hints of a mode.
pub fn hints(mode: Mode) -> (h: Vec<(&'static str, &'static str)>)
    ensures
        h@ == (match mode {
            Mode::List => seq![
                ("Enter", "edit"),
                ("a", "add"),
                ("Space", "enable/disable"),
                ("c", "sign-in cmd"),
                ("d", "remove"),
                ("r", "refresh"),
                ("Esc", "back to chat"),
            ],
            Mode::Edit => seq![
                ("Tab", "next field"),
                ("←/→", "cycle selector"),
                ("Ctrl+S", "save"),
                ("Esc", "cancel"),
            ],
            Mode::RemoveConfirm => seq![("y/Enter", "confirm"), ("n/Esc", "cancel")],
            Mode::SignInInfo => seq![("any key", "close")],
        }),
{
    match mode {
        Mode::List => vec![
            ("Enter", "edit"),
            ("a", "add"),
            ("Space", "enable/disable"),
            ("c", "sign-in cmd"),
            ("d", "remove"),
            ("r", "refresh"),
            ("Esc", "back to chat"),
        ],
        Mode::Edit => vec![
            ("Tab", "next field"),
            ("←/→", "cycle selector"),
            ("Ctrl+S", "save"),
            ("Esc", "cancel"),
        ],
        Mode::RemoveConfirm => vec![("y/Enter", "confirm"), ("n/Esc", "cancel")],
        Mode::SignInInfo => vec![("any key", "close")],
    }
}

/// No control character that the daemon sent in a server's name, target or
/// detail reaches the terminal.
pub proof fn law_server_rows_are_plain(server: McpServerView, row: int, span: int, i: int)
    requires
        0 <= row < server_lines(server).len(),
        0 <= span < server_lines(server)[row].len(),
        0 <= i < server_lines(server)[row][span].0.len(),
    ensures
        !is_control(server_lines(server)[row][span].0[i]),
{
    reveal_strlit("●");
    reveal_strlit(" ");
    reveal_strlit("  [");
    reveal_strlit("]");
    reveal_strlit("  ");
    reveal_strlit("    ");
    reveal_strlit(" · ");
    reveal_strlit(" tool");
    reveal_strlit("");
    reveal_strlit("s");
    reveal_strlit("remote");
    reveal_strlit("local");
    reveal_strlit("Running");
    reveal_strlit("Stopped");
    reveal_strlit("Disabled");
    reveal_strlit("Sign in required");
    reveal_strlit("Sign in expired");
    reveal_strlit("Error");
    reveal_strlit("Unknown");
    reveal_strlit("    Sign-in required — press 'c' for the command to run on the daemon host");
    lemma_digits_plain(server.tool_count as nat);
}

proof fn lemma_digits_plain(n: nat)
    ensures
        forall|i: int| 0 <= i < digits(n).len() ==> !is_control(#[trigger] digits(n)[i]),
    decreases n,
{
    let d = n % 10;
    assert(0 <= d < 10);
    assert(digit(d) as u32 == 48 + d);
    if n >= 10 {
        lemma_digits_plain(n / 10);
        assert(digits(n) == digits(n / 10).push(digit(d)));
    } else {
        assert(digits(n) == seq![digit(d)]);
    }
}

/// Every form has a name, a transport and a switch. A local server is described by its
/// command line and environment, a remote one by its address and the way it signs in,
/// with the token or the account that this way needs.
pub proof fn law_fields_of_servers(transport: McpTransport, auth: McpAuthKind, field: Field)
    ensures
        ({
            let fields = shown_fields(transport, auth);
            let http = transport == McpTransport::Http;
            &&& fields[0] == Field::Name
            &&& fields.no_duplicates()
            &&& fields.contains(field) <==> match field {
                Field::Name | Field::Transport | Field::Enabled => true,
                Field::Command | Field::Args | Field::Namespace | Field::Env => !http,
                Field::Url | Field::Auth => http,
                Field::BearerToken => http && auth == McpAuthKind::Bearer,
                Field::OAuthAccount | Field::Scopes => http && auth == McpAuthKind::OAuth,
            }
        }),
{
    let fields = shown_fields(transport, auth);
    assert(fields[0] == Field::Name);
    assert(fields[1] == Field::Transport);
    assert(fields[2] == Field::Enabled);
    match transport {
        McpTransport::Stdio => {
            assert(fields[3] == Field::Command);
            assert(fields[4] == Field::Args);
            assert(fields[5] == Field::Namespace);
            assert(fields[6] == Field::Env);
        },
        McpTransport::Http => {
            assert(fields[3] == Field::Url);
            assert(fields[4] == Field::Auth);
            match auth {
                McpAuthKind::Anonymous => {},
                McpAuthKind::Bearer => {
                    assert(fields[5] == Field::BearerToken);
                },
                McpAuthKind::OAuth => {
                    assert(fields[5] == Field::OAuthAccount);
                    assert(fields[6] == Field::Scopes);
                },
            }
        },
    }
    assert(fields.contains(field) ==> exists|i: int| 0 <= i < fields.len() && fields[i] == field);
}

/// In the list, the arrow keys go to the neighbouring row, Enter opens the form of the
/// selected server, A an empty one, Space turns the selected row on or off, D asks
/// before a removal, R loads the list again and Escape leaves. No key changes the list
/// itself.
pub proof fn law_list_keys(before: State, key: KeyEvent, after: State, r: Request)
    requires
        list_step(before, key, after, r),
        before.in_range(),
        before.fits(),
    ensures
        after.servers == before.servers,
        after.builtins == before.builtins,
        after.accounts == before.accounts,
        r is Refresh <==> bare(key, KeyCode::Char('r')),
        r is Toggle || r is SetBuiltin <==> (bare(key, KeyCode::Char(' ')) || bare(
            key,
            KeyCode::Char('t'),
        )) && before.rows() > 0,
        !(r is Refresh) && !(r is Toggle) && !(r is SetBuiltin) ==> r is Nothing,
        bare(key, KeyCode::Down) || bare(key, KeyCode::Char('j')) ==> after.selected == (
        if before.selected + 1 >= before.rows() {
            0
        } else {
            before.selected + 1
        }) && after.mode == before.mode,
        bare(key, KeyCode::Up) || bare(key, KeyCode::Char('k')) ==> after.selected == (
        if before.rows() == 0 {
            0
        } else if before.selected == 0 {
            before.rows() - 1
        } else {
            before.selected - 1
        }) && after.mode == before.mode,
        (bare(key, KeyCode::Enter) || bare(key, KeyCode::Char('e'))) && before.selected
            < before.servers@.len() ==> after.mode == Mode::Edit && after.form.shows(
            before.servers@[before.selected as int],
        ) && after.form.editing,
        bare(key, KeyCode::Char('a')) ==> after.mode == Mode::Edit && !after.form.editing
            && after.form.is_blank(),
        bare(key, KeyCode::Char('d')) && before.selected < before.servers@.len() ==> after.mode
            == Mode::RemoveConfirm,
        after.mode == Mode::RemoveConfirm && before.mode != Mode::RemoveConfirm ==> bare(
            key,
            KeyCode::Char('d'),
        ) && before.selected < before.servers@.len(),
        bare(key, KeyCode::Char('c')) && before.selected < before.servers@.len() ==> (after.mode
            == Mode::SignInInfo <==> before.servers@[before.selected as int].configure_command@.len()
            > 0 || before.mode == Mode::SignInInfo),
        after.closing && !before.closing ==> bare(key, KeyCode::Esc) || bare(
            key,
            KeyCode::Char('q'),
        ),
        bare(key, KeyCode::Esc) || bare(key, KeyCode::Char('q')) ==> after.closing,
{
    if before.rows() > 0 {
        law_steps_lead_to_the_neighbour(before.selected as int, before.rows() as int);
    }
}

/// A toggle is of the selected row, and to the state that it is not in.
pub proof fn law_toggle_turns_the_selected_row(before: State, after: State, r: Request)
    requires
        toggled(before, after, r),
        before.in_range(),
        before.rows() > 0,
    ensures
        before.selected < before.servers@.len() ==> (r matches Request::Toggle(command)
            && command matches Command::SetMcpServerEnabled { name, enabled } && name@
            == before.servers@[before.selected as int].name@ && enabled
            != before.servers@[before.selected as int].enabled),
        before.selected >= before.servers@.len() ==> (r matches Request::SetBuiltin {
            index,
            name,
            disabled,
        } && before.servers@.len() + index == before.selected && name@
            == before.builtins@[index as int].name@ && disabled
            != before.builtins@[index as int].disabled_by_config),
        after.servers == before.servers,
        after.builtins == before.builtins,
{
}

/// In the form, Ctrl+S saves what is typed or says what is missing, Escape leaves
/// without a request, and a typed key changes the focused text and no other one. The
/// name of an existing server stays.
pub proof fn law_form_keys(before: State, key: KeyEvent, after: State, r: Request)
    requires
        edit_step(before, key, after, r),
    ensures
        after.servers == before.servers,
        after.builtins == before.builtins,
        after.selected == before.selected,
        r is Save ==> key.modifiers.control && key.code == KeyCode::Char('s'),
        !(r is Save) ==> r is Nothing,
        key.modifiers.control && key.code == KeyCode::Char('s') ==> after.form == before.form && (
        r is Save || after.error is Some) && after.mode == before.mode,
        key.code == KeyCode::Esc ==> after.mode == Mode::List && r is Nothing,
        after.mode != before.mode ==> key.code == KeyCode::Esc,
        before.form.editing ==> after.form.name == before.form.name,
        before.form.editing ==> after.form.transport == before.form.transport,
        after.form.editing == before.form.editing,
        forall|field: Field|
            field != before.form.focus ==> #[trigger] after.form.input(field) == before.form.input(
                field,
            ),
{
}

/// A save asks for exactly one server, described as the form reads; a typed token is
/// stored before it, and nothing else is.
pub proof fn law_saved_server_is_the_typed_one(before: State, after: State, r: Request)
    requires
        saving(before, after, r),
    ensures
        exists|f: McpForm| #[trigger]
            before.form.reads(f) && (r is Save <==> f.error() is None) && (f.error() is Some
                ==> opt_text(after.error) == f.error()) && (r matches Request::Save {
                secret,
                upsert,
            } ==> {
                &&& upsert matches Command::UpsertMcpServer { config_json } && config_json@
                    == json_object(f.members())
                &&& secret is Some <==> f.transport == McpTransport::Http && f.auth
                    == McpAuthKind::Bearer && trimmed(f.bearer_token@).len() > 0
                &&& secret matches Some(command) ==> (command matches Command::SetMcpSecret {
                    id,
                    value,
                } && id@ == trimmed(f.name@) + "_token"@ && value.0@ == trimmed(f.bearer_token@))
            }),
        after.form == before.form,
        after.mode == before.mode,
        after.servers == before.servers,
{
    let f = choose|f: McpForm| #[trigger]
        before.form.reads(f) && match f.error() {
            Some(e) => r is Nothing && opt_text(after.error) == Some(e) && after.busy
                == before.busy,
            None => save_request(f, r) && opt_text(after.busy) == Some("Saving..."@)
                && after.error == before.error,
        };
    assert(before.form.reads(f));
}

/// A server is removed only where the question is answered with yes, and then it is the
/// selected one.
pub proof fn law_removal_is_confirmed(before: State, key: KeyEvent, after: State, r: Request)
    requires
        remove_step(before, key, after, r),
    ensures
        r matches Request::Remove(command) ==> (key.code == KeyCode::Enter || key.code
            == KeyCode::Char('y') || key.code == KeyCode::Char('Y')) && before.selected
            < before.servers@.len() && (command matches Command::RemoveMcpServer { name } && name@
            == before.servers@[before.selected as int].name@),
        !(r is Remove) ==> r is Nothing,
        (key.code == KeyCode::Enter || key.code == KeyCode::Char('y') || key.code == KeyCode::Char(
            'Y',
        )) && before.selected < before.servers@.len() ==> r is Remove,
        key.code == KeyCode::Esc || key.code == KeyCode::Char('n') || key.code == KeyCode::Char('N')
            ==> after.mode == Mode::List,
        after.servers == before.servers,
{
}

/// A change that the daemon took is followed by a fresh list; one that it refused is
/// told, with its reason, and leaves the form as it is. A fetched list is shown whole.
pub proof fn law_outcomes_are_shown(before: State, outcome: RpcOutcome, after: State, r: Request)
    requires
        applied(before, outcome, after, r),
    ensures
        outcome matches RpcOutcome::Refreshed { servers, accounts } ==> {
            &&& servers matches Ok(list) ==> after.servers == list && after.error is None
            &&& servers matches Err(e) ==> after.servers == before.servers && (
            after.error matches Some(t) && holds_text(t@, e@))
            &&& accounts matches Ok(list) ==> after.accounts == list
            &&& after.busy is None
            &&& r is Nothing
        },
        outcome matches RpcOutcome::Saved(Ok(_)) ==> r is Refresh && after.mode == Mode::List
            && after.error is None,
        outcome matches RpcOutcome::Saved(Err(e)) ==> r is Nothing && after.mode == before.mode && (
        after.error matches Some(t) && holds_text(t@, e@)) && after.busy is None,
        outcome matches RpcOutcome::Toggled(Ok(_)) ==> r is Refresh,
        outcome matches RpcOutcome::Toggled(Err(e)) ==> r is Nothing && (after.error matches Some(t)
            && holds_text(t@, e@)) && after.busy is None,
        outcome matches RpcOutcome::Removed(Ok(_)) ==> r is Refresh && after.mode == Mode::List,
        outcome matches RpcOutcome::Removed(Err(e)) ==> r is Nothing && after.mode == Mode::List && (
        after.error matches Some(t) && holds_text(t@, e@)) && after.busy is None,
        outcome matches RpcOutcome::BuiltinSet { index, disabled, result } ==> {
            &&& r is Nothing
            &&& after.builtins@.len() == before.builtins@.len()
            &&& forall|i: int|
                0 <= i < before.builtins@.len() ==> (#[trigger] after.builtins@[i]).name
                    == before.builtins@[i].name && after.builtins@[i].disabled_by_config == (
                if i == index && result is Ok {
                    disabled
                } else {
                    before.builtins@[i].disabled_by_config
                })
            &&& result is Ok ==> after.notice is Some && after.error is None
            &&& result matches Err(e) ==> (after.error matches Some(t) && holds_text(t@, e@))
            &&& after.busy is None
        },
        after.form == before.form,
        !(outcome is Refreshed) ==> after.servers == before.servers && after.selected
            == before.selected,
{
    let none = Seq::<char>::empty();
    match outcome {
        RpcOutcome::Refreshed { servers, .. } => match servers {
            Ok(_) => {},
            Err(e) => law_text_is_held("Failed to load MCP servers: "@, e@, none),
        },
        RpcOutcome::Saved(Err(e)) => law_text_is_held("Save failed: "@, e@, none),
        RpcOutcome::Toggled(Err(e)) => law_text_is_held("Toggle failed: "@, e@, none),
        RpcOutcome::Removed(Err(e)) => law_text_is_held("Remove failed: "@, e@, none),
        RpcOutcome::BuiltinSet { result: Err(e), .. } => law_text_is_held(
            "Toggle failed: "@,
            e@,
            none,
        ),
        _ => {},
    }
}

proof fn lemma_account_place(accounts: Seq<ServiceAccountView>, id: Seq<char>, from: int, at: int)
    requires
        0 <= from <= at < accounts.len(),
        accounts[at].id@ == id,
        forall|i: int| from <= i < at ==> (#[trigger] accounts[i]).id@ != id,
    ensures
        account_place(accounts, id, from) == at,
    decreases at - from,
{
    if from < at {
        assert(accounts[from].id@ != id);
        lemma_account_place(accounts, id, from + 1, at);
    }
}

/// The account selector goes to the neighbouring account, round at the ends, and reads
/// as the chosen one: its display name, or its id where it has none.
pub proof fn law_accounts_are_stepped_through(
    accounts: Seq<ServiceAccountView>,
    at: int,
)
    requires
        0 <= at < accounts.len(),
        forall|i: int| 0 <= i < at ==> (#[trigger] accounts[i]).id@ != accounts[at].id@,
    ensures
        next_account(accounts, accounts[at].id@, false) == accounts[(if at + 1 == accounts.len() {
            0
        } else {
            at + 1
        })].id@,
        next_account(accounts, accounts[at].id@, true) == accounts[(if at == 0 {
            accounts.len() - 1
        } else {
            at - 1
        })].id@,
        account_label(accounts, accounts[at].id@) == sanitized(
            if accounts[at].display_name@.len() > 0 {
                accounts[at].display_name@
            } else {
                accounts[at].id@
            },
        ),
{
    lemma_account_place(accounts, accounts[at].id@, 0, at);
    law_steps_lead_to_the_neighbour(at, accounts.len() as int);
    assert(account_known(accounts, accounts[at].id@));
}

/// An account that is not in the list is not shown as chosen, and a missing list says so.
pub proof fn law_unknown_account_is_not_shown(
    accounts: Seq<ServiceAccountView>,
    id: Seq<char>,
    focused: bool,
)
    ensures
        (forall|i: int| 0 <= i < accounts.len() ==> (#[trigger] accounts[i]).id@ != id)
            ==> account_label(accounts, id) == "(choose account)"@,
        accounts.len() > 0 ==> holds_text(
            line_text(account_spans(accounts, id, focused)),
            account_label(accounts, id),
        ),
        accounts.len() == 0 ==> account_spans(accounts, id, focused).len() == 1
            && account_spans(accounts, id, focused)[0].1 == toned(Tone::Warn),
{
    let spans = account_spans(accounts, id, focused);
    let label = account_label(accounts, id);
    if accounts.len() > 0 {
        law_text_is_held(" "@, label, " "@);
        let k: int = if focused {
            2
        } else {
            1
        };
        assert(spans[k].0 == " "@ + label + " "@);
        lemma_span_is_read(spans, k);
        law_held_text_is_held(line_text(spans), spans[k].0, label);
    }
}

/// Cycling changes the focused choice and nothing that is typed: the switch is turned
/// over, the transport of a new server changes sides, the way of signing in goes on or
/// back by one.
pub proof fn law_cycling_changes_the_focused_choice(before: State, back: bool, after: State)
    requires
        cycled(before, back, after),
    ensures
        forall|field: Field| #[trigger]
            after.form.input(field) == before.form.input(field),
        after.form.enabled != before.form.enabled <==> before.form.focus == Field::Enabled,
        after.form.transport != before.form.transport <==> before.form.focus == Field::Transport
            && !before.form.editing,
        before.form.focus == Field::Transport && before.form.editing ==> after.error is Some,
        after.form.auth != before.form.auth <==> before.form.focus == Field::Auth,
        before.form.focus == Field::Auth && !back ==> (match before.form.auth {
            McpAuthKind::Anonymous => after.form.auth == McpAuthKind::Bearer,
            McpAuthKind::Bearer => after.form.auth == McpAuthKind::OAuth,
            McpAuthKind::OAuth => after.form.auth == McpAuthKind::Anonymous,
        }),
        before.form.focus == Field::Auth && back ==> (match before.form.auth {
            McpAuthKind::Anonymous => after.form.auth == McpAuthKind::OAuth,
            McpAuthKind::Bearer => after.form.auth == McpAuthKind::Anonymous,
            McpAuthKind::OAuth => after.form.auth == McpAuthKind::Bearer,
        }),
        before.form.focus != Field::OAuthAccount ==> after.form.oauth_account
            == before.form.oauth_account,
        after.servers == before.servers,
        after.mode == before.mode,
{
}

/// The first line of a server's row tells its name, where it runs, its status, and how
/// many tools a running one has.
pub proof fn law_heads_tell_the_server(server: McpServerView)
    ensures
        holds_text(line_text(head_spans(server)), sanitized(server.name@)),
        holds_text(line_text(head_spans(server)), chip(server.transport@)),
        holds_text(line_text(head_spans(server)), status_shown(server.status@).1),
        server.status@ == "running"@ && server.tool_count > 0 ==> holds_text(
            line_text(head_spans(server)),
            digits(server.tool_count as nat),
        ),
{
    let head = head_spans(server);
    let name = sanitized(server.name@);
    let place = chip(server.transport@);
    let label = status_shown(server.status@).1;
    law_text_is_held(name, name, Seq::<char>::empty());
    law_text_is_held("  ["@, place, "]"@);
    law_text_is_held("  "@, label, Seq::<char>::empty());
    assert(head.len() >= 5);
    assert(head[2].0 == name);
    assert(head[3].0 == "  ["@ + place + "]"@);
    assert(head[4].0 == "  "@ + label);
    lemma_span_tells(head, 2, name);
    lemma_span_tells(head, 3, place);
    lemma_span_tells(head, 4, label);
    if server.status@ == "running"@ && server.tool_count > 0 {
        let count = digits(server.tool_count as nat);
        let end = if server.tool_count == 1 {
            ""@
        } else {
            "s"@
        };
        law_text_is_held(" · "@, count, " tool"@ + end);
        assert(" · "@ + count + " tool"@ + end =~= " · "@ + count + (" tool"@ + end));
        assert(head[5].0 == " · "@ + count + " tool"@ + end);
        lemma_span_tells(head, 5, count);
    }
}

/// The dot of a server's row has the tone of its status.
pub proof fn law_dots_tell_the_status(server: McpServerView)
    ensures
        head_spans(server)[0].1 == toned(Tone::Good) <==> server.status@ == "running"@,
        head_spans(server)[0].1 == toned(Tone::Error) <==> server.status@ == "error"@,
        head_spans(server)[0].1 == toned(Tone::Warn) <==> server.status@ == "needs_auth"@
            || server.status@ == "auth_expired"@,
        head_spans(server)[4].1 == head_spans(server)[0].1,
{
    law_status_is_told(server.status@);
}

/// Below its first line the row of a server tells its address, what is wrong with it,
/// and that it waits for a sign-in.
pub proof fn law_rows_tell_the_server(server: McpServerView)
    ensures
        server_lines(server)[0] == head_spans(server),
        server.target@.len() > 0 ==> server_lines(server).len() > 1 && holds_text(
            line_text(server_lines(server)[1]),
            sanitized(server.target@),
        ),
        server.detail matches Some(d) ==> exists|i: int|
            0 <= i < server_lines(server).len() && holds_text(
                line_text(#[trigger] server_lines(server)[i]),
                sanitized(d@),
            ),
        server.configure_command@.len() > 0 && (server.status@ == "needs_auth"@ || server.status@
            == "auth_expired"@) ==> server_lines(server).len() > 1
            && server_lines(server).last()[0].1 == toned(Tone::Warn),
{
    let lines = server_lines(server);
    let none = Seq::<char>::empty();
    assert(lines[0] == head_spans(server));
    if server.target@.len() > 0 {
        let text = "    "@ + sanitized(server.target@);
        assert(lines[1] == seq![(text, toned(Tone::TextDim))]);
        lemma_span_is_read(lines[1], 0);
        law_text_is_held("    "@, sanitized(server.target@), none);
        law_held_text_is_held(line_text(lines[1]), text, sanitized(server.target@));
    }
    let k: int = if server.target@.len() > 0 {
        2
    } else {
        1
    };
    match server.detail {
        Some(d) => {
            let text = "    "@ + sanitized(d@);
            assert(lines[k] == seq![(text, Style { italic: true, ..toned(Tone::Error) })]);
            lemma_span_is_read(lines[k], 0);
            law_text_is_held("    "@, sanitized(d@), none);
            law_held_text_is_held(line_text(lines[k]), text, sanitized(d@));
        },
        None => {},
    }
}

/// The row of a compiled-in server tells its name, and why it does not run where it does
/// not; it is dimmed exactly then.
pub proof fn law_rows_tell_the_builtin(b: BuiltinServerDto)
    ensures
        holds_text(line_text(builtin_spans(b)), sanitized(b.name@)),
        off_reason(b.disabled_by_config, opt_text(b.overridden_by)) matches Some(reason)
            ==> holds_text(line_text(builtin_spans(b)), reason),
        builtin_spans(b)[0].1 == toned(Tone::TextDim) <==> off_reason(
            b.disabled_by_config,
            opt_text(b.overridden_by),
        ) is Some,
{
    let spans = builtin_spans(b);
    lemma_span_is_read(spans, 0);
    match off_reason(b.disabled_by_config, opt_text(b.overridden_by)) {
        Some(reason) => {
            assert(spans[2].0 == "  "@ + reason);
            lemma_span_is_read(spans, 2);
            law_text_is_held("  "@, reason, Seq::<char>::empty());
            law_held_text_is_held(line_text(spans), spans[2].0, reason);
        },
        None => {},
    }
}

/// The list has a row for each server of the daemon and behind them one for each
/// compiled-in server, or a hint where there is none.
pub proof fn law_every_server_has_a_row(state: State, i: int)
    requires
        0 <= i < state.rows(),
    ensures
        list_rows(state).len() == state.rows(),
        i < state.servers@.len() ==> holds_text(
            line_text(list_rows(state)[i][0]),
            sanitized(state.servers@[i].name@),
        ),
        i >= state.servers@.len() ==> holds_text(
            line_text(list_rows(state)[i][0]),
            sanitized(state.builtins@[i - state.servers@.len()].name@),
        ),
{
    if i < state.servers@.len() {
        law_heads_tell_the_server(state.servers@[i]);
        assert(list_rows(state)[i] == server_lines(state.servers@[i]));
        assert(list_rows(state)[i][0] == head_spans(state.servers@[i]));
    } else {
        let k = i - state.servers@.len();
        law_rows_tell_the_builtin(state.builtins@[k]);
        assert(list_rows(state)[i] == seq![builtin_spans(state.builtins@[k])]);
    }
}

/// The label of a field is its own, and says where the field cannot be changed.
pub proof fn law_fields_have_their_own_labels(editing: bool, a: Field, b: Field)
    ensures
        field_label(editing, a) == field_label(editing, b) ==> a == b,
        field_label(true, a) != field_label(false, a) <==> a == Field::Name || a
            == Field::Transport,
{
    reveal_strlit("Name (locked)");
    reveal_strlit("Name");
    reveal_strlit("Transport — locked on edit");
    reveal_strlit("Transport");
    reveal_strlit("Enabled");
    reveal_strlit("Command (e.g. fileio-mcp)");
    reveal_strlit("Arguments (space-separated)");
    reveal_strlit("Namespace (optional)");
    reveal_strlit("Environment (KEY=value per line)");
    reveal_strlit("URL (https://host/mcp)");
    reveal_strlit("Authentication");
    reveal_strlit("Bearer token (write-only; blank keeps current)");
    reveal_strlit("Service account");
    reveal_strlit("Scopes (space or comma-separated)");
    assert("Name (locked)"@.len() == 13 && "Name"@.len() == 4);
    assert("Transport — locked on edit"@.len() == 26 && "Transport"@.len() == 9);
    assert("Enabled"@.len() == 7 && "Command (e.g. fileio-mcp)"@.len() == 25);
    assert("Arguments (space-separated)"@.len() == 27 && "Namespace (optional)"@.len() == 20);
    assert("Environment (KEY=value per line)"@.len() == 32);
    assert("URL (https://host/mcp)"@.len() == 22 && "Authentication"@.len() == 14);
    assert("Bearer token (write-only; blank keeps current)"@.len() == 46);
    assert("Service account"@.len() == 15 && "Scopes (space or comma-separated)"@.len() == 33);
}

/// A selector shows each of its choices, and only the chosen one as chosen.
pub proof fn law_chosen_values_are_active(
    transport: McpTransport,
    on: bool,
    auth: McpAuthKind,
    i: int,
)
    ensures
        transport_chips(transport).len() == 2,
        0 <= i < 2 ==> (transport_chips(transport)[i].1 <==> i == transport.index()),
        enabled_chips(on).len() == 2,
        enabled_chips(on)[0].1 == on && enabled_chips(on)[1].1 == !on,
        enabled_chips(on)[0].0@ == "Enabled"@,
        auth_chips(auth).len() == 3,
        0 <= i < 3 ==> (auth_chips(auth)[i].1 <==> i == auth.index()),
{
}

/// What is chosen and not typed is drawn as a selector of the form's own value.
pub proof fn law_selectors_show_the_form(state: State, field: Field, focused: bool)
    ensures
        field_selector(state, field, focused) is Some <==> state.form.input(field) is None,
        field_selector(state, field, focused) is Some <==> field.selects(),
        field == Field::Transport ==> field_selector(state, field, focused) == Some(
            selector_spans(transport_chips(state.form.transport), focused),
        ),
        field == Field::Enabled ==> field_selector(state, field, focused) == Some(
            selector_spans(enabled_chips(state.form.enabled), focused),
        ),
        field == Field::Auth ==> field_selector(state, field, focused) == Some(
            selector_spans(auth_chips(state.form.auth), focused),
        ),
        field == Field::OAuthAccount ==> field_selector(state, field, focused) == Some(
            account_spans(state.accounts@, state.form.oauth_account@, focused),
        ),
{
}

/// The status line tells what is going on, else what went wrong, else what is to be told.
pub proof fn law_panel_status_tells(s: State)
    ensures
        s.busy matches Some(b) ==> (panel_status(s) matches Some(line) && holds_text(line.0, b@)),
        s.busy is None ==> (s.error matches Some(e) ==> (panel_status(s) matches Some(line)
            && holds_text(line.0, e@))),
        s.busy is None && s.error is None ==> (s.notice matches Some(n) ==> (
        panel_status(s) matches Some(line) && line.0 == n@)),
        s.busy is None && s.error is None && s.notice is None ==> panel_status(s) is None,
{
    law_status_tells(s.busy, s.error);
}

/// The parts of a sign-in command are shown one by one, each without control characters.
pub proof fn law_command_parts_are_shown(parts: Seq<Seq<char>>, i: int)
    requires
        0 <= i < parts.len(),
    ensures
        sanitized_each(parts).len() == parts.len(),
        sanitized_each(parts)[i] == sanitized(parts[i]),
{
}

/// The words of several lines are those of the lines, one line after the other.
pub proof fn law_words_of_lines(lines: Seq<Seq<char>>, first: Seq<char>)
    ensures
        line_words(seq![first] + lines) == words(first) + line_words(lines),
    decreases lines.len(),
{
    let all = seq![first] + lines;
    let none = Seq::<Seq<char>>::empty();
    if lines.len() == 0 {
        assert(all.take(0) =~= none);
        assert(line_words(all.take(0)) =~= none);
        assert(line_words(all) =~= words(first) + line_words(lines));
    } else {
        let n = lines.len() - 1;
        law_words_of_lines(lines.take(n), first);
        assert(all.take(all.len() - 1) =~= seq![first] + lines.take(n));
        assert(line_words(all) =~= words(first) + line_words(lines));
    }
}

/// A fetched list keeps the selected row selected where there is still such a row, and
/// else selects the last one; accounts that could not be fetched are none.
pub proof fn law_refreshing_keeps_the_selection(
    before: State,
    servers: Result<Vec<McpServerView>, String>,
    accounts: Result<Vec<ServiceAccountView>, String>,
    after: State,
    r: Request,
)
    requires
        applied(before, RpcOutcome::Refreshed { servers, accounts }, after, r),
        after.fits(),
    ensures
        servers is Ok && before.selected < after.rows() ==> after.selected == before.selected,
        servers is Ok && before.selected >= after.rows() && after.rows() > 0 ==> after.selected
            == after.rows() - 1,
        servers is Err ==> after.selected == before.selected,
        accounts is Err ==> after.accounts@.len() == 0,
        after.builtins == before.builtins,
        after.mode == before.mode,
{
}

/// The forms open without the error of what came before, and what is asked for is told.
pub proof fn law_errors_do_not_linger(before: State, key: KeyEvent, after: State, r: Request)
    ensures
        list_step(before, key, after, r) && before.mode == Mode::List && after.mode == Mode::Edit
            ==> after.error is None,
        edit_step(before, key, after, r) && before.mode == Mode::Edit && after.mode == Mode::List
            ==> after.error is None,
        list_step(before, key, after, r) && (r is Refresh || r is Toggle) ==> after.busy is Some,
        edit_step(before, key, after, r) && r is Save ==> after.busy is Some,
        remove_step(before, key, after, r) && r is Remove ==> after.busy is Some,
{
}

} // verus!
