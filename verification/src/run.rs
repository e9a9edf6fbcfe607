//! The session around the chat: starting up, losing the connection and getting
//! it back, the screens over the chat, and dictation.

use vstd::prelude::*;
use crate::actions::{submit_prompt, Request};
#[allow(unused_imports)]
use crate::actions::submitted;
use crate::api::{
    Command, ConversationDetail, ConversationPersonalityView, ConversationSummary,
    SendPromptOverride, TaskView,
};
use crate::app::{App, InputMode, ScreenRequest};
#[allow(unused_imports)]
use crate::app::{
    conversation_place, law_typed_text_is_inserted, listed, noted, opened, told, typed_into, Core,
};
use crate::area::insert_text;
#[allow(unused_imports)]
use crate::area::{area_cursor, area_lines, area_ready, area_text, Area};
use crate::chat::SignalAction;
use crate::rpc::Rpc;
#[allow(unused_imports)]
use crate::tasks::TaskPane;
use crate::text::{cat2, cat3, cat5, chars_of, decimal, is_whitespace};
#[allow(unused_imports)]
use crate::text::{digits, holds_text, is_space, law_text_is_held, opt_text, texts};

verus! {

/// Whether the connection stands, or after how many seconds it is tried again.
#[derive(Debug, Clone, Copy, PartialEq, Eq, Structural)]
pub enum ReconnectState {
    Connected,
    Pending { delay_secs: u64 },
}

/// The first delay.
pub const RECONNECT_INITIAL_SECS: u64 = 2;

/// The longest delay.
pub const RECONNECT_MAX_SECS: u64 = 30;

/// The delay after one of `prev` seconds: twice as long, up to the longest.
pub open spec fn backoff(prev: int) -> int {
    if prev * 2 < RECONNECT_MAX_SECS {
        prev * 2
    } else {
        RECONNECT_MAX_SECS as int
    }
}

pub fn next_backoff(prev_secs: u64) -> (secs: u64)
    ensures
        secs == backoff(prev_secs as int),
{
    if prev_secs < 15 {
        prev_secs * 2
    } else {
        RECONNECT_MAX_SECS
    }
}

/// The delay before the next try: the first one, or one after the previous delay.
pub open spec fn next_delay(prev: Option<u64>) -> int {
    match prev {
        Some(p) => backoff(p as int),
        None => RECONNECT_INITIAL_SECS as int,
    }
}

/// Plans the next try.
pub fn schedule_reconnect(prev: Option<u64>) -> (state: ReconnectState)
    ensures
        state matches ReconnectState::Pending { delay_secs } && delay_secs == next_delay(prev),
{
    let delay_secs: u64 = match prev {
        Some(p) => next_backoff(p),
        None => RECONNECT_INITIAL_SECS,
    };
    ReconnectState::Pending { delay_secs }
}

/// The delays grow until they reach the longest one, and never pass it.
pub proof fn law_delays_grow_to_the_longest(prev: int)
    requires
        1 <= prev <= RECONNECT_MAX_SECS,
    ensures
        prev <= backoff(prev) <= RECONNECT_MAX_SECS,
        prev < RECONNECT_MAX_SECS ==> prev < backoff(prev),
        backoff(RECONNECT_MAX_SECS as int) == RECONNECT_MAX_SECS,
{
}

/// The delay of a planned try.
pub open spec fn planned_delay(state: ReconnectState) -> Option<u64> {
    match state {
        ReconnectState::Pending { delay_secs } => Some(delay_secs),
        ReconnectState::Connected => None,
    }
}

/// The first connection failed.
pub fn connection_failed(app: &mut App, error: &str) -> (state: ReconnectState)
    ensures
        state == (ReconnectState::Pending { delay_secs: RECONNECT_INITIAL_SECS }),
        told(
            *old(app),
            *final(app),
            "Connection failed: "@ + error@ + ". Reconnecting in 2s..."@,
        ),
{
    app.status_message = cat3("Connection failed: ", error, ". Reconnecting in 2s...");
    schedule_reconnect(None)
}

/// The window after the connection was lost: what was streaming in is gone.
pub open spec fn cut_off(before: App, after: App, reason: Seq<char>) -> bool {
    told(
        App {
            assistant_status: None,
            core: Core { stream: None, ..before.core },
            ..before
        },
        after,
        "Disconnected: "@ + reason + ". Reconnecting in 2s..."@,
    )
}

/// The connection was lost.
pub fn disconnected(app: &mut App, reason: &str) -> (state: ReconnectState)
    ensures
        state == (ReconnectState::Pending { delay_secs: RECONNECT_INITIAL_SECS }),
        cut_off(*old(app), *final(app), reason@),
{
    app.clear_streaming_state();
    app.status_message = cat3("Disconnected: ", reason, ". Reconnecting in 2s...");
    schedule_reconnect(None)
}

/// The connection was lost while a screen was open, if there is a reason.
pub fn apply_sub_screen_disconnect(app: &mut App, reason: &Option<String>) -> (state: Option<
    ReconnectState,
>)
    ensures
        match reason {
            Some(r) => {
                &&& state == Some(
                    ReconnectState::Pending { delay_secs: RECONNECT_INITIAL_SECS },
                )
                &&& cut_off(*old(app), *final(app), r@)
            },
            None => state is None && *final(app) == *old(app),
        },
{
    match reason {
        Some(r) => Some(disconnected(app, r.as_str())),
        None => None,
    }
}

/// A signal came while a screen was open: the first reason of a lost connection
/// is kept, and a changed list is fetched again once the screen is closed.
pub fn sub_screen_signal(app: &mut App, disconnect: &mut Option<String>, action: &SignalAction)
    ensures
        match *action {
            SignalAction::Disconnected { reason } => {
                &&& *final(app) == *old(app)
                &&& *final(disconnect) == (match *old(disconnect) {
                    Some(first) => Some(first),
                    None => Some(reason),
                })
            },
            SignalAction::RefreshConversations => {
                &&& *final(app) == (App { pending_conversation_refresh: true, ..*old(app) })
                &&& *final(disconnect) == *old(disconnect)
            },
            _ => *final(app) == *old(app) && *final(disconnect) == *old(disconnect),
        },
{
    match action {
        SignalAction::Disconnected { reason } => {
            if disconnect.is_none() {
                *disconnect = Some(reason.clone());
            }
        },
        SignalAction::RefreshConversations => {
            app.pending_conversation_refresh = true;
        },
        _ => {},
    }
}

/// The connection is tried again.
pub fn reconnecting(app: &mut App)
    ensures
        told(*old(app), *final(app), "Reconnecting..."@),
{
    app.status_message = "Reconnecting...".to_owned();
}

/// Trying again failed: the next try comes later.
pub fn reconnect_failed(app: &mut App, state: ReconnectState, error: &str) -> (next: ReconnectState)
    ensures
        next matches ReconnectState::Pending { delay_secs } && {
            &&& delay_secs == next_delay(planned_delay(state))
            &&& told(
                *old(app),
                *final(app),
                "Reconnect failed: "@ + error@ + ". Retrying in "@ + digits(delay_secs as nat)
                    + "s..."@,
            )
        },
{
    let delay: u64 = match state {
        ReconnectState::Pending { delay_secs } => next_backoff(delay_secs),
        ReconnectState::Connected => RECONNECT_INITIAL_SECS,
    };
    let secs = decimal(delay);
    app.status_message =
    cat5("Reconnect failed: ", error, ". Retrying in ", secs.as_str(), "s...");
    ReconnectState::Pending { delay_secs: delay }
}

/// The conversation list was loaded after connecting, or could not be.
pub fn conversations_loaded(app: &mut App, list: Result<Vec<ConversationSummary>, String>)
    ensures
        match list {
            Ok(convs) => *final(app) == old(app).with_conversations(convs),
            Err(e) => told(*old(app), *final(app), "Error loading conversations: "@ + e@),
        },
{
    match list {
        Ok(convs) => {
            app.set_conversations(convs);
        },
        Err(e) => {
            app.status_message = cat2("Error loading conversations: ", e.as_str());
        },
    }
}

/// The connection is back: the open conversation is selected in the fresh list,
/// and is to be fetched again.
pub fn resync(app: &mut App) -> (open: Option<String>)
    ensures
        opt_text(open) == old(app).open_id(),
        *final(app) == (App {
            selected_conversation: match old(app).core.current {
                Some(c) if listed(old(app).core.conversations@, c.id@) => Some(
                    conversation_place(old(app).core.conversations@, c.id@) as usize,
                ),
                _ => old(app).selected_conversation,
            },
            ..*old(app)
        }),
{
    let id = match &app.core.current {
        Some(c) => c.id.clone(),
        None => {
            return None;
        },
    };
    let _ = app.select_conversation_by_id(id.as_str());
    Some(id)
}

/// The open conversation was fetched again, or could not be.
pub fn resynced(app: &mut App, detail: Result<ConversationDetail, String>)
    ensures
        match detail {
            Ok(d) => opened(*old(app), *final(app), d),
            Err(e) => told(*old(app), *final(app), "Error refreshing conversation: "@ + e@),
        },
{
    match detail {
        Ok(d) => {
            app.load_conversation(d);
        },
        Err(e) => {
            app.status_message = cat2("Error refreshing conversation: ", e.as_str());
        },
    }
}

/// The reply to the request for the background tasks.
pub enum TasksReply {
    Tasks(Vec<TaskView>),
    /// Another reply, as it is shown to the user.
    Unexpected(String),
    Failed(String),
}

/// The background tasks were loaded, or could not be.
pub fn tasks_loaded(app: &mut App, reply: TasksReply)
    ensures
        match reply {
            TasksReply::Tasks(tasks) => *final(app) == (App {
                tasks: TaskPane { rows: tasks, ..old(app).tasks },
                ..*old(app)
            }),
            TasksReply::Unexpected(text) => told(
                *old(app),
                *final(app),
                "Unexpected ListBackgroundTasks response: "@ + text@,
            ),
            TasksReply::Failed(e) => told(*old(app), *final(app), "Tasks snapshot failed: "@ + e@),
        },
{
    match reply {
        TasksReply::Tasks(tasks) => {
            app.tasks.set_initial(tasks);
        },
        TasksReply::Unexpected(text) => {
            app.status_message = cat2("Unexpected ListBackgroundTasks response: ", text.as_str());
        },
        TasksReply::Failed(e) => {
            app.status_message = cat2("Tasks snapshot failed: ", e.as_str());
        },
    }
}

/// The changes of the background tasks cannot be followed.
pub fn tasks_unsubscribed(app: &mut App, error: &str)
    ensures
        told(*old(app), *final(app), "Tasks subscribe failed: "@ + error@),
{
    app.status_message = cat2("Tasks subscribe failed: ", error);
}

/// The conversations whose turns are to be followed: the open one.
pub open spec fn followed(app: App) -> Seq<Seq<char>> {
    match app.core.current {
        Some(c) => seq![c.id@],
        None => Seq::<Seq<char>>::empty(),
    }
}

pub fn open_conversation_ids(app: &App) -> (ids: Vec<String>)
    ensures
        texts(ids@) == followed(*app),
{
    let mut ids: Vec<String> = Vec::new();
    match &app.core.current {
        Some(c) => {
            ids.push(c.id.clone());
        },
        None => {},
    }
    assert(texts(ids@) =~= followed(*app));
    ids
}

/// Tells the daemon which conversation is open.
pub fn subscribe_to_open_conversation(app: &App) -> (command: Command)
    ensures
        command matches Command::SubscribeConversations { conversation_ids } && texts(
            conversation_ids@,
        ) == followed(*app),
{
    Command::SubscribeConversations { conversation_ids: open_conversation_ids(app) }
}

/// The daemon could not be told which conversation is open.
pub fn live_sync_failed(app: &mut App, error: &str)
    ensures
        told(*old(app), *final(app), "Live-sync subscribe failed: "@ + error@),
{
    app.status_message = cat2("Live-sync subscribe failed: ", error);
}

/// The connection stands: its label is shown.
pub fn connection_ready(app: &mut App, label: &str)
    ensures
        told(*old(app), *final(app), label@),
{
    app.status_message = label.to_owned();
}

/// The request that fetches the conversation list again; none while the daemon
/// cannot be reached.
pub fn conversation_refresh(app: &App, connected: bool) -> (rpc: Option<Rpc>)
    ensures
        rpc == (if connected {
            Some(Rpc::Refresh { show_archived: app.show_archived, on_success: None })
        } else {
            None
        }),
{
    if connected {
        Some(Rpc::Refresh { show_archived: app.show_archived, on_success: None })
    } else {
        None
    }
}

/// What the loop does before it waits for the next event.
pub enum Turn {
    Quit,
    /// Another connection is to be chosen.
    Switch,
    /// The list is fetched again and a screen is opened, where that was asked for.
    Go { refresh: Option<Rpc>, screen: Option<ScreenRequest> },
}

/// Begins a turn of the loop, after the window was drawn.
pub fn begin_turn(app: &mut App, connected: bool) -> (turn: Turn)
    ensures
        if old(app).should_quit {
            turn is Quit && *final(app) == *old(app)
        } else if old(app).switch_requested {
            turn is Switch && *final(app) == *old(app)
        } else {
            &&& turn == (Turn::Go {
                refresh: if old(app).pending_conversation_refresh && connected {
                    Some(
                        Rpc::Refresh { show_archived: old(app).show_archived, on_success: None },
                    )
                } else {
                    None
                },
                screen: old(app).pending_screen,
            })
            &&& *final(app) == (App {
                pending_conversation_refresh: false,
                pending_screen: None,
                ..*old(app)
            })
        },
{
    if app.should_quit {
        return Turn::Quit;
    }
    if app.switch_requested {
        return Turn::Switch;
    }
    let refresh = if app.pending_conversation_refresh {
        conversation_refresh(app, connected)
    } else {
        None
    };
    app.pending_conversation_refresh = false;
    Turn::Go { refresh, screen: app.take_pending_screen() }
}

/// What a screen is called where it fails.
pub open spec fn screen_name(screen: ScreenRequest) -> Seq<char> {
    match screen {
        ScreenRequest::KnowledgeBase => "KB"@,
        ScreenRequest::Connections => "Connections"@,
        ScreenRequest::Purposes => "Purposes"@,
        ScreenRequest::McpServers => "MCP servers"@,
        ScreenRequest::ModelPicker => "Model picker"@,
        ScreenRequest::PersonalityPicker => "Personality picker"@,
    }
}

/// A screen failed.
pub fn screen_failed(app: &mut App, screen: ScreenRequest, error: &str)
    ensures
        told(*old(app), *final(app), screen_name(screen) + " error: "@ + error@),
{
    let name = match screen {
        ScreenRequest::KnowledgeBase => "KB",
        ScreenRequest::Connections => "Connections",
        ScreenRequest::Purposes => "Purposes",
        ScreenRequest::McpServers => "MCP servers",
        ScreenRequest::ModelPicker => "Model picker",
        ScreenRequest::PersonalityPicker => "Personality picker",
    };
    app.status_message = cat3(name, " error: ", error);
}

/// A model was picked for the next prompt.
pub fn model_picked(app: &mut App, picked: SendPromptOverride)
    ensures
        final(app).status_message@ == "Model: "@ + (picked.connection_id@ + " · "@
            + picked.model_id@) + " (applies to next message)"@,
        final(app).pending_model_override == Some(picked),
        match (old(app).core.current, final(app).core.current) {
            (Some(b), Some(a)) => {
                &&& a.model_selection matches Some(m) && m.connection_id == picked.connection_id
                    && m.model_id == picked.model_id && m.effort == picked.effort
                &&& a == (ConversationDetail { model_selection: a.model_selection, ..b })
            },
            (None, None) => true,
            _ => false,
        },
        *final(app) == (App {
            status_message: final(app).status_message,
            pending_model_override: final(app).pending_model_override,
            core: Core { current: final(app).core.current, ..old(app).core },
            ..*old(app)
        }),
{
    let label = cat3(picked.connection_id.as_str(), " · ", picked.model_id.as_str());
    app.apply_model_override(picked);
    app.status_message = cat3("Model: ", label.as_str(), " (applies to next message)");
}

/// The personality of the open conversation was saved.
pub fn personality_saved(app: &mut App, stored: ConversationPersonalityView)
    ensures
        final(app).status_message@ == (if stored.unpinned() {
            "Personality cleared (using global)"@
        } else {
            "Personality saved for this conversation"@
        }),
        *final(app) == (App {
            status_message: final(app).status_message,
            core: Core {
                current: match old(app).core.current {
                    Some(c) => Some(
                        ConversationDetail { conversation_personality: Some(stored), ..c },
                    ),
                    None => None,
                },
                ..old(app).core
            },
            ..*old(app)
        }),
{
    app.set_open_conversation_personality(stored);
    app.status_message = if stored.is_default() {
        "Personality cleared (using global)".to_owned()
    } else {
        "Personality saved for this conversation".to_owned()
    };
}

/// The models of the built-in voice are being loaded.
pub fn voice_loading(app: &mut App)
    ensures
        told(*old(app), *final(app), "Voice: loading models… (Ctrl+G to dictate)"@),
{
    app.status_message = "Voice: loading models… (Ctrl+G to dictate)".to_owned();
}

/// The built-in voice was loaded, or could not be.
pub fn voice_loaded(app: &mut App, result: Result<(), String>)
    ensures
        told(
            *old(app),
            *final(app),
            match result {
                Ok(_) => "Voice ready (Ctrl+G to dictate)"@,
                Err(e) => "Voice unavailable: "@ + e@,
            },
        ),
{
    app.status_message = match result {
        Ok(_) => "Voice ready (Ctrl+G to dictate)".to_owned(),
        Err(e) => cat2("Voice unavailable: ", e.as_str()),
    };
}

/// The voice daemon listens, or failed to.
pub fn push_to_talk_answered(app: &mut App, result: Result<(), String>)
    ensures
        told(
            *old(app),
            *final(app),
            match result {
                Ok(_) => "Listening… (voice daemon)"@,
                Err(e) => "Push-to-talk failed: "@ + e@,
            },
        ),
{
    app.status_message = match result {
        Ok(_) => "Listening… (voice daemon)".to_owned(),
        Err(e) => cat2("Push-to-talk failed: ", e.as_str()),
    };
}

/// Begins a dictation: not where the built-in voice is off, is still loading, or
/// listens already. Returns whether it begins.
pub fn start_dictation(app: &mut App, enabled: bool, dictating: bool, ready: bool) -> (begins: bool)
    ensures
        begins == (enabled && !dictating && ready),
        if !enabled {
            told(
                *old(app),
                *final(app),
                "Voice is off — set mode = \"embedded\" in ~/.config/adele-tui/voice.toml"@,
            )
        } else if dictating {
            told(*old(app), *final(app), "Already listening…"@)
        } else if !ready {
            told(
                *old(app),
                *final(app),
                "Voice still loading models — try again in a moment"@,
            )
        } else {
            noted(*old(app), *final(app), "Listening…"@)
        },
{
    if !enabled {
        app.status_message = "Voice is off — set mode = \"embedded\" in ~/.config/adele-tui/voice.toml".to_owned();
        return false;
    }
    if dictating {
        app.status_message = "Already listening…".to_owned();
        return false;
    }
    if !ready {
        app.status_message = "Voice still loading models — try again in a moment".to_owned();
        return false;
    }
    app.set_assistant_status("Listening…");
    true
}

/// What a dictation gave.
pub enum DictationOutcome {
    Transcribed(String),
    NoSpeech,
    Failed(String),
}

/// A dictated text joins what is in the composer with a blank.
pub open spec fn needs_blank(text: Seq<char>) -> bool {
    text.len() > 0 && !is_space(text[text.len() - 1])
}

/// A text was dictated into the composer, which then has the focus.
pub open spec fn dictated(before: App, after: App, text: Seq<char>) -> bool {
    &&& after == (App { mode: InputMode::Editing, textarea: after.textarea, ..before })
    &&& if needs_blank(area_text(before.textarea)) {
        exists|mid: Area| #[trigger]
            typed_into(before.textarea, mid, " "@) && typed_into(mid, after.textarea, text)
    } else {
        typed_into(before.textarea, after.textarea, text)
    }
}

/// Puts a dictated text into the composer.
pub fn insert_dictated_text(app: &mut App, text: &str)
    ensures
        dictated(*old(app), *final(app), text@),
{
    app.enter_editing_mode();
    let existing = app.textarea_content();
    let chars = chars_of(existing.as_str());
    let n: usize = chars.len();
    if n > 0 && !is_whitespace(chars[n - 1]) {
        insert_text(&mut app.textarea, " ");
        let ghost mid = app.textarea;
        insert_text(&mut app.textarea, text);
        assert(typed_into(old(app).textarea, mid, " "@));
    } else {
        insert_text(&mut app.textarea, text);
    }
}

/// A dictation ended. A text goes into the composer and is handed in at once.
pub fn dictation_ended(app: &mut App, connected: bool, outcome: DictationOutcome) -> (request:
    Request)
    ensures
        ({
            let quiet = App { assistant_status: None, ..*old(app) };
            match outcome {
                DictationOutcome::Transcribed(text) => exists|mid: App| #[trigger]
                    dictated(quiet, mid, text@) && submitted(
                        mid,
                        *final(app),
                        connected,
                        request,
                    ),
                DictationOutcome::NoSpeech => request is Nothing && told(
                    quiet,
                    *final(app),
                    "No speech detected"@,
                ),
                DictationOutcome::Failed(e) => request is Nothing && told(
                    quiet,
                    *final(app),
                    "Dictation failed: "@ + e@,
                ),
            }
        }),
{
    app.assistant_status = None;
    match outcome {
        DictationOutcome::Transcribed(text) => {
            let ghost quiet = *app;
            insert_dictated_text(app, text.as_str());
            let ghost mid = *app;
            assert(dictated(quiet, mid, text@));
            submit_prompt(app, connected)
        },
        DictationOutcome::NoSpeech => {
            app.status_message = "No speech detected".to_owned();
            Request::Nothing
        },
        DictationOutcome::Failed(e) => {
            app.status_message = cat2("Dictation failed: ", e.as_str());
            Request::Nothing
        },
    }
}

/// After the connection was lost nothing is shown as still streaming in, and the
/// transcript and the composer are as they were.
pub proof fn law_lost_connection_ends_the_stream(before: App, after: App, reason: Seq<char>)
    requires
        cut_off(before, after, reason),
    ensures
        after.core.stream is None,
        !after.streams_here(),
        after.assistant_status is None,
        after.core.current == before.core.current,
        after.textarea == before.textarea,
{
}

/// The turns of a conversation are followed exactly while it is open.
pub proof fn law_the_open_conversation_is_followed(app: App, id: Seq<char>)
    ensures
        followed(app).contains(id) <==> app.open_id() == Some(id),
        followed(app).len() <= 1,
{
    if app.open_id() == Some(id) {
        assert(followed(app)[0] == id);
    }
}

/// Each delay is twice the one before, as long as that is within the longest; the first
/// one is the shortest of all that are planned.
pub proof fn law_delays_double(prev: Option<u64>)
    ensures
        prev is None ==> next_delay(prev) == RECONNECT_INITIAL_SECS,
        prev matches Some(p) ==> (2 * p <= RECONNECT_MAX_SECS ==> next_delay(prev) == 2 * p),
        prev matches Some(p) ==> (2 * p > RECONNECT_MAX_SECS ==> next_delay(prev)
            == RECONNECT_MAX_SECS),
        prev matches Some(p) ==> (RECONNECT_INITIAL_SECS <= p ==> RECONNECT_INITIAL_SECS
            <= next_delay(prev)),
{
}

/// The status line tells why the connection was lost, and nothing is lost with it but
/// the reply that was streaming in.
pub proof fn law_lost_connection_is_told(before: App, after: App, reason: Seq<char>)
    requires
        cut_off(before, after, reason),
    ensures
        holds_text(after.status_message@, reason),
        after.core.conversations == before.core.conversations,
        after.core.drafts == before.core.drafts,
        after.core.queued == before.core.queued,
        after.selected_conversation == before.selected_conversation,
        after.mode == before.mode,
{
    law_text_is_held("Disconnected: "@, reason, ". Reconnecting in 2s..."@);
}

/// A screen is told apart by its name.
pub proof fn law_screens_have_their_own_names(a: ScreenRequest, b: ScreenRequest)
    ensures
        screen_name(a) == screen_name(b) ==> a == b,
        screen_name(a).len() > 0,
{
    reveal_strlit("KB");
    reveal_strlit("Connections");
    reveal_strlit("Purposes");
    reveal_strlit("MCP servers");
    reveal_strlit("Model picker");
    reveal_strlit("Personality picker");
    assert("Connections"@[0] != "MCP servers"@[0]);
    assert("KB"@.len() == 2 && "Connections"@.len() == 11 && "Purposes"@.len() == 8);
    assert("MCP servers"@.len() == 11 && "Model picker"@.len() == 12);
    assert("Personality picker"@.len() == 18);
}

/// A dictated text stands in the composer at the cursor, parted by a blank from what was
/// typed before unless that ends in one, and nothing that was typed is lost.
pub proof fn law_dictated_text_is_in_the_composer(before: App, after: App, text: Seq<char>)
    requires
        dictated(before, after, text),
        area_ready(before.textarea),
        forall|i: int| 0 <= i < text.len() ==> text[i] != '\n' && text[i] != '\r',
    ensures
        ({
            let row = area_cursor(before.textarea).0 as int;
            let col = area_cursor(before.textarea).1 as int;
            let line = area_lines(before.textarea)[row];
            let typed = area_text(before.textarea);
            let gap = if typed.len() == 0 || is_space(typed[typed.len() - 1]) {
                Seq::<char>::empty()
            } else {
                seq![' ']
            };
            &&& area_lines(after.textarea) == area_lines(before.textarea).update(
                row,
                line.take(col) + gap + text + line.skip(col),
            )
            &&& area_cursor(after.textarea) == (
                row as nat,
                (col + gap.len() + text.len()) as nat,
            )
        }),
        after.mode == InputMode::Editing,
        after.core == before.core,
{
    reveal_strlit(" ");
    let row = area_cursor(before.textarea).0 as int;
    let col = area_cursor(before.textarea).1 as int;
    let line = area_lines(before.textarea)[row];
    let typed = area_text(before.textarea);
    if needs_blank(typed) {
        let mid = choose|mid: Area| #[trigger]
            typed_into(before.textarea, mid, " "@) && typed_into(mid, after.textarea, text);
        law_typed_text_is_inserted(before.textarea, mid, " "@);
        law_typed_text_is_inserted(mid, after.textarea, text);
        let blank = line.take(col) + " "@ + line.skip(col);
        assert(" "@ =~= seq![' ']);
        assert(area_lines(mid)[row] == blank);
        assert(blank.take(col + 1) =~= line.take(col) + seq![' ']);
        assert(blank.skip(col + 1) =~= line.skip(col));
        assert(area_lines(after.textarea) =~= area_lines(before.textarea).update(
            row,
            line.take(col) + seq![' '] + text + line.skip(col),
        ));
    } else {
        law_typed_text_is_inserted(before.textarea, after.textarea, text);
        assert(line.take(col) + Seq::<char>::empty() =~= line.take(col));
    }
}

/// After a failed try the next one comes later than the last one did, as far as that
/// goes; after a connection that stood, as soon as the first.
pub proof fn law_failed_tries_come_later(state: ReconnectState)
    ensures
        state is Connected ==> next_delay(planned_delay(state)) == RECONNECT_INITIAL_SECS,
        state matches ReconnectState::Pending { delay_secs } ==> {
            &&& 2 * delay_secs <= RECONNECT_MAX_SECS ==> next_delay(planned_delay(state)) == 2
                * delay_secs
            &&& 2 * delay_secs > RECONNECT_MAX_SECS ==> next_delay(planned_delay(state))
                == RECONNECT_MAX_SECS
        },
{
    law_delays_double(planned_delay(state));
}

/// Nothing but the stream, and what is said of it, is lost with the connection.
pub proof fn law_only_the_stream_is_lost(before: App, after: App, reason: Seq<char>)
    requires
        cut_off(before, after, reason),
    ensures
        after == (App {
            status_message: after.status_message,
            assistant_status: None,
            core: Core { stream: None, ..before.core },
            ..before
        }),
{
}

} // verus!
