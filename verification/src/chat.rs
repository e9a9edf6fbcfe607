//! The chat's event loop, step by step: keys, signals of the daemon, prompts and
//! their replies, dictation, and the connection.

use vstd::prelude::*;
use crate::api::{SendPromptOverride, TaskView};
use crate::app::{App, ContextUsageView, CoreReply, Effect, InputMode, UiMessage};
#[allow(unused_imports)]
use crate::app::{bubbled, empty_area, holds, renamed, replied, told, Core};
use crate::area::{content, press_key};
#[allow(unused_imports)]
use crate::area::{area_lines, area_text, pressed};
use crate::client_tools::{dispatch, ClientToolCall, ToolEffect, ToolOutcome};
#[allow(unused_imports)]
use crate::client_tools::{dispatched, member_text};
use crate::keys::{handle_key_event, Action, KeyCode, KeyEvent, KeyEventKind};
#[allow(unused_imports)]
use crate::keys::{binding, law_no_key_deletes_directly};
#[allow(unused_imports)]
use crate::tasks::{
    has_task, law_other_tasks_stay, law_tasks_are_found, lemma_place_of_task, other_tasks,
    task_place, TaskPane,
};
use crate::text::{cat2, cat3, same, trim};
#[allow(unused_imports)]
use crate::text::{
    holds_text, is_space, law_trimmed_is_what_lies_between, opt_text, stands_at, texts, trimmed,
};

verus! {

/// What a key leads to.
pub enum KeyStep {
    Done,
    Act(Action),
    /// The shared reducer is to be told this.
    Tell(UiMessage),
    /// Dictation is to begin.
    Dictate,
}

/// A key answers yes.
pub open spec fn says_yes(code: KeyCode) -> bool {
    code == KeyCode::Char('y') || code == KeyCode::Char('Y') || code == KeyCode::Enter
}

/// A key answers no.
pub open spec fn says_no(code: KeyCode) -> bool {
    code == KeyCode::Char('n') || code == KeyCode::Char('N') || code == KeyCode::Esc
}

/// A key that steps through the waiting messages: Up or Down by itself, while the
/// composer has the focus and the arrow keys walk the queue.
pub open spec fn steps_queue(app: App, key: KeyEvent) -> bool {
    &&& app.mode is Editing
    &&& key.code == KeyCode::Up || key.code == KeyCode::Down
    &&& key.modifiers.none()
    &&& app.walks_queue()
}

/// What a step through the waiting messages asks for.
pub open spec fn queue_step(app: App, key: KeyEvent) -> KeyStep {
    let message = if key.code == KeyCode::Up {
        app.queue_up()
    } else {
        app.queue_down()
    };
    match message {
        Some(m) => KeyStep::Tell(m),
        None => KeyStep::Done,
    }
}

/// What a key does: it closes the help, answers the question before a deletion,
/// stands for an action, is swallowed by the open tasks pane, steps through the
/// waiting messages, or is typed into the input that has the focus.
pub open spec fn key_taken(before: App, after: App, key: KeyEvent, step: KeyStep) -> bool {
    if key.kind == KeyEventKind::Release {
        after == before && step is Done
    } else if before.show_help {
        after == (App { show_help: false, ..before }) && step is Done
    } else if before.pending_delete_conversation is Some {
        if says_yes(key.code) {
            &&& after == (App { pending_delete_conversation: None, ..before })
            &&& step == KeyStep::Act(Action::DeleteConversation)
        } else if says_no(key.code) {
            after == (App { pending_delete_conversation: None, ..before }) && step is Done
        } else {
            after == before && step is Done
        }
    } else {
        match binding(key, before.mode, before.tasks.visible) {
            Some(action) => after == before && step == (if action == Action::Dictate {
                KeyStep::Dictate
            } else {
                KeyStep::Act(action)
            }),
            None => if before.tasks.visible {
                after == before && step is Done
            } else if steps_queue(before, key) {
                after == before && step == queue_step(before, key)
            } else {
                step is Done && match before.mode {
                    InputMode::Editing => {
                        &&& after == (App { textarea: after.textarea, ..before })
                        &&& pressed(before.textarea, key, after.textarea)
                    },
                    InputMode::Renaming => {
                        &&& after == (App { rename_textarea: after.rename_textarea, ..before })
                        &&& pressed(before.rename_textarea, key, after.rename_textarea)
                    },
                    InputMode::Normal => after == before,
                }
            },
        }
    }
}

/// Takes a key. What it does to the text of an input is the input's own matter.
pub fn handle_key(app: &mut App, key: KeyEvent) -> (step: KeyStep)
    ensures
        key_taken(*old(app), *final(app), key, step),
{
    match key.kind {
        KeyEventKind::Release => {
            return KeyStep::Done;
        },
        _ => {},
    }
    if app.show_help {
        app.show_help = false;
        return KeyStep::Done;
    }
    if app.delete_confirm_pending() {
        return match key.code {
            KeyCode::Char('y') | KeyCode::Char('Y') | KeyCode::Enter => {
                let _ = app.confirm_delete();
                KeyStep::Act(Action::DeleteConversation)
            },
            KeyCode::Char('n') | KeyCode::Char('N') | KeyCode::Esc => {
                app.cancel_delete_confirm();
                KeyStep::Done
            },
            _ => KeyStep::Done,
        };
    }
    match handle_key_event(key, &app.mode, app.tasks.visible) {
        Some(Action::Dictate) => KeyStep::Dictate,
        Some(action) => KeyStep::Act(action),
        None => {
            if app.tasks.visible {
                return KeyStep::Done;
            }
            let editing: bool = match app.mode {
                InputMode::Editing => true,
                _ => false,
            };
            if editing && key.modifiers.is_empty() && app.recalls_queued() {
                let message = match key.code {
                    KeyCode::Up => Some(app.recall_prev_queued()),
                    KeyCode::Down => Some(app.recall_next_queued()),
                    _ => None,
                };
                match message {
                    Some(Some(m)) => {
                        return KeyStep::Tell(m);
                    },
                    Some(None) => {
                        return KeyStep::Done;
                    },
                    None => {},
                }
            }
            match app.mode {
                InputMode::Editing => press_key(&mut app.textarea, key),
                InputMode::Renaming => press_key(&mut app.rename_textarea, key),
                InputMode::Normal => {},
            }
            KeyStep::Done
        },
    }
}

/// Up and Down reach every waiting message: Up takes the last one in hand, then
/// the one before, and stops at the first; Down goes the other way, and gives the
/// last one back.
pub proof fn law_arrows_walk_the_queue(before: App, after: App, key: KeyEvent, step: KeyStep)
    requires
        key_taken(before, after, key, step),
        key.kind != KeyEventKind::Release,
        !before.show_help,
        before.pending_delete_conversation is None,
        !before.tasks.visible,
        steps_queue(before, key),
    ensures
        after == before,
        key.code == KeyCode::Up ==> step == (match before.core.editing_queued {
            None => KeyStep::Tell(
                UiMessage::EditQueued { index: (before.core.queued@.len() - 1) as usize },
            ),
            Some(i) => if i == 0 {
                KeyStep::Done
            } else {
                KeyStep::Tell(UiMessage::EditQueued { index: (i - 1) as usize })
            },
        }),
        key.code == KeyCode::Down ==> step == (match before.core.editing_queued {
            None => KeyStep::Done,
            Some(i) => if i < before.core.queued@.len() {
                KeyStep::Tell(UiMessage::EditQueued { index: (i + 1) as usize })
            } else {
                KeyStep::Tell(UiMessage::CancelQueuedEdit)
            },
        }),
{
}

/// While the tasks pane is open, nothing is typed: a key that stands for no action
/// changes nothing.
pub proof fn law_open_pane_lets_nothing_be_typed(
    before: App,
    after: App,
    key: KeyEvent,
    step: KeyStep,
)
    requires
        key_taken(before, after, key, step),
        before.tasks.visible,
    ensures
        after.textarea == before.textarea,
        after.rename_textarea == before.rename_textarea,
        !before.show_help && before.pending_delete_conversation is None && binding(
            key,
            before.mode,
            true,
        ) is None ==> after == before && step is Done,
{
}

/// Only a yes to the question before a deletion deletes, and while the question
/// is shown no key but an answer does anything.
pub proof fn law_deletion_needs_a_yes(before: App, after: App, key: KeyEvent, step: KeyStep)
    requires
        key_taken(before, after, key, step),
    ensures
        step == KeyStep::Act(Action::DeleteConversation) ==> {
            &&& before.pending_delete_conversation is Some
            &&& says_yes(key.code)
            &&& key.kind != KeyEventKind::Release
        },
        before.pending_delete_conversation is Some && !before.show_help && !says_yes(key.code)
            && !says_no(key.code) ==> after == before && step is Done,
{
    law_no_key_deletes_directly(key, before.mode, before.tasks.visible);
}

/// A signal of the daemon.
pub enum SignalEvent {
    UserMessageAdded { conversation_id: String, request_id: String, content: String },
    Chunk { request_id: String, chunk: String },
    Complete { request_id: String, full_response: String },
    Error { request_id: String, error: String },
    Status { request_id: String, message: String },
    ContextUsage {
        conversation_id: String,
        used_tokens: u64,
        budget_tokens: u64,
        compaction_active: bool,
    },
    TitleChanged { conversation_id: String, title: String },
    ConversationListChanged,
    Disconnected { reason: String },
    ConversationWarning { warning: String },
    TaskStarted { task: TaskView },
    TaskProgress { id: String, progress_hint: Option<String> },
    TaskLogAppended { id: String },
    TaskCompleted { id: String },
    ScratchpadChanged,
    KnowledgeChanged,
    ClientToolCall(ClientToolCall),
}

/// What a signal asks of the loop.
pub enum SignalAction {
    Nothing,
    Disconnected { reason: String },
    /// The conversation list is to be fetched again.
    RefreshConversations,
    /// The shared reducer is to be told this; an error is shown after its reply.
    Reduce { message: UiMessage, error: Option<String> },
    /// The assistant calls a tool of this client.
    CallTool(ClientToolCall),
}

/// What a signal does.
pub open spec fn signalled(before: App, after: App, signal: SignalEvent, action: SignalAction) -> bool {
    match signal {
        SignalEvent::UserMessageAdded { conversation_id, request_id, content } => {
            &&& after == before
            &&& action == (SignalAction::Reduce {
                message: UiMessage::UserMessageAdded { conversation_id, request_id, content },
                error: None,
            })
        },
        SignalEvent::Chunk { request_id, chunk } => {
            &&& after == before
            &&& action == (SignalAction::Reduce {
                message: UiMessage::StreamChunk { request_id, chunk },
                error: None,
            })
        },
        SignalEvent::Complete { request_id, full_response } => {
            &&& after == before
            &&& action == (SignalAction::Reduce {
                message: UiMessage::StreamComplete { request_id, full_response },
                error: None,
            })
        },
        SignalEvent::Error { request_id, error } => {
            &&& after == before
            &&& action == (SignalAction::Reduce {
                message: UiMessage::StreamError { request_id, error },
                error: Some(error),
            })
        },
        SignalEvent::Status { request_id, message } => {
            &&& after == before
            &&& action == (SignalAction::Reduce {
                message: UiMessage::AssistantStatus { request_id, message },
                error: None,
            })
        },
        SignalEvent::ContextUsage {
            conversation_id,
            used_tokens,
            budget_tokens,
            compaction_active,
        } => {
            &&& action is Nothing
            &&& after == (App {
                context_usage: if before.open_id() == Some(conversation_id@) {
                    Some(ContextUsageView { used_tokens, budget_tokens, compaction_active })
                } else {
                    before.context_usage
                },
                ..before
            })
        },
        SignalEvent::TitleChanged { conversation_id, title } => {
            &&& action is Nothing
            &&& renamed(before, after, conversation_id@, title@)
        },
        SignalEvent::ConversationListChanged => after == before
            && action is RefreshConversations,
        SignalEvent::Disconnected { reason } => after == before && action
            == (SignalAction::Disconnected { reason }),
        SignalEvent::ConversationWarning { warning } => action is Nothing && told(
            before,
            after,
            "Warning: "@ + warning@,
        ),
        SignalEvent::TaskStarted { task } => {
            &&& action is Nothing
            &&& after.tasks.rows@ == (if has_task(before.tasks.rows@, task.id@) {
                before.tasks.rows@.update(task_place(before.tasks.rows@, task.id@), task)
            } else {
                before.tasks.rows@.push(task)
            })
            &&& after == (App {
                tasks: TaskPane { rows: after.tasks.rows, ..before.tasks },
                ..before
            })
        },
        SignalEvent::TaskProgress { id, progress_hint } => {
            let at = task_place(before.tasks.rows@, id@);
            &&& action is Nothing
            &&& after.tasks.rows@ == (if has_task(before.tasks.rows@, id@) {
                before.tasks.rows@.update(
                    at,
                    TaskView { progress_hint, ..before.tasks.rows@[at] },
                )
            } else {
                before.tasks.rows@
            })
            &&& after == (App {
                tasks: TaskPane { rows: after.tasks.rows, ..before.tasks },
                ..before
            })
        },
        SignalEvent::TaskCompleted { id } => {
            &&& action is Nothing
            &&& after.tasks.rows@ == other_tasks(before.tasks.rows@, id@)
            &&& after == (App {
                pending_task_cancel: if opt_text(before.pending_task_cancel) == Some(id@) {
                    None
                } else {
                    before.pending_task_cancel
                },
                tasks: TaskPane { rows: after.tasks.rows, ..before.tasks },
                ..before
            })
        },
        SignalEvent::TaskLogAppended { .. } => after == before && action is Nothing,
        SignalEvent::ScratchpadChanged => after == before && action is Nothing,
        SignalEvent::KnowledgeChanged => after == before && action is Nothing,
        SignalEvent::ClientToolCall(call) => after == before && action == SignalAction::CallTool(
            call,
        ),
    }
}

fn show_usage(app: &mut App, conversation_id: &str, usage: ContextUsageView)
    ensures
        *final(app) == (App {
            context_usage: if old(app).open_id() == Some(conversation_id@) {
                Some(usage)
            } else {
                old(app).context_usage
            },
            ..*old(app)
        }),
{
    let here: bool = match &app.core.current {
        Some(c) => same(c.id.as_str(), conversation_id),
        None => false,
    };
    if here {
        app.context_usage = Some(usage);
    }
}

fn end_task(app: &mut App, id: &str)
    ensures
        final(app).tasks.rows@ == other_tasks(old(app).tasks.rows@, id@),
        *final(app) == (App {
            pending_task_cancel: if opt_text(old(app).pending_task_cancel) == Some(id@) {
                None
            } else {
                old(app).pending_task_cancel
            },
            tasks: TaskPane { rows: final(app).tasks.rows, ..old(app).tasks },
            ..*old(app)
        }),
{
    let waiting: bool = match &app.pending_task_cancel {
        Some(task) => same(task.as_str(), id),
        None => false,
    };
    if waiting {
        app.pending_task_cancel = None;
    }
    app.tasks.apply_task_completed(id);
}

/// Takes a signal of the daemon.
pub fn handle_signal(app: &mut App, signal: SignalEvent) -> (action: SignalAction)
    ensures
        signalled(*old(app), *final(app), signal, action),
{
    match signal {
        SignalEvent::UserMessageAdded { conversation_id, request_id, content } => {
            SignalAction::Reduce {
                message: UiMessage::UserMessageAdded { conversation_id, request_id, content },
                error: None,
            }
        },
        SignalEvent::Chunk { request_id, chunk } => SignalAction::Reduce {
            message: UiMessage::StreamChunk { request_id, chunk },
            error: None,
        },
        SignalEvent::Complete { request_id, full_response } => SignalAction::Reduce {
            message: UiMessage::StreamComplete { request_id, full_response },
            error: None,
        },
        SignalEvent::Error { request_id, error } => {
            let shown = error.clone();
            SignalAction::Reduce {
                message: UiMessage::StreamError { request_id, error },
                error: Some(shown),
            }
        },
        SignalEvent::Status { request_id, message } => SignalAction::Reduce {
            message: UiMessage::AssistantStatus { request_id, message },
            error: None,
        },
        SignalEvent::ContextUsage {
            conversation_id,
            used_tokens,
            budget_tokens,
            compaction_active,
        } => {
            show_usage(
                app,
                conversation_id.as_str(),
                ContextUsageView { used_tokens, budget_tokens, compaction_active },
            );
            SignalAction::Nothing
        },
        SignalEvent::TitleChanged { conversation_id, title } => {
            app.update_conversation_title(conversation_id.as_str(), title.as_str());
            SignalAction::Nothing
        },
        SignalEvent::ConversationListChanged => SignalAction::RefreshConversations,
        SignalEvent::Disconnected { reason } => SignalAction::Disconnected { reason },
        SignalEvent::ConversationWarning { warning } => {
            app.status_message = cat2("Warning: ", warning.as_str());
            SignalAction::Nothing
        },
        SignalEvent::TaskStarted { task } => {
            app.tasks.apply_task_started(task);
            SignalAction::Nothing
        },
        SignalEvent::TaskProgress { id, progress_hint } => {
            app.tasks.apply_task_progress(id.as_str(), progress_hint);
            SignalAction::Nothing
        },
        SignalEvent::TaskCompleted { id } => {
            end_task(app, id.as_str());
            SignalAction::Nothing
        },
        SignalEvent::TaskLogAppended { .. } => SignalAction::Nothing,
        SignalEvent::ScratchpadChanged => SignalAction::Nothing,
        SignalEvent::KnowledgeChanged => SignalAction::Nothing,
        SignalEvent::ClientToolCall(call) => SignalAction::CallTool(call),
    }
}

/// The replies to be read aloud among effects: those that are not blank.
pub open spec fn spoken_texts(effects: Seq<Effect>) -> Seq<Seq<char>>
    decreases effects.len(),
{
    if effects.len() == 0 {
        Seq::<Seq<char>>::empty()
    } else {
        let n = effects.len() - 1;
        let before = spoken_texts(effects.take(n));
        match effects[n] {
            Effect::Speak(text) if trimmed(text@).len() > 0 => before.push(text@),
            _ => before,
        }
    }
}

/// The texts that are to be read aloud.
pub fn run_stream_controller_effects(effects: &Vec<Effect>) -> (spoken: Vec<String>)
    ensures
        texts(spoken@) == spoken_texts(effects@),
{
    let mut spoken: Vec<String> = Vec::new();
    let mut i: usize = 0;
    assert(texts(spoken@) =~= spoken_texts(effects@.take(0)));
    while i < effects.len()
        invariant
            i <= effects@.len(),
            texts(spoken@) == spoken_texts(effects@.take(i as int)),
        decreases effects@.len() - i,
    {
        let ghost t = effects@.take(i + 1);
        assert(t.take(t.len() - 1) =~= effects@.take(i as int));
        let ghost before = texts(spoken@);
        match &effects[i] {
            Effect::Speak(text) => {
                let blank = trim(text.as_str());
                if !blank.as_str().is_empty() {
                    spoken.push(text.clone());
                    assert(texts(spoken@) =~= before.push(text@));
                }
            },
            _ => {},
        }
        i += 1;
    }
    assert(effects@.take(i as int) =~= effects@);
    spoken
}

/// Shows the reducer's reply to a signal, and after it an error. Returns what is
/// to be read aloud.
pub fn signal_replied(app: &mut App, reply: CoreReply, error: Option<String>) -> (spoken: Vec<
    String,
>)
    ensures
        texts(spoken@) == spoken_texts(bubbled(reply.effects@)),
        match error {
            Some(e) => final(app).status_message@ == "Error: "@ + e@ && exists|mid: App| #[trigger]
                replied(*old(app), mid, reply) && *final(app) == (App {
                    status_message: final(app).status_message,
                    ..mid
                }),
            None => replied(*old(app), *final(app), reply),
        },
{
    let rest = app.apply_core(reply);
    let ghost mid = *app;
    assert(replied(*old(app), mid, reply));
    match error {
        Some(e) => {
            app.status_message = cat2("Error: ", e.as_str());
        },
        None => {},
    }
    run_stream_controller_effects(&rest)
}

/// A prompt that is to be sent.
pub struct Outgoing {
    pub conversation_id: String,
    pub prompt: String,
    pub refinement: String,
    pub override_selection: Option<SendPromptOverride>,
}

/// The first prompt to be sent among effects.
pub open spec fn first_send(effects: Seq<Effect>) -> Option<Effect>
    decreases effects.len(),
{
    if effects.len() == 0 {
        None
    } else if effects[0] is SendPrompt {
        Some(effects[0])
    } else {
        first_send(effects.skip(1))
    }
}

/// The window after a prompt was accepted: the composer is empty, the chat is
/// scrolled to its end, and a model for the next prompt is used up. Where the
/// connection takes no commands the prompt goes without that model.
pub open spec fn accepted(before: App, after: App, commands: bool, effect: Effect, out: Outgoing) -> bool {
    let dropped = before.pending_model_override is Some && !commands;
    &&& effect matches Effect::SendPrompt { conversation_id, prompt, system_refinement } && {
        &&& out.conversation_id == conversation_id
        &&& out.prompt == prompt
        &&& out.refinement@ == (match system_refinement {
            Some(r) => r@,
            None => ""@,
        })
    }
    &&& out.override_selection == (if commands {
        before.pending_model_override
    } else {
        None
    })
    &&& empty_area(after.textarea)
    &&& dropped ==> after.status_message@
        == "Model override isn't supported over D-Bus — sent without override"@
    &&& after == (App {
        textarea: after.textarea,
        scroll_offset: 0,
        pending_model_override: None,
        status_message: if dropped {
            after.status_message
        } else {
            before.status_message
        },
        ..before
    })
}

fn take_send(effects: Vec<Effect>) -> (send: Option<Effect>)
    ensures
        send == first_send(effects@),
{
    let mut rest = effects;
    let ghost all = effects@;
    let mut i: usize = 0;
    assert(all.skip(0) =~= all);
    while i < rest.len()
        invariant
            rest@ == all,
            all == effects@,
            i <= all.len(),
            first_send(all) == first_send(all.skip(i as int)),
        decreases all.len() - i,
    {
        let found: bool = match &rest[i] {
            Effect::SendPrompt { .. } => true,
            _ => false,
        };
        if found {
            assert(all.skip(i as int)[0] == all[i as int]);
            return Some(rest.remove(i));
        }
        assert(all.skip(i as int)[0] == all[i as int]);
        assert(all.skip(i as int).skip(1) =~= all.skip(i + 1));
        i += 1;
    }
    None
}

fn accept(app: &mut App, commands: bool, effect: Effect) -> (out: Option<Outgoing>)
    requires
        effect is SendPrompt,
    ensures
        out is Some && accepted(*old(app), *final(app), commands, effect, out->0),
{
    match effect {
        Effect::SendPrompt { conversation_id, prompt, system_refinement } => {
            app.clear_composer();
            app.scroll_to_bottom();
            let mut chosen = app.take_pending_override();
            if chosen.is_some() && !commands {
                app.status_message = "Model override isn't supported over D-Bus — sent without override".to_owned();
            }
            if !commands {
                chosen = None;
            }
            let refinement = match system_refinement {
                Some(r) => r,
                None => "".to_owned(),
            };
            Some(Outgoing { conversation_id, prompt, refinement, override_selection: chosen })
        },
        _ => None,
    }
}

/// Shows the reducer's reply to a prompt. Where it was accepted, it is to be
/// sent.
pub fn prompt_replied(app: &mut App, reply: CoreReply, commands: bool) -> (out: Option<Outgoing>)
    ensures
        exists|mid: App| #[trigger]
            replied(*old(app), mid, reply) && match first_send(bubbled(reply.effects@)) {
                Some(effect) => out is Some && accepted(
                    mid,
                    *final(app),
                    commands,
                    effect,
                    out->0,
                ),
                None => out is None && *final(app) == mid,
            },
{
    let rest = app.apply_core(reply);
    let ghost mid = *app;
    assert(replied(*old(app), mid, reply));
    match take_send(rest) {
        Some(effect) => {
            proof {
                lemma_first_send(bubbled(reply.effects@));
            }
            accept(app, commands, effect)
        },
        None => None,
    }
}

proof fn lemma_first_send(effects: Seq<Effect>)
    ensures
        first_send(effects) matches Some(e) ==> e is SendPrompt,
    decreases effects.len(),
{
    if effects.len() > 0 && !(effects[0] is SendPrompt) {
        lemma_first_send(effects.skip(1));
    }
}

/// What became of a prompt.
pub enum Sent {
    Accepted,
    /// The reducer is to be told; then the prompt goes back into the composer.
    Failed { message: UiMessage, prompt: String, error: String },
}

/// The daemon's answer to a prompt that was sent.
pub fn prompt_sent(app: &mut App, out: Outgoing, result: Result<String, String>) -> (sent: Sent)
    ensures
        match result {
            Ok(_) => {
                &&& sent is Accepted
                &&& opt_text(final(app).assistant_status) == Some("Adele is thinking…"@)
                &&& final(app).core.stream matches Some(stream) && stream.conversation_id
                    == out.conversation_id && stream.buffer@ == ""@
                &&& *final(app) == (App {
                    assistant_status: final(app).assistant_status,
                    core: Core { stream: final(app).core.stream, ..old(app).core },
                    ..*old(app)
                })
            },
            Err(error) => {
                &&& *final(app) == *old(app)
                &&& sent == (Sent::Failed {
                    message: UiMessage::SendFailed {
                        conversation_id: out.conversation_id,
                        prompt: out.prompt,
                    },
                    prompt: out.prompt,
                    error,
                })
            },
        },
{
    match result {
        Ok(task_id) => {
            app.apply_prompt_ack(task_id, out.conversation_id);
            Sent::Accepted
        },
        Err(error) => {
            let prompt = out.prompt.clone();
            Sent::Failed {
                message: UiMessage::SendFailed {
                    conversation_id: out.conversation_id,
                    prompt: out.prompt,
                },
                prompt,
                error,
            }
        },
    }
}

/// A prompt could not be sent: it goes back into the composer.
pub fn send_failed(app: &mut App, reply: CoreReply, prompt: String, error: String)
    ensures
        exists|mid: App| #[trigger]
            replied(*old(app), mid, reply) && {
                &&& holds(final(app).textarea, prompt@)
                &&& final(app).status_message@ == "Send error: "@ + error@
                    + " (your text is preserved)"@
                &&& *final(app) == (App {
                    textarea: final(app).textarea,
                    status_message: final(app).status_message,
                    ..mid
                })
            },
{
    let _ = app.apply_core(reply);
    let ghost mid = *app;
    assert(replied(*old(app), mid, reply));
    app.set_composer(prompt.as_str());
    app.status_message = cat3("Send error: ", error.as_str(), " (your text is preserved)");
}

/// The answer to a tool call: what is to be spoken, and the result.
pub struct ToolAnswer {
    pub speak: Option<String>,
    pub result: Result<String, String>,
}

/// What the outcome of a tool call changes in the window, and the answer. A text
/// is spoken only where something can speak; else it is shown.
pub open spec fn tool_shown(
    before: App,
    after: App,
    conversation: Seq<char>,
    outcome: ToolOutcome,
    has_backend: bool,
    answer: ToolAnswer,
) -> bool {
    &&& answer.result == outcome.result
    &&& match outcome.effect {
        ToolEffect::Speak(text) => if has_backend {
            &&& answer.speak == Some(text)
            &&& App::aside_shown(
                before,
                after,
                conversation,
                text@,
                crate::api::MessageKind::Spoken,
            )
        } else {
            &&& answer.speak is None
            &&& App::aside_shown(
                before,
                after,
                conversation,
                text@,
                crate::api::MessageKind::SpeechDisabled,
            )
        },
        ToolEffect::ShowDisabled(text) => {
            &&& answer.speak is None
            &&& App::aside_shown(
                before,
                after,
                conversation,
                text@,
                crate::api::MessageKind::SpeechDisabled,
            )
        },
        ToolEffect::SetAdeleOutput(level) => {
            &&& answer.speak is None
            &&& after.core.adele_output@ == before.core.adele_output@.insert(conversation, level)
            &&& after == (App {
                core: Core { adele_output: after.core.adele_output, ..before.core },
                ..before
            })
        },
        ToolEffect::Nothing => answer.speak is None && after == before,
    }
}

/// Shows the outcome of a tool call in the conversation that it came from.
pub fn show_tool_outcome(app: &mut App, conversation_id: &str, outcome: ToolOutcome, has_backend: bool) -> (answer:
    ToolAnswer)
    ensures
        tool_shown(*old(app), *final(app), conversation_id@, outcome, has_backend, answer),
{
    let speak = match outcome.effect {
        ToolEffect::Speak(text) => if has_backend {
            let _ = app.push_spoken_note(conversation_id, text.as_str());
            Some(text)
        } else {
            let _ = app.push_speech_disabled_note(conversation_id, text.as_str());
            None
        },
        ToolEffect::ShowDisabled(text) => {
            let _ = app.push_speech_disabled_note(conversation_id, text.as_str());
            None
        },
        ToolEffect::SetAdeleOutput(level) => {
            app.set_adele_output(conversation_id, level);
            None
        },
        ToolEffect::Nothing => None,
    };
    ToolAnswer { speak, result: outcome.result }
}

/// Answers a tool call of the assistant. Whether an aside is spoken is a matter
/// of the conversation that the call came from, whichever is open.
pub fn handle_client_tool_call(app: &mut App, call: &ClientToolCall, has_backend: bool) -> (answer:
    ToolAnswer)
    ensures
        exists|outcome: ToolOutcome| #[trigger]
            dispatched(
                outcome,
                call.tool_name@,
                member_text(call.arguments, "text"@),
                old(app).speaks_asides(call.conversation_id@),
            ) && tool_shown(
                *old(app),
                *final(app),
                call.conversation_id@,
                outcome,
                has_backend,
                answer,
            ),
{
    let spoken: bool = app.say_this_spoken_for(call.conversation_id.as_str());
    let outcome = dispatch(call.tool_name.as_str(), &call.arguments, spoken);
    let ghost decided = outcome;
    let answer = show_tool_outcome(app, call.conversation_id.as_str(), outcome, has_backend);
    assert(dispatched(
        decided,
        call.tool_name@,
        member_text(call.arguments, "text"@),
        old(app).speaks_asides(call.conversation_id@),
    ));
    answer
}

/// The answer to a tool call was handed in, or could not be.
pub fn tool_result_submitted(app: &mut App, connected: bool, result: Result<(), String>)
    ensures
        if !connected {
            told(*old(app), *final(app), "Client tool call arrived while disconnected"@)
        } else {
            match result {
                Ok(_) => *final(app) == *old(app),
                Err(e) => told(
                    *old(app),
                    *final(app),
                    "Client tool result submit failed: "@ + e@,
                ),
            }
        },
{
    if !connected {
        app.status_message = "Client tool call arrived while disconnected".to_owned();
        return;
    }
    match result {
        Ok(_) => {},
        Err(e) => {
            app.status_message = cat2("Client tool result submit failed: ", e.as_str());
        },
    }
}

/// Every signal about a turn is handed to the reducer as the message of its own
/// kind, with the same request and the same text; an error is also shown.
pub proof fn law_turn_signals_reach_the_reducer(
    before: App,
    after: App,
    conversation_id: String,
    request_id: String,
    text: String,
    action: SignalAction,
)
    ensures
        signalled(
            before,
            after,
            SignalEvent::UserMessageAdded { conversation_id, request_id, content: text },
            action,
        ) ==> after == before && (action matches SignalAction::Reduce { message, error } && error
            is None && (message matches UiMessage::UserMessageAdded {
            conversation_id: c,
            request_id: r,
            content: t,
        } && c == conversation_id && r == request_id && t == text)),
        signalled(before, after, SignalEvent::Chunk { request_id, chunk: text }, action)
            ==> after == before && (action matches SignalAction::Reduce { message, error } && error
            is None && (message matches UiMessage::StreamChunk { request_id: r, chunk: t } && r
            == request_id && t == text)),
        signalled(before, after, SignalEvent::Complete { request_id, full_response: text }, action)
            ==> after == before && (action matches SignalAction::Reduce { message, error } && error
            is None && (message matches UiMessage::StreamComplete {
            request_id: r,
            full_response: t,
        } && r == request_id && t == text)),
        signalled(before, after, SignalEvent::Error { request_id, error: text }, action)
            ==> after == before && (action matches SignalAction::Reduce { message, error } && error
            == Some(text) && (message matches UiMessage::StreamError { request_id: r, error: t }
            && r == request_id && t == text)),
        signalled(before, after, SignalEvent::Status { request_id, message: text }, action)
            ==> after == before && (action matches SignalAction::Reduce { message, error } && error
            is None && (message matches UiMessage::AssistantStatus { request_id: r, message: t }
            && r == request_id && t == text)),
{
}

/// The reducer hears of turns only: no other signal is handed to it. A lost
/// connection, a changed list and a tool call are handed on with all they carry,
/// and each of them only for the signal of its kind.
pub proof fn law_signals_lead_to_their_own_action(
    before: App,
    after: App,
    signal: SignalEvent,
    action: SignalAction,
)
    requires
        signalled(before, after, signal, action),
    ensures
        action is Reduce <==> (signal is UserMessageAdded || signal is Chunk || signal is Complete
            || signal is Error || signal is Status),
        action is Disconnected <==> signal is Disconnected,
        signal matches SignalEvent::Disconnected { reason: told_reason } ==> (action matches
            SignalAction::Disconnected { reason } && reason == told_reason),
        action is RefreshConversations <==> signal is ConversationListChanged,
        action is CallTool <==> signal is ClientToolCall,
        signal matches SignalEvent::ClientToolCall(call) ==> (action matches SignalAction::CallTool(
            c,
        ) && c == call),
        !(action is Nothing) ==> after == before,
{
}

/// How full the context is, is shown for the open conversation alone.
pub proof fn law_usage_is_of_the_open_conversation(
    before: App,
    after: App,
    conversation_id: String,
    used_tokens: u64,
    budget_tokens: u64,
    compaction_active: bool,
    action: SignalAction,
)
    requires
        signalled(
            before,
            after,
            SignalEvent::ContextUsage {
                conversation_id,
                used_tokens,
                budget_tokens,
                compaction_active,
            },
            action,
        ),
    ensures
        before.core.current matches Some(c) && c.id@ == conversation_id@ ==> (
        after.context_usage matches Some(u) && u.used_tokens == used_tokens && u.budget_tokens
            == budget_tokens && u.compaction_active == compaction_active),
        !(before.core.current matches Some(c) && c.id@ == conversation_id@) ==> after == before,
        after.core == before.core,
        after.textarea == before.textarea,
        after.status_message == before.status_message,
{
}

/// A warning of the daemon is shown in the status line, and nothing else changes.
pub proof fn law_warnings_are_shown(
    before: App,
    after: App,
    warning: String,
    action: SignalAction,
)
    requires
        signalled(before, after, SignalEvent::ConversationWarning { warning }, action),
    ensures
        holds_text(after.status_message@, warning@),
        after == (App { status_message: after.status_message, ..before }),
{
    let shown = after.status_message@;
    let at = "Warning: "@.len() as int;
    assert(shown.subrange(at, at + warning@.len()) =~= warning@);
    assert(stands_at(shown, warning@, at));
}

/// The task pane follows the daemon: a started task is in it as reported, its
/// progress shows on it, and a completed one leaves it. No signal about a task
/// touches another task, nor the chat.
pub proof fn law_task_signals_keep_the_pane(
    before: App,
    after: App,
    signal: SignalEvent,
    action: SignalAction,
    other: Seq<char>,
)
    requires
        signalled(before, after, signal, action),
        signal is TaskStarted || signal is TaskProgress || signal is TaskCompleted,
    ensures
        signal matches SignalEvent::TaskStarted { task } ==> after.tasks.rows@.contains(task),
        signal matches SignalEvent::TaskProgress { id, progress_hint } ==> (has_task(
            before.tasks.rows@,
            id@,
        ) ==> exists|i: int|
            0 <= i < after.tasks.rows@.len() && (#[trigger] after.tasks.rows@[i]).id@ == id@
                && after.tasks.rows@[i].progress_hint == progress_hint),
        signal matches SignalEvent::TaskCompleted { id } ==> forall|i: int|
            0 <= i < after.tasks.rows@.len() ==> (#[trigger] after.tasks.rows@[i]).id@ != id@,
        forall|i: int|
            0 <= i < before.tasks.rows@.len() && (match signal {
                SignalEvent::TaskStarted { task } => task.id@ != before.tasks.rows@[i].id@,
                SignalEvent::TaskProgress { id, .. } => id@ != before.tasks.rows@[i].id@,
                SignalEvent::TaskCompleted { id } => id@ != before.tasks.rows@[i].id@,
                _ => false,
            }) ==> after.tasks.rows@.contains(#[trigger] before.tasks.rows@[i]),
        after.core == before.core,
        after.textarea == before.textarea,
        after.tasks.selected == before.tasks.selected,
        after.tasks.visible == before.tasks.visible,
{
    let rows = before.tasks.rows@;
    match signal {
        SignalEvent::TaskStarted { task } => {
            let at = task_place(rows, task.id@);
            lemma_place_of_task(rows, task.id@);
            if has_task(rows, task.id@) {
                assert(after.tasks.rows@[at] == task);
            } else {
                assert(after.tasks.rows@[rows.len() as int] == task);
            }
            assert forall|i: int|
                0 <= i < rows.len() && task.id@ != rows[i].id@ implies after.tasks.rows@.contains(
                #[trigger] rows[i],
            ) by {
                assert(after.tasks.rows@[i] == rows[i]);
            }
        },
        SignalEvent::TaskProgress { id, progress_hint } => {
            let at = task_place(rows, id@);
            lemma_place_of_task(rows, id@);
            if has_task(rows, id@) {
                assert(after.tasks.rows@[at].id@ == id@);
            }
            assert forall|i: int|
                0 <= i < rows.len() && id@ != rows[i].id@ implies after.tasks.rows@.contains(
                #[trigger] rows[i],
            ) by {
                assert(after.tasks.rows@[i] == rows[i]);
            }
        },
        SignalEvent::TaskCompleted { id } => {
            law_other_tasks_stay(rows, id@);
            let key = id@;
            let kept = |t: TaskView| t.id@ != key;
            assert(after.tasks.rows@ == rows.filter(kept));
            assert forall|i: int| 0 <= i < after.tasks.rows@.len() implies (
            #[trigger] after.tasks.rows@[i]).id@ != id@ by {
                rows.lemma_filter_pred(kept, i);
            }
            assert forall|i: int|
                0 <= i < rows.len() && id@ != rows[i].id@ implies after.tasks.rows@.contains(
                #[trigger] rows[i],
            ) by {
                rows.lemma_filter_contains(kept, i);
            }
        },
        _ => {},
    }
}

/// What is read aloud are the texts of the speaking effects, in order, but for
/// blank ones.
pub proof fn law_spoken_are_the_speaking_effects(effects: Seq<Effect>, text: String)
    ensures
        spoken_texts(effects.push(Effect::Speak(text))) == (if exists|i: int|
            0 <= i < text@.len() && !is_space(#[trigger] text@[i]) {
            spoken_texts(effects).push(text@)
        } else {
            spoken_texts(effects)
        }),
        forall|e: Effect|
            !(e is Speak) ==> #[trigger] spoken_texts(effects.push(e)) == spoken_texts(effects),
        spoken_texts(Seq::<Effect>::empty()).len() == 0,
{
    law_trimmed_is_what_lies_between(text@);
    let all = effects.push(Effect::Speak(text));
    assert(all.take(all.len() - 1) =~= effects);
    assert forall|e: Effect| !(e is Speak) implies #[trigger] spoken_texts(effects.push(e))
        == spoken_texts(effects) by {
        let more = effects.push(e);
        assert(more.take(more.len() - 1) =~= effects);
    }
}

/// A prompt that the reducer accepted is the one that is sent: the first of its
/// sending effects, to its conversation, with its text; the composer is then empty
/// and the model that was chosen for it goes along where it can.
pub proof fn law_accepted_prompt_is_sent(
    before: App,
    after: App,
    commands: bool,
    effects: Seq<Effect>,
    at: int,
    out: Outgoing,
)
    requires
        0 <= at < effects.len(),
        effects[at] is SendPrompt,
        forall|i: int| 0 <= i < at ==> !(#[trigger] effects[i] is SendPrompt),
        first_send(effects) matches Some(effect) && accepted(before, after, commands, effect, out),
    ensures
        effects[at] matches Effect::SendPrompt { conversation_id, prompt, system_refinement }
            && conversation_id == out.conversation_id && prompt == out.prompt && (
        system_refinement matches Some(r) ==> out.refinement@ == r@) && (system_refinement is None
            ==> out.refinement@.len() == 0),
        commands ==> out.override_selection == before.pending_model_override,
        !commands ==> out.override_selection is None,
        area_text(after.textarea).len() == 0,
        after.scroll_offset == 0,
        after.pending_model_override is None,
        after.core == before.core,
        before.pending_model_override is None ==> after.status_message == before.status_message,
    decreases at,
{
    reveal_strlit("");
    if at == 0 {
        assert(area_lines(after.textarea) == seq![Seq::<char>::empty()]);
    } else {
        let rest = effects.skip(1);
        assert(rest[at - 1] == effects[at]);
        assert forall|i: int| 0 <= i < at - 1 implies !(#[trigger] rest[i] is SendPrompt) by {
            assert(rest[i] == effects[i + 1]);
        }
        assert(!(effects[0] is SendPrompt));
        law_accepted_prompt_is_sent(before, after, commands, rest, at - 1, out);
    }
}

/// Nothing is sent where no effect asks for it.
pub proof fn law_nothing_is_sent_unasked(effects: Seq<Effect>)
    ensures
        first_send(effects) is None <==> forall|i: int|
            0 <= i < effects.len() ==> !(#[trigger] effects[i] is SendPrompt),
    decreases effects.len(),
{
    if effects.len() > 0 && !(effects[0] is SendPrompt) {
        let rest = effects.skip(1);
        law_nothing_is_sent_unasked(rest);
        if forall|i: int| 0 <= i < rest.len() ==> !(#[trigger] rest[i] is SendPrompt) {
            assert forall|i: int| 0 <= i < effects.len() implies !(
            #[trigger] effects[i] is SendPrompt) by {
                if i > 0 {
                    assert(effects[i] == rest[i - 1]);
                }
            }
        } else {
            let i = choose|i: int| 0 <= i < rest.len() && #[trigger] rest[i] is SendPrompt;
            assert(effects[i + 1] is SendPrompt);
        }
    } else if effects.len() > 0 {
        assert(effects[0] is SendPrompt);
    }
}

/// A tool call is answered with its own result. Text is spoken only where something
/// can speak, and what was to be spoken is shown in the conversation that the call
/// came from, as the last message there; elsewhere nothing changes in the chat.
pub proof fn law_tool_outcome_shows_where_it_belongs(
    before: App,
    after: App,
    conversation: Seq<char>,
    outcome: ToolOutcome,
    has_backend: bool,
    answer: ToolAnswer,
)
    requires
        tool_shown(before, after, conversation, outcome, has_backend, answer),
    ensures
        answer.result == outcome.result,
        answer.speak is Some <==> outcome.effect is Speak && has_backend,
        outcome.effect matches ToolEffect::Speak(text) ==> (has_backend ==> answer.speak == Some(
            text,
        )),
        (outcome.effect is Speak || outcome.effect is ShowDisabled) && before.open_id() == Some(
            conversation,
        ) ==> {
            let text = match outcome.effect {
                ToolEffect::Speak(t) => t@,
                ToolEffect::ShowDisabled(t) => t@,
                _ => arbitrary(),
            };
            let old_messages = before.core.current->0.messages@;
            let messages = after.core.current->0.messages@;
            &&& after.core.current is Some
            &&& messages.len() == old_messages.len() + 1
            &&& messages.drop_last() == old_messages
            &&& messages.last().content@ == text
            &&& messages.last().kind == (if answer.speak is Some {
                crate::api::MessageKind::Spoken
            } else {
                crate::api::MessageKind::SpeechDisabled
            })
        },
        (outcome.effect is Speak || outcome.effect is ShowDisabled) && before.open_id() != Some(
            conversation,
        ) ==> after == before,
        outcome.effect matches ToolEffect::SetAdeleOutput(level) ==> after.output_level(
            conversation,
        ) == level && forall|other: Seq<char>|
            other != conversation ==> #[trigger] after.output_level(other) == before.output_level(
                other,
            ),
        outcome.effect is Nothing ==> after == before,
        after.core.conversations == before.core.conversations,
        after.textarea == before.textarea,
{
    if (outcome.effect is Speak || outcome.effect is ShowDisabled) && before.open_id() == Some(
        conversation,
    ) {
        let b = before.core.current->0;
        assert(after.core.current is Some);
        let a = after.core.current->0;
        assert(a.messages@.drop_last() =~= a.messages@.take(b.messages@.len() as int));
    }
}

/// A key that stands for nothing is typed where the focus is: into the composer, or into
/// the rename input; with neither, and behind an open pane, it does nothing. Letting a
/// key go does nothing, and any key closes the help and does no more than that.
pub proof fn law_keys_go_where_the_focus_is(before: App, after: App, key: KeyEvent, step: KeyStep)
    requires
        key_taken(before, after, key, step),
    ensures
        key.kind == KeyEventKind::Release ==> after == before && step is Done,
        key.kind != KeyEventKind::Release && before.show_help ==> !after.show_help && after == (App {
            show_help: false,
            ..before
        }) && step is Done,
        after.core == before.core,
        after.mode == before.mode,
        after.textarea != before.textarea ==> before.mode is Editing && pressed(
            before.textarea,
            key,
            after.textarea,
        ) && step is Done && !before.tasks.visible && !before.show_help,
        after.rename_textarea != before.rename_textarea ==> before.mode is Renaming && pressed(
            before.rename_textarea,
            key,
            after.rename_textarea,
        ) && step is Done,
        key.kind != KeyEventKind::Release && !before.show_help
            && before.pending_delete_conversation is None && !before.tasks.visible
            && before.mode is Editing && !steps_queue(before, key) && binding(
            key,
            before.mode,
            before.tasks.visible,
        ) is None ==> pressed(before.textarea, key, after.textarea),
        key.kind != KeyEventKind::Release && !before.show_help
            && before.pending_delete_conversation is None && !before.tasks.visible
            && before.mode is Renaming && binding(key, before.mode, before.tasks.visible) is None
            ==> pressed(before.rename_textarea, key, after.rename_textarea),
{
}

/// A key that stands for an action leads to that action, and changes nothing by itself;
/// to dictate is the one that the session takes.
pub proof fn law_bound_keys_lead_to_their_action(
    before: App,
    after: App,
    key: KeyEvent,
    step: KeyStep,
    action: Action,
)
    requires
        key_taken(before, after, key, step),
        key.kind != KeyEventKind::Release,
        !before.show_help,
        before.pending_delete_conversation is None,
        binding(key, before.mode, before.tasks.visible) == Some(action),
    ensures
        after == before,
        action == Action::Dictate <==> step is Dictate,
        action != Action::Dictate ==> step == KeyStep::Act(action),
{
}

/// The question before a deletion is answered by Y, N, Enter and Escape, and stays until
/// it is.
pub proof fn law_deletion_is_answered(before: App, after: App, key: KeyEvent, step: KeyStep)
    requires
        key_taken(before, after, key, step),
        key.kind != KeyEventKind::Release,
        !before.show_help,
        before.pending_delete_conversation is Some,
    ensures
        key.code == KeyCode::Enter || key.code == KeyCode::Char('y') || key.code == KeyCode::Char(
            'Y',
        ) ==> step == KeyStep::Act(Action::DeleteConversation)
            && after.pending_delete_conversation is None,
        key.code == KeyCode::Esc || key.code == KeyCode::Char('n') || key.code == KeyCode::Char('N')
            ==> step is Done && after.pending_delete_conversation is None,
        step is Done || step == KeyStep::Act(Action::DeleteConversation),
        after.pending_delete_conversation is None ==> key.code == KeyCode::Enter || key.code
            == KeyCode::Esc || key.code == KeyCode::Char('y') || key.code == KeyCode::Char('Y')
            || key.code == KeyCode::Char('n') || key.code == KeyCode::Char('N'),
        after == (App { pending_delete_conversation: after.pending_delete_conversation, ..before }),
{
}

/// A finished task is no longer waited for, and leaves the pane; the cancellation of
/// another task is still waited for.
pub proof fn law_finished_task_is_no_longer_waited_for(
    before: App,
    after: App,
    id: String,
    action: SignalAction,
)
    requires
        signalled(before, after, SignalEvent::TaskCompleted { id }, action),
    ensures
        opt_text(after.pending_task_cancel) != Some(id@),
        opt_text(before.pending_task_cancel) != Some(id@) ==> after.pending_task_cancel
            == before.pending_task_cancel,
        !has_task(after.tasks.rows@, id@),
        after == (App {
            pending_task_cancel: after.pending_task_cancel,
            tasks: TaskPane { rows: after.tasks.rows, ..before.tasks },
            ..before
        }),
{
    law_other_tasks_stay(before.tasks.rows@, id@);
    law_tasks_are_found(after.tasks.rows@, id@);
    let key = id@;
    let kept = |t: TaskView| t.id@ != key;
    assert(after.tasks.rows@ == before.tasks.rows@.filter(kept));
    assert forall|i: int| 0 <= i < after.tasks.rows@.len() implies (
    #[trigger] after.tasks.rows@[i]).id@ != id@ by {
        before.tasks.rows@.lemma_filter_pred(kept, i);
    }
}

} // verus!
