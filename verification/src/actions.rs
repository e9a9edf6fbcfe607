//! What the user's keys do in the chat.

use vstd::prelude::*;
use crate::app::{App, InputMode, ScreenRequest, UiMessage};
#[allow(unused_imports)]
use crate::app::{
    effect_shown, effects_shown, empty_area, forgotten, holds, law_conversations_are_found, replied, told, Core, CoreReply, Effect,
};
use crate::area::{content, insert_line_break};
#[allow(unused_imports)]
use crate::area::{
    area_cursor, area_lines, area_mask, area_ready, area_text, inserted_lines, kept_cursor,
    kept_lines, spliced,
};
use crate::keys::Action;
use crate::rpc::Rpc;
#[allow(unused_imports)]
use crate::tasks::TaskPane;
use crate::text::cat2;
#[allow(unused_imports)]
use crate::text::{holds_text, joined, law_text_is_held, opt_text, stands_at, trimmed};
use crate::voice::AdeleOutput;

verus! {

/// What is left to do after an action.
pub enum Request {
    Nothing,
    /// A request of the daemon.
    Call(Rpc),
    /// The shared reducer is to be told this.
    Reduce(UiMessage),
    /// The settings are to be saved; `changed` is the one that was changed.
    SaveSettings { show_debug: bool, share_client_context: bool, changed: Setting },
}

/// A setting of the client.
#[derive(Debug, Clone, Copy, PartialEq, Eq, Structural)]
pub enum Setting {
    Debug,
    ShareContext,
}

/// A screen is asked for where the daemon can be reached; else the status line
/// says that it is unavailable.
pub open spec fn asks_for(
    before: App,
    after: App,
    connected: bool,
    screen: ScreenRequest,
    unavailable: Seq<char>,
) -> bool {
    if connected {
        after == (App { pending_screen: Some(screen), ..before })
    } else {
        told(before, after, unavailable)
    }
}

pub open spec fn output_text(level: AdeleOutput) -> Seq<char> {
    match level {
        AdeleOutput::Disabled =>
            "Adele: Disabled for this conversation (never speaks) — Ctrl+S to cycle"@,
        AdeleOutput::OnDemand =>
            "Adele: On Demand for this conversation (speaks replies when You is Enabled; always speaks asides) — Ctrl+S to cycle"@,
        AdeleOutput::Always =>
            "Adele: Always for this conversation (reads every reply aloud) — Ctrl+S to cycle"@,
    }
}

/// How much Adele speaks in the open conversation was changed.
pub open spec fn output_cycled(before: App, after: App) -> bool {
    match before.core.current {
        Some(c) => {
            let level = before.output_level(c.id@).successor();
            &&& after.core.adele_output@ == before.core.adele_output@.insert(c.id@, level)
            &&& after.status_message@ == output_text(level)
            &&& after == (App {
                status_message: after.status_message,
                core: Core { adele_output: after.core.adele_output, ..before.core },
                ..before
            })
        },
        None => told(
            before,
            after,
            "Open a conversation first — Adele output is per-conversation"@,
        ),
    }
}

/// Speech input was turned on or off in the open conversation.
pub open spec fn hearing_toggled(before: App, after: App) -> bool {
    match before.core.current {
        Some(c) => {
            let on = !before.hears(c.id@);
            &&& after.core.voice_in@ == before.core.voice_in@.insert(c.id@, on)
            &&& after.status_message@ == (if on {
                "You: Enabled for this conversation (push-to-talk with Ctrl+G; narrates replies when Adele is On Demand) — Ctrl+V to disable"@
            } else {
                "You: Disabled for this conversation (type only)"@
            })
            &&& after == (App {
                status_message: after.status_message,
                core: Core { voice_in: after.core.voice_in, ..before.core },
                ..before
            })
        },
        None => told(
            before,
            after,
            "Open a conversation first — the You control is per-conversation"@,
        ),
    }
}

/// The line of the composer was broken at the cursor, in place of the selected text.
pub open spec fn line_broken(before: App, after: App) -> bool {
    &&& area_lines(after.textarea) == spliced(
        kept_lines(before.textarea),
        kept_cursor(before.textarea),
        seq![Seq::<char>::empty(), Seq::<char>::empty()],
    )
    &&& area_cursor(after.textarea) == ((kept_cursor(before.textarea).0 + 1) as nat, 0nat)
    &&& area_mask(after.textarea) == area_mask(before.textarea)
    &&& area_ready(after.textarea)
    &&& after == (App { textarea: after.textarea, ..before })
}

/// The selected conversation is deleted where the daemon can be reached.
pub open spec fn deletes(before: App, after: App, connected: bool, request: Request) -> bool {
    if !connected {
        told(before, after, "Not connected — conversation not deleted"@) && request is Nothing
    } else if !before.on_conversation() {
        after == before && request is Nothing
    } else {
        &&& forgotten(before, after, before.conversation().id@)
        &&& request matches Request::Call(Rpc::Delete { id, show_archived }) && id@
            == before.conversation().id@ && show_archived == before.show_archived
    }
}

/// Archived conversations are shown, or no longer.
pub open spec fn archived_toggled(before: App, after: App, connected: bool, request: Request) -> bool {
    let shown = App { show_archived: !before.show_archived, ..before };
    let text = if shown.show_archived {
        "Showing all conversations (including archived)"@
    } else {
        "Showing active conversations only"@
    };
    if connected {
        &&& after == shown
        &&& request matches Request::Call(Rpc::Refresh { show_archived, on_success })
            && show_archived == shown.show_archived && opt_text(on_success) == Some(text)
    } else {
        told(shown, after, text) && request is Nothing
    }
}

/// Renaming ended; a new title is sent to the daemon.
pub open spec fn rename_submitted(before: App, after: App, connected: bool, request: Request) -> bool {
    &&& empty_area(after.rename_textarea)
    &&& after == (App {
        rename_textarea: after.rename_textarea,
        renaming_id: None,
        mode: InputMode::Normal,
        ..before
    })
    &&& if before.renames() && connected {
        request matches Request::Call(Rpc::Rename { id, title }) && id == before.renaming_id->0
            && title@ == before.typed_title()
    } else {
        request is Nothing
    }
}

/// The highlighted task is to be cancelled.
pub open spec fn cancel_asked(before: App, after: App, commands: bool, request: Request) -> bool {
    if before.tasks.on_task() {
        let task = before.tasks.task().id;
        &&& after.status_message@ == "Cancelling "@ + task@ + "..."@
        &&& after == (App {
            pending_task_cancel: Some(task),
            status_message: after.status_message,
            ..before
        })
        &&& if commands {
            request == Request::Call(Rpc::CancelTask { id: task })
        } else {
            request is Nothing
        }
    } else {
        after == before && request is Nothing
    }
}

/// The conversation of the highlighted task is opened.
pub open spec fn task_opened(before: App, after: App, connected: bool, request: Request) -> bool {
    if before.task_linked() {
        let conv = before.tasks.task().conversation_id->0@;
        &&& after == (App {
            selected_conversation: if crate::app::listed(before.core.conversations@, conv) {
                Some(
                    crate::app::conversation_place(before.core.conversations@, conv) as usize,
                )
            } else {
                before.selected_conversation
            },
            tasks: TaskPane { visible: false, ..before.tasks },
            ..before
        })
        &&& if connected {
            request matches Request::Call(Rpc::Open { id, enter_editing }) && id@ == conv
                && !enter_editing
        } else {
            request is Nothing
        }
    } else {
        after == before && request is Nothing
    }
}

/// The selected conversation is opened.
pub open spec fn open_asked(before: App, connected: bool, request: Request) -> bool {
    if connected && before.on_conversation() {
        request matches Request::Call(Rpc::Open { id, enter_editing }) && id@
            == before.conversation().id@ && enter_editing
    } else {
        request is Nothing
    }
}

/// The selected conversation is archived, or brought back.
pub open spec fn archive_asked(before: App, connected: bool, request: Request) -> bool {
    if connected && before.on_conversation() {
        request matches Request::Call(Rpc::Archive { id, archived, show_archived }) && id@
            == before.conversation().id@ && archived == before.conversation().archived
            && show_archived == before.show_archived
    } else {
        request is Nothing
    }
}

/// The prompt is handed in where the daemon can be reached.
pub open spec fn submitted(before: App, after: App, connected: bool, request: Request) -> bool {
    if connected {
        &&& after == before
        &&& request matches Request::Reduce(UiMessage::SubmitPrompt { prompt }) && prompt@
            == area_text(before.textarea)
    } else {
        &&& told(
            before,
            after,
            "Not connected — message not sent (your text is preserved)"@,
        )
        &&& request is Nothing
    }
}

/// What an action does. `connected` says whether the daemon can be reached,
/// `commands` whether it also takes commands.
pub open spec fn acted(
    before: App,
    after: App,
    connected: bool,
    commands: bool,
    action: Action,
    request: Request,
) -> bool {
    match action {
        Action::Quit => after == (App { should_quit: true, ..before }) && request is Nothing,
        Action::NextConversation => after == before.stepped(true) && request is Nothing,
        Action::PreviousConversation => after == before.stepped(false) && request is Nothing,
        Action::OpenConversation => after == before && open_asked(before, connected, request),
        Action::BeginDeleteConversation => request is Nothing && after == (App {
            pending_delete_conversation: if before.on_conversation() {
                Some(before.conversation().title)
            } else {
                before.pending_delete_conversation
            },
            ..before
        }),
        Action::DeleteConversation => deletes(before, after, connected, request),
        Action::NewConversation => after == before && if connected {
            request == Request::Call(Rpc::Create { show_archived: before.show_archived })
        } else {
            request is Nothing
        },
        Action::EnterEditMode => request is Nothing && if before.core.current is Some {
            after == (App { mode: InputMode::Editing, ..before })
        } else {
            told(before, after, "Open a conversation first (Enter) or create one (n)"@)
        },
        Action::ExitEditMode => after == (App { mode: InputMode::Normal, ..before }) && request
            == (if before.core.editing_queued is Some {
            Request::Reduce(UiMessage::CancelQueuedEdit)
        } else {
            Request::Nothing
        }),
        Action::SubmitPrompt => submitted(before, after, connected, request),
        Action::CycleAdeleOutput => output_cycled(before, after) && request is Nothing,
        Action::ToggleVoiceIn => hearing_toggled(before, after) && request is Nothing,
        Action::InsertNewline => line_broken(before, after) && request is Nothing,
        Action::ToggleShowArchived => archived_toggled(before, after, connected, request),
        Action::ArchiveConversation => after == before && archive_asked(
            before,
            connected,
            request,
        ),
        Action::ScrollUp => request is Nothing && after == (App {
            scroll_offset: if before.scroll_offset + 5 > u16::MAX {
                u16::MAX
            } else {
                (before.scroll_offset + 5) as u16
            },
            ..before
        }),
        Action::ScrollDown => request is Nothing && after == (App {
            scroll_offset: if before.scroll_offset < 5 {
                0
            } else {
                (before.scroll_offset - 5) as u16
            },
            ..before
        }),
        Action::ScrollToBottom => after == (App { scroll_offset: 0, ..before })
            && request is Nothing,
        Action::BeginRename => request is Nothing && if before.on_conversation() {
            &&& holds(after.rename_textarea, before.conversation().title@)
            &&& after == (App {
                rename_textarea: after.rename_textarea,
                renaming_id: Some(before.conversation().id),
                mode: InputMode::Renaming,
                ..before
            })
        } else {
            told(before, after, "Select a conversation to rename"@)
        },
        Action::SubmitRename => rename_submitted(before, after, connected, request),
        Action::CancelRename => {
            &&& request is Nothing
            &&& empty_area(after.rename_textarea)
            &&& after == (App {
                rename_textarea: after.rename_textarea,
                renaming_id: None,
                mode: InputMode::Normal,
                ..before
            })
        },
        Action::ToggleDebug => {
            &&& after == (App { show_debug: !before.show_debug, ..before })
            &&& request == (Request::SaveSettings {
                show_debug: !before.show_debug,
                share_client_context: before.share_client_context,
                changed: Setting::Debug,
            })
        },
        Action::ToggleShareContext => {
            &&& after == (App { share_client_context: !before.share_client_context, ..before })
            &&& request == (Request::SaveSettings {
                show_debug: before.show_debug,
                share_client_context: !before.share_client_context,
                changed: Setting::ShareContext,
            })
        },
        Action::ToggleSidebar => request is Nothing && told(
            App { show_sidebar: !before.show_sidebar, ..before },
            after,
            if before.show_sidebar {
                "Conversation list hidden (Ctrl+B to show)"@
            } else {
                "Conversation list shown"@
            },
        ),
        Action::ToggleHelp => after == (App { show_help: !before.show_help, ..before })
            && request is Nothing,
        Action::SwitchConnection => request is Nothing && told(
            App { switch_requested: true, ..before },
            after,
            "Switching connection..."@,
        ),
        Action::OpenKnowledgeBase => request is Nothing && asks_for(
            before,
            after,
            connected,
            ScreenRequest::KnowledgeBase,
            "Not connected — knowledge base unavailable"@,
        ),
        Action::OpenConnections => request is Nothing && asks_for(
            before,
            after,
            connected,
            ScreenRequest::Connections,
            "Not connected — connections manager unavailable"@,
        ),
        Action::OpenPurposes => request is Nothing && asks_for(
            before,
            after,
            connected,
            ScreenRequest::Purposes,
            "Not connected — purposes manager unavailable"@,
        ),
        Action::OpenMcpServers => request is Nothing && asks_for(
            before,
            after,
            connected,
            ScreenRequest::McpServers,
            "Not connected — MCP servers manager unavailable"@,
        ),
        Action::OpenModelPicker => request is Nothing && asks_for(
            before,
            after,
            connected,
            ScreenRequest::ModelPicker,
            "Not connected — model picker unavailable"@,
        ),
        Action::OpenPersonalityPicker => request is Nothing && if connected
            && before.core.current is None {
            told(
                before,
                after,
                "Open a conversation first (Enter) — personality is per-conversation"@,
            )
        } else {
            asks_for(
                before,
                after,
                connected,
                ScreenRequest::PersonalityPicker,
                "Not connected — personality picker unavailable"@,
            )
        },
        Action::ToggleTasksPane => request is Nothing && told(
            App {
                tasks: TaskPane { visible: !before.tasks.visible, ..before.tasks },
                ..before
            },
            after,
            if before.tasks.visible {
                "Tasks pane closed"@
            } else {
                "Tasks pane open (j/k navigate · c cancel · Enter open conv · Ctrl+P close)"@
            },
        ),
        Action::NextTask => after == before.task_stepped(true) && request is Nothing,
        Action::PreviousTask => after == before.task_stepped(false) && request is Nothing,
        Action::CancelSelectedTask => cancel_asked(
            before,
            after,
            connected && commands,
            request,
        ),
        Action::OpenSelectedTaskConversation => task_opened(before, after, connected, request),
        Action::Dictate => false,
    }
}

impl App {
    /// The selection moved one conversation on or back, in a circle.
    pub open spec fn stepped(self, down: bool) -> App {
        let n = self.core.conversations@.len();
        App {
            selected_conversation: if n == 0 {
                self.selected_conversation
            } else {
                Some(
                    match self.selected_conversation {
                        Some(i) => if down {
                            if i >= n - 1 {
                                0usize
                            } else {
                                (i + 1) as usize
                            }
                        } else if i == 0 {
                            (n - 1) as usize
                        } else {
                            (i - 1) as usize
                        },
                        None => if down {
                            0usize
                        } else {
                            (n - 1) as usize
                        },
                    },
                )
            },
            ..self
        }
    }

    /// The highlight of the tasks pane moved one task on or back.
    pub open spec fn task_stepped(self, down: bool) -> App {
        App {
            tasks: TaskPane {
                selected: if self.tasks.rows@.len() == 0 {
                    self.tasks.selected
                } else {
                    Some(self.tasks.rows@[self.tasks.stepped_to(down)].id)
                },
                ..self.tasks
            },
            ..self
        }
    }
}

fn ask_for(app: &mut App, connected: bool, screen: ScreenRequest, unavailable: &str)
    ensures
        asks_for(*old(app), *final(app), connected, screen, unavailable@),
{
    if connected {
        app.request_screen(screen);
    } else {
        app.status_message = unavailable.to_owned();
    }
}

fn open_selected(app: &App, connected: bool) -> (request: Request)
    ensures
        open_asked(*app, connected, request),
{
    if !connected {
        return Request::Nothing;
    }
    match app.selected_conversation_id() {
        Some(id) => Request::Call(Rpc::Open { id: id.to_owned(), enter_editing: true }),
        None => Request::Nothing,
    }
}

fn delete_selected(app: &mut App, connected: bool) -> (request: Request)
    ensures
        deletes(*old(app), *final(app), connected, request),
{
    if !connected {
        app.status_message = "Not connected — conversation not deleted".to_owned();
        return Request::Nothing;
    }
    let show_archived: bool = app.show_archived;
    match app.delete_selected_conversation() {
        Some(id) => Request::Call(Rpc::Delete { id, show_archived }),
        None => Request::Nothing,
    }
}

fn archive_selected(app: &App, connected: bool) -> (request: Request)
    ensures
        archive_asked(*app, connected, request),
{
    if !connected {
        return Request::Nothing;
    }
    match app.selected_conversation {
        Some(i) => if i < app.core.conversations.len() {
            Request::Call(
                Rpc::Archive {
                    id: app.core.conversations[i].id.clone(),
                    archived: app.core.conversations[i].archived,
                    show_archived: app.show_archived,
                },
            )
        } else {
            Request::Nothing
        },
        None => Request::Nothing,
    }
}

fn cycle_output(app: &mut App)
    ensures
        output_cycled(*old(app), *final(app)),
{
    let text = match app.cycle_current_adele_output() {
        Some(AdeleOutput::Disabled) =>
            "Adele: Disabled for this conversation (never speaks) — Ctrl+S to cycle",
        Some(AdeleOutput::OnDemand) =>
            "Adele: On Demand for this conversation (speaks replies when You is Enabled; always speaks asides) — Ctrl+S to cycle",
        Some(AdeleOutput::Always) =>
            "Adele: Always for this conversation (reads every reply aloud) — Ctrl+S to cycle",
        None => "Open a conversation first — Adele output is per-conversation",
    };
    app.status_message = text.to_owned();
}

fn toggle_hearing(app: &mut App)
    ensures
        hearing_toggled(*old(app), *final(app)),
{
    let text = match app.toggle_current_voice_in() {
        Some(on) => if on {
            "You: Enabled for this conversation (push-to-talk with Ctrl+G; narrates replies when Adele is On Demand) — Ctrl+V to disable"
        } else {
            "You: Disabled for this conversation (type only)"
        },
        None => "Open a conversation first — the You control is per-conversation",
    };
    app.status_message = text.to_owned();
}

fn toggle_archived(app: &mut App, connected: bool) -> (request: Request)
    ensures
        archived_toggled(*old(app), *final(app), connected, request),
{
    app.show_archived = !app.show_archived;
    let text = if app.show_archived {
        "Showing all conversations (including archived)".to_owned()
    } else {
        "Showing active conversations only".to_owned()
    };
    if connected {
        Request::Call(Rpc::Refresh { show_archived: app.show_archived, on_success: Some(text) })
    } else {
        app.status_message = text;
        Request::Nothing
    }
}

fn finish_rename(app: &mut App, connected: bool) -> (request: Request)
    ensures
        rename_submitted(*old(app), *final(app), connected, request),
{
    match app.submit_rename() {
        Some(p) => if connected {
            Request::Call(Rpc::Rename { id: p.0, title: p.1 })
        } else {
            Request::Nothing
        },
        None => Request::Nothing,
    }
}

fn cancel_task(app: &mut App, commands: bool) -> (request: Request)
    ensures
        cancel_asked(*old(app), *final(app), commands, request),
{
    match app.request_cancel_selected_task() {
        Some(id) => if commands {
            Request::Call(Rpc::CancelTask { id })
        } else {
            Request::Nothing
        },
        None => Request::Nothing,
    }
}

fn open_task(app: &mut App, connected: bool) -> (request: Request)
    ensures
        task_opened(*old(app), *final(app), connected, request),
{
    match app.jump_to_selected_task_conversation() {
        Some(id) => if connected {
            Request::Call(Rpc::Open { id, enter_editing: false })
        } else {
            Request::Nothing
        },
        None => Request::Nothing,
    }
}

/// Hands the composer's text in as a prompt.
pub fn submit_prompt(app: &mut App, connected: bool) -> (request: Request)
    ensures
        submitted(*old(app), *final(app), connected, request),
{
    if connected {
        Request::Reduce(UiMessage::SubmitPrompt { prompt: content(&app.textarea) })
    } else {
        app.status_message = "Not connected — message not sent (your text is preserved)".to_owned();
        Request::Nothing
    }
}

/// Performs an action. Dictation is not among them: it needs the microphone.
#[verifier::rlimit(40)]
pub fn handle_action(app: &mut App, connected: bool, commands: bool, action: Action) -> (request:
    Request)
    requires
        action != Action::Dictate,
    ensures
        acted(*old(app), *final(app), connected, commands, action, request),
{
    match action {
        Action::OpenConversation => {
            return open_selected(app, connected);
        },
        Action::DeleteConversation => {
            return delete_selected(app, connected);
        },
        Action::NewConversation => {
            return if connected {
                Request::Call(Rpc::Create { show_archived: app.show_archived })
            } else {
                Request::Nothing
            };
        },
        Action::ExitEditMode => {
            app.enter_normal_mode();
            return match app.cancel_queued_edit_if_active() {
                Some(message) => Request::Reduce(message),
                None => Request::Nothing,
            };
        },
        Action::SubmitPrompt => {
            return submit_prompt(app, connected);
        },
        Action::ToggleShowArchived => {
            return toggle_archived(app, connected);
        },
        Action::ArchiveConversation => {
            return archive_selected(app, connected);
        },
        Action::SubmitRename => {
            return finish_rename(app, connected);
        },
        Action::ToggleDebug => {
            app.show_debug = !app.show_debug;
            return Request::SaveSettings {
                show_debug: app.show_debug,
                share_client_context: app.share_client_context,
                changed: Setting::Debug,
            };
        },
        Action::ToggleShareContext => {
            app.share_client_context = !app.share_client_context;
            return Request::SaveSettings {
                show_debug: app.show_debug,
                share_client_context: app.share_client_context,
                changed: Setting::ShareContext,
            };
        },
        Action::CancelSelectedTask => {
            return cancel_task(app, connected && commands);
        },
        Action::OpenSelectedTaskConversation => {
            return open_task(app, connected);
        },
        _ => {
            change_view(app, connected, commands, action);
        },
    }
    Request::Nothing
}

/// An action that needs nothing but the window.
pub open spec fn changes_view_only(action: Action) -> bool {
    match action {
        Action::OpenConversation
        | Action::DeleteConversation
        | Action::NewConversation
        | Action::ExitEditMode
        | Action::SubmitPrompt
        | Action::ToggleShowArchived
        | Action::ArchiveConversation
        | Action::SubmitRename
        | Action::ToggleDebug
        | Action::ToggleShareContext
        | Action::CancelSelectedTask
        | Action::OpenSelectedTaskConversation
        | Action::Dictate => false,
        _ => true,
    }
}

#[verifier::rlimit(40)]
fn change_view(app: &mut App, connected: bool, commands: bool, action: Action)
    requires
        changes_view_only(action),
    ensures
        acted(*old(app), *final(app), connected, commands, action, Request::Nothing),
{
    match action {
        Action::Quit => app.quit(),
        Action::NextConversation => app.next_conversation(),
        Action::PreviousConversation => app.previous_conversation(),
        Action::BeginDeleteConversation => app.begin_delete_confirm(),
        Action::EnterEditMode => {
            if app.core.current.is_some() {
                app.enter_editing_mode();
            } else {
                app.status_message = "Open a conversation first (Enter) or create one (n)".to_owned();
            }
        },
        Action::CycleAdeleOutput => cycle_output(app),
        Action::ToggleVoiceIn => toggle_hearing(app),
        Action::InsertNewline => insert_line_break(&mut app.textarea),
        Action::ScrollUp => app.scroll_up(5),
        Action::ScrollDown => app.scroll_down(5),
        Action::ScrollToBottom => app.scroll_to_bottom(),
        Action::BeginRename => {
            if app.selected_conversation_id().is_some() {
                app.begin_rename();
            } else {
                app.status_message = "Select a conversation to rename".to_owned();
            }
        },
        Action::CancelRename => app.cancel_rename(),
        Action::ToggleSidebar => {
            app.show_sidebar = !app.show_sidebar;
            app.status_message = if app.show_sidebar {
                "Conversation list shown".to_owned()
            } else {
                "Conversation list hidden (Ctrl+B to show)".to_owned()
            };
        },
        Action::ToggleHelp => app.toggle_help(),
        Action::SwitchConnection => {
            app.switch_requested = true;
            app.status_message = "Switching connection...".to_owned();
        },
        Action::ToggleTasksPane => {
            app.toggle_tasks_pane();
            app.status_message = if app.tasks.visible {
                "Tasks pane open (j/k navigate · c cancel · Enter open conv · Ctrl+P close)".to_owned()
            } else {
                "Tasks pane closed".to_owned()
            };
        },
        Action::NextTask => app.tasks.move_selection(true),
        Action::PreviousTask => app.tasks.move_selection(false),
        _ => open_screen(app, connected, commands, action),
    }
}

fn open_screen(app: &mut App, connected: bool, commands: bool, action: Action)
    requires
        action == Action::OpenKnowledgeBase || action == Action::OpenConnections || action
            == Action::OpenPurposes || action == Action::OpenMcpServers || action
            == Action::OpenModelPicker || action == Action::OpenPersonalityPicker,
    ensures
        acted(*old(app), *final(app), connected, commands, action, Request::Nothing),
{
    match action {
        Action::OpenKnowledgeBase => ask_for(
            app,
            connected,
            ScreenRequest::KnowledgeBase,
            "Not connected — knowledge base unavailable",
        ),
        Action::OpenConnections => ask_for(
            app,
            connected,
            ScreenRequest::Connections,
            "Not connected — connections manager unavailable",
        ),
        Action::OpenPurposes => ask_for(
            app,
            connected,
            ScreenRequest::Purposes,
            "Not connected — purposes manager unavailable",
        ),
        Action::OpenMcpServers => ask_for(
            app,
            connected,
            ScreenRequest::McpServers,
            "Not connected — MCP servers manager unavailable",
        ),
        Action::OpenModelPicker => ask_for(
            app,
            connected,
            ScreenRequest::ModelPicker,
            "Not connected — model picker unavailable",
        ),
        _ => {
            if connected && app.core.current.is_none() {
                app.status_message = "Open a conversation first (Enter) — personality is per-conversation".to_owned();
            } else {
                ask_for(
                    app,
                    connected,
                    ScreenRequest::PersonalityPicker,
                    "Not connected — personality picker unavailable",
                );
            }
        },
    }
}

/// The settings were saved, or could not be.
pub fn settings_saved(app: &mut App, changed: Setting, result: Result<(), String>)
    ensures
        told(
            *old(app),
            *final(app),
            match result {
                Err(e) => "Settings save failed: "@ + e@,
                Ok(_) => match changed {
                    Setting::Debug => if old(app).show_debug {
                        "Debug view ON (showing tool/system messages)"@
                    } else {
                        "Debug view OFF"@
                    },
                    Setting::ShareContext => if old(app).share_client_context {
                        "Share device info ON (applies on the next connect)"@
                    } else {
                        "Share device info OFF (applies on the next connect)"@
                    },
                },
            },
        ),
{
    app.status_message = match result {
        Err(e) => cat2("Settings save failed: ", e.as_str()),
        Ok(_) => match changed {
            Setting::Debug => if app.show_debug {
                "Debug view ON (showing tool/system messages)".to_owned()
            } else {
                "Debug view OFF".to_owned()
            },
            Setting::ShareContext => if app.share_client_context {
                "Share device info ON (applies on the next connect)".to_owned()
            } else {
                "Share device info OFF (applies on the next connect)".to_owned()
            },
        },
    };
}

/// While the daemon cannot be reached no action asks it for anything, nor hands a
/// prompt in, and a prompt that was to be sent stays in the composer.
pub proof fn law_offline_sends_nothing(
    before: App,
    after: App,
    commands: bool,
    action: Action,
    request: Request,
)
    requires
        acted(before, after, false, commands, action, request),
    ensures
        !(request is Call),
        request matches Request::Reduce(message) ==> !(message is SubmitPrompt),
        action == Action::SubmitPrompt ==> after.textarea == before.textarea,
        action == Action::DeleteConversation ==> after.core == before.core,
{
}

/// No effect but one on the composer changes what is typed, and none the mode or
/// the waiting messages.
proof fn lemma_effects_keep(states: Seq<App>, effects: Seq<Effect>, at: int, k: int)
    requires
        effects_shown(states, effects),
        0 <= at <= k <= effects.len(),
        forall|i: int| at <= i < k ==> !(#[trigger] effects[i] is SetComposerText),
    ensures
        states[k].textarea == states[at].textarea,
    decreases k - at,
{
    if at < k {
        lemma_effects_keep(states, effects, at, k - 1);
        assert(effect_shown(states[k - 1], states[k - 1 + 1], effects[k - 1]));
    }
}

proof fn lemma_effects_keep_queue(states: Seq<App>, effects: Seq<Effect>, k: int)
    requires
        effects_shown(states, effects),
        0 <= k <= effects.len(),
    ensures
        states[k].mode == states[0].mode,
        states[k].core.queued == states[0].core.queued,
        states[k].core.editing_queued == states[0].core.editing_queued,
    decreases k,
{
    if k > 0 {
        lemma_effects_keep_queue(states, effects, k - 1);
        assert(effect_shown(states[k - 1], states[k - 1 + 1], effects[k - 1]));
    }
}

/// Leaving edit mode with a waiting message in hand tells the reducer to put it
/// back. Where its reply then has none in hand and empties the composer, no text
/// is left there and the queue is the reducer's.
pub proof fn law_leaving_gives_the_message_back(
    before: App,
    mid: App,
    after: App,
    connected: bool,
    commands: bool,
    request: Request,
    reply: CoreReply,
    at: int,
)
    requires
        before.core.editing_queued is Some,
        acted(before, mid, connected, commands, Action::ExitEditMode, request),
        replied(mid, after, reply),
        reply.editing_queued is None,
        0 <= at < reply.effects@.len(),
        reply.effects@[at] matches Effect::SetComposerText(text) && text@.len() == 0,
        forall|i: int|
            at < i < reply.effects@.len() ==> !(#[trigger] reply.effects@[i] is SetComposerText),
    ensures
        request == Request::Reduce(UiMessage::CancelQueuedEdit),
        after.mode == InputMode::Normal,
        after.core.editing_queued is None,
        after.core.queued == reply.queued,
        empty_area(after.textarea),
{
    let effects = reply.effects@;
    let states = choose|states: Seq<App>| #[trigger]
        effects_shown(states, effects) && states[0] == mid.with_chat(reply) && states[states.len()
            - 1] == after;
    let n = effects.len() as int;
    assert(effect_shown(states[at], states[at + 1], effects[at]));
    lemma_effects_keep(states, effects, at + 1, n);
    lemma_effects_keep_queue(states, effects, n);
}

/// Only the confirmed deletion takes a conversation out of the list.
pub proof fn law_only_deletion_shortens_the_list(
    before: App,
    after: App,
    connected: bool,
    commands: bool,
    action: Action,
    request: Request,
)
    requires
        acted(before, after, connected, commands, action, request),
        action != Action::DeleteConversation,
    ensures
        after.core.conversations == before.core.conversations,
        after.core.current == before.core.current,
{
}

/// What the daemon is asked for is about the selected conversation, or the
/// highlighted task: opened, archived or brought back, deleted, renamed to the typed
/// title, cancelled. It is asked where it can be reached, and only then.
#[verifier::rlimit(40)]
pub proof fn law_requests_are_about_the_selected(
    before: App,
    after: App,
    connected: bool,
    commands: bool,
    action: Action,
    request: Request,
)
    requires
        acted(before, after, connected, commands, action, request),
    ensures
        action == Action::OpenConversation && connected && before.on_conversation() ==> (
        request matches Request::Call(Rpc::Open { id, enter_editing }) && id@
            == before.core.conversations@[before.selected_conversation->0 as int].id@
            && enter_editing),
        action == Action::DeleteConversation && connected && before.on_conversation() ==> (
        request matches Request::Call(Rpc::Delete { id, show_archived }) && id@
            == before.core.conversations@[before.selected_conversation->0 as int].id@
            && show_archived == before.show_archived),
        action == Action::ArchiveConversation && connected && before.on_conversation() ==> (
        request matches Request::Call(Rpc::Archive { id, archived, .. }) && id@
            == before.core.conversations@[before.selected_conversation->0 as int].id@ && archived
            == before.core.conversations@[before.selected_conversation->0 as int].archived),
        action == Action::NewConversation && connected ==> (request matches Request::Call(
            Rpc::Create { .. },
        )),
        action == Action::ToggleShowArchived && connected ==> (request matches Request::Call(
            Rpc::Refresh { show_archived, .. },
        ) && show_archived == after.show_archived),
        action == Action::SubmitRename ==> (request matches Request::Call(rpc) ==> (
        rpc matches Rpc::Rename { id, title } && before.renaming_id == Some(id) && title@
            == trimmed(joined(area_lines(before.rename_textarea), " "@)))),
        action == Action::CancelSelectedTask && before.tasks.on_task() && connected && commands ==> (
        request matches Request::Call(Rpc::CancelTask { id }) && id == before.tasks.task().id),
        action == Action::OpenSelectedTaskConversation && before.task_linked() && connected ==> (
        request matches Request::Call(Rpc::Open { id, enter_editing }) && id@
            == before.tasks.task().conversation_id->0@ && !enter_editing),
        request is Call ==> connected && (action == Action::OpenConversation || action
            == Action::DeleteConversation || action == Action::ArchiveConversation || action
            == Action::NewConversation || action == Action::ToggleShowArchived || action
            == Action::SubmitRename || action == Action::CancelSelectedTask || action
            == Action::OpenSelectedTaskConversation),
{
}

/// A new title that is not blank is sent; the old one, or nothing, is not.
pub proof fn law_new_titles_are_sent(
    before: App,
    after: App,
    commands: bool,
    request: Request,
    at: int,
)
    requires
        acted(before, after, true, commands, Action::SubmitRename, request),
        before.renaming_id is Some,
        0 <= at < before.core.conversations@.len(),
        before.core.conversations@[at].id@ == before.renaming_id->0@,
        forall|i: int|
            0 <= i < at ==> (#[trigger] before.core.conversations@[i]).id@
                != before.renaming_id->0@,
    ensures
        ({
            let title = trimmed(joined(area_lines(before.rename_textarea), " "@));
            request is Call <==> title.len() > 0 && before.core.conversations@[at].title@ != title
        }),
        after.mode == InputMode::Normal,
        after.renaming_id is None,
{
    law_conversations_are_found(before.core.conversations@, before.renaming_id->0@);
    let place = crate::app::conversation_place(
        before.core.conversations@,
        before.renaming_id->0@,
    );
    assert(place == at) by {
        if place < at {
            assert(before.core.conversations@[place].id@ == before.renaming_id->0@);
        }
    }
}

/// A prompt is handed in as it stands in the composer, which keeps it until the reducer
/// took it.
pub proof fn law_prompt_is_the_typed_text(
    before: App,
    after: App,
    commands: bool,
    request: Request,
)
    requires
        acted(before, after, true, commands, Action::SubmitPrompt, request),
    ensures
        request matches Request::Reduce(UiMessage::SubmitPrompt { prompt }) && prompt@ == joined(
            area_lines(before.textarea),
            seq!['\n'],
        ),
        after.textarea == before.textarea,
{
}

/// Each part of the window changes by the actions that are for it, and by no others.
#[verifier::rlimit(40)]
pub proof fn law_actions_change_their_own(
    before: App,
    after: App,
    connected: bool,
    commands: bool,
    action: Action,
    request: Request,
)
    requires
        acted(before, after, connected, commands, action, request),
    ensures
        after.should_quit != before.should_quit ==> action == Action::Quit,
        action == Action::Quit ==> after.should_quit,
        after.textarea != before.textarea ==> action == Action::InsertNewline,
        after.mode != before.mode ==> (match after.mode {
            InputMode::Editing => action == Action::EnterEditMode,
            InputMode::Renaming => action == Action::BeginRename,
            InputMode::Normal => action == Action::ExitEditMode || action == Action::SubmitRename
                || action == Action::CancelRename,
        }),
        action == Action::EnterEditMode && before.core.current is Some ==> after.mode
            == InputMode::Editing,
        action == Action::ExitEditMode ==> after.mode == InputMode::Normal,
        after.scroll_offset != before.scroll_offset ==> action == Action::ScrollUp || action
            == Action::ScrollDown || action == Action::ScrollToBottom,
        after.show_help != before.show_help ==> action == Action::ToggleHelp,
        after.show_sidebar != before.show_sidebar ==> action == Action::ToggleSidebar,
        after.show_debug != before.show_debug <==> action == Action::ToggleDebug,
        after.share_client_context != before.share_client_context <==> action
            == Action::ToggleShareContext,
        after.show_archived != before.show_archived <==> action == Action::ToggleShowArchived,
        after.tasks.visible != before.tasks.visible ==> action == Action::ToggleTasksPane || action
            == Action::OpenSelectedTaskConversation,
        action == Action::ToggleTasksPane ==> after.tasks.visible == !before.tasks.visible,
        action == Action::ToggleHelp ==> after.show_help == !before.show_help,
        action == Action::ToggleSidebar ==> after.show_sidebar == !before.show_sidebar,
        action == Action::ScrollToBottom ==> after.scroll_offset == 0,
        action == Action::SwitchConnection <==> after.switch_requested && (!before.switch_requested
            || action == Action::SwitchConnection),
        after.core.drafts == before.core.drafts,
        after.core.stream == before.core.stream,
        after.core.queued == before.core.queued,
        after.core.editing_queued == before.core.editing_queued,
        after.connected == before.connected,
        after.pending_model_override == before.pending_model_override,
        action != Action::CycleAdeleOutput && action != Action::DeleteConversation
            ==> after.core.adele_output == before.core.adele_output,
        action != Action::ToggleVoiceIn && action != Action::DeleteConversation
            ==> after.core.voice_in == before.core.voice_in,
        action != Action::NextConversation && action != Action::PreviousConversation && action
            != Action::DeleteConversation && action != Action::OpenSelectedTaskConversation
            ==> after.selected_conversation == before.selected_conversation,
{
}

/// The settings that are saved are those that the window then has.
pub proof fn law_shown_settings_are_saved(
    before: App,
    after: App,
    connected: bool,
    commands: bool,
    action: Action,
    request: Request,
)
    requires
        acted(before, after, connected, commands, action, request),
    ensures
        request is SaveSettings <==> action == Action::ToggleDebug || action
            == Action::ToggleShareContext,
        request matches Request::SaveSettings { show_debug, share_client_context, changed } ==> {
            &&& show_debug == after.show_debug
            &&& share_client_context == after.share_client_context
            &&& changed == Setting::Debug <==> after.show_debug != before.show_debug
            &&& changed == Setting::ShareContext <==> after.share_client_context
                != before.share_client_context
        },
{
}

/// A screen is asked for by its own key, where the daemon can be reached; where it
/// cannot, none is.
pub proof fn law_screens_are_asked_for(
    before: App,
    after: App,
    connected: bool,
    commands: bool,
    action: Action,
    request: Request,
)
    requires
        acted(before, after, connected, commands, action, request),
    ensures
        connected && action == Action::OpenKnowledgeBase ==> after.pending_screen == Some(
            ScreenRequest::KnowledgeBase,
        ),
        connected && action == Action::OpenConnections ==> after.pending_screen == Some(
            ScreenRequest::Connections,
        ),
        connected && action == Action::OpenPurposes ==> after.pending_screen == Some(
            ScreenRequest::Purposes,
        ),
        connected && action == Action::OpenMcpServers ==> after.pending_screen == Some(
            ScreenRequest::McpServers,
        ),
        connected && action == Action::OpenModelPicker ==> after.pending_screen == Some(
            ScreenRequest::ModelPicker,
        ),
        connected && action == Action::OpenPersonalityPicker && before.core.current is Some
            ==> after.pending_screen == Some(ScreenRequest::PersonalityPicker),
        after.pending_screen != before.pending_screen ==> connected && (action
            == Action::OpenKnowledgeBase || action == Action::OpenConnections || action
            == Action::OpenPurposes || action == Action::OpenMcpServers || action
            == Action::OpenModelPicker || action == Action::OpenPersonalityPicker),
{
}

/// Stepping down and up again, or up and down, comes back to the same conversation, and
/// a step goes to the neighbouring row.
pub proof fn law_conversation_steps_go_round(
    before: App,
    down: App,
    back: App,
    up: App,
    connected: bool,
    commands: bool,
    request: Request,
)
    requires
        acted(before, down, connected, commands, Action::NextConversation, request),
        acted(down, back, connected, commands, Action::PreviousConversation, request),
        acted(before, up, connected, commands, Action::PreviousConversation, request),
        before.on_conversation(),
    ensures
        back.selected_conversation == before.selected_conversation,
        ({
            let i = before.selected_conversation->0;
            let n = before.core.conversations@.len();
            &&& i + 1 < n ==> down.selected_conversation == Some((i + 1) as usize)
            &&& i + 1 == n ==> down.selected_conversation == Some(0usize)
            &&& i > 0 ==> up.selected_conversation == Some((i - 1) as usize)
            &&& i == 0 ==> (up.selected_conversation matches Some(k) && k == n - 1)
        }),
{
    assert(before.core.conversations.len() == before.core.conversations@.len());
}

/// Scrolling up shows five older lines, scrolling down five newer ones as far as there
/// are any, and one undoes the other while there is room.
pub proof fn law_scrolling_is_undone(
    before: App,
    up: App,
    back: App,
    down: App,
    connected: bool,
    commands: bool,
    request: Request,
)
    requires
        acted(before, up, connected, commands, Action::ScrollUp, request),
        acted(up, back, connected, commands, Action::ScrollDown, request),
        acted(before, down, connected, commands, Action::ScrollDown, request),
    ensures
        before.scroll_offset + 5 <= u16::MAX ==> up.scroll_offset == before.scroll_offset + 5
            && back.scroll_offset == before.scroll_offset,
        before.scroll_offset >= 5 ==> down.scroll_offset == before.scroll_offset - 5,
        before.scroll_offset < 5 ==> down.scroll_offset == 0,
        up.scroll_offset >= before.scroll_offset,
{
}

/// The voice controls are of the open conversation: they change nothing of another one.
/// Speech input turned over twice is as it was, and the level of speech comes round
/// after three steps.
pub proof fn law_voice_controls_are_of_the_open_conversation(
    before: App,
    after: App,
    connected: bool,
    commands: bool,
    action: Action,
    request: Request,
    other: Seq<char>,
)
    requires
        acted(before, after, connected, commands, action, request),
        action == Action::CycleAdeleOutput || action == Action::ToggleVoiceIn,
    ensures
        before.open_id() != Some(other) ==> after.hears(other) == before.hears(other)
            && after.output_level(other) == before.output_level(other),
        before.open_id() == Some(other) && action == Action::ToggleVoiceIn ==> after.hears(other)
            == !before.hears(other) && after.output_level(other) == before.output_level(other),
        before.open_id() == Some(other) && action == Action::CycleAdeleOutput ==> after.hears(other)
            == before.hears(other) && after.output_level(other) == (match before.output_level(
            other,
        ) {
            AdeleOutput::Disabled => AdeleOutput::OnDemand,
            AdeleOutput::OnDemand => AdeleOutput::Always,
            AdeleOutput::Always => AdeleOutput::Disabled,
        }),
        before.core.current is None ==> after.core == before.core,
{
}

/// Before a conversation is deleted the window asks, with its title; nothing is deleted
/// by asking.
pub proof fn law_deletion_is_asked_first(
    before: App,
    after: App,
    connected: bool,
    commands: bool,
    request: Request,
)
    requires
        acted(before, after, connected, commands, Action::BeginDeleteConversation, request),
    ensures
        before.on_conversation() ==> (after.pending_delete_conversation matches Some(title) && title
            == before.conversation().title),
        after.core == before.core,
        request is Nothing,
{
}

/// The rename input begins with the title of the selected conversation.
pub proof fn law_renaming_begins_with_the_title(
    before: App,
    after: App,
    connected: bool,
    commands: bool,
    request: Request,
)
    requires
        acted(before, after, connected, commands, Action::BeginRename, request),
        before.on_conversation(),
    ensures
        after.mode == InputMode::Renaming,
        after.renaming_id == Some(before.conversation().id),
        area_lines(after.rename_textarea) == inserted_lines(before.conversation().title@),
        area_ready(after.rename_textarea),
        after.core == before.core,
{
}

/// What cannot be done is said in the status line.
pub proof fn law_refusals_are_told(
    before: App,
    after: App,
    commands: bool,
    action: Action,
    request: Request,
)
    requires
        acted(before, after, false, commands, action, request),
        action == Action::SubmitPrompt || action == Action::DeleteConversation || action
            == Action::OpenKnowledgeBase || action == Action::OpenConnections || action
            == Action::OpenPurposes || action == Action::OpenMcpServers || action
            == Action::OpenModelPicker || action == Action::OpenPersonalityPicker,
    ensures
        after == (App { status_message: after.status_message, ..before }),
        after.status_message@.len() > 0,
        after.status_message@.take(13) == "Not connected"@,
{
    reveal_strlit("Not connected");
    reveal_strlit("Not connected — message not sent (your text is preserved)");
    reveal_strlit("Not connected — conversation not deleted");
    reveal_strlit("Not connected — knowledge base unavailable");
    reveal_strlit("Not connected — connections manager unavailable");
    reveal_strlit("Not connected — purposes manager unavailable");
    reveal_strlit("Not connected — MCP servers manager unavailable");
    reveal_strlit("Not connected — model picker unavailable");
    reveal_strlit("Not connected — personality picker unavailable");
    assert(after.status_message@.take(13) =~= "Not connected"@);
}

/// The status line says how much Adele speaks now, in words that differ by level, and
/// whether speech input is on.
pub proof fn law_voice_controls_are_told(
    before: App,
    after: App,
    connected: bool,
    commands: bool,
    action: Action,
    request: Request,
)
    requires
        acted(before, after, connected, commands, action, request),
        before.core.current is Some,
    ensures
        action == Action::CycleAdeleOutput ==> match after.output_level(
            before.core.current->0.id@,
        ) {
            AdeleOutput::Disabled => holds_text(after.status_message@, "never speaks"@),
            AdeleOutput::OnDemand => holds_text(after.status_message@, "On Demand"@),
            AdeleOutput::Always => holds_text(after.status_message@, "every reply"@),
        },
        action == Action::ToggleVoiceIn ==> if after.hears(before.core.current->0.id@) {
            holds_text(after.status_message@, "You: Enabled"@)
        } else {
            holds_text(after.status_message@, "You: Disabled"@)
        },
{
    reveal_strlit("never speaks");
    reveal_strlit("On Demand");
    reveal_strlit("every reply");
    reveal_strlit("You: Enabled");
    reveal_strlit("You: Disabled");
    reveal_strlit("Adele: Disabled for this conversation (never speaks) — Ctrl+S to cycle");
    reveal_strlit(
        "Adele: On Demand for this conversation (speaks replies when You is Enabled; always speaks asides) — Ctrl+S to cycle",
    );
    reveal_strlit("Adele: Always for this conversation (reads every reply aloud) — Ctrl+S to cycle");
    reveal_strlit(
        "You: Enabled for this conversation (push-to-talk with Ctrl+G; narrates replies when Adele is On Demand) — Ctrl+V to disable",
    );
    reveal_strlit("You: Disabled for this conversation (type only)");
    let text = after.status_message@;
    if action == Action::CycleAdeleOutput {
        match after.output_level(before.core.current->0.id@) {
            AdeleOutput::Disabled => {
                assert(text.subrange(39, 51) =~= "never speaks"@);
                assert(stands_at(text, "never speaks"@, 39));
            },
            AdeleOutput::OnDemand => {
                assert(text.subrange(7, 16) =~= "On Demand"@);
                assert(stands_at(text, "On Demand"@, 7));
            },
            AdeleOutput::Always => {
                assert(text.subrange(43, 54) =~= "every reply"@);
                assert(stands_at(text, "every reply"@, 43));
            },
        }
    }
    if action == Action::ToggleVoiceIn {
        if after.hears(before.core.current->0.id@) {
            assert(text.subrange(0, 12) =~= "You: Enabled"@);
            assert(stands_at(text, "You: Enabled"@, 0));
        } else {
            assert(text.subrange(0, 13) =~= "You: Disabled"@);
            assert(stands_at(text, "You: Disabled"@, 0));
        }
    }
}

/// A task that is to be cancelled is named in the status line and waited for.
pub proof fn law_cancelling_is_told(
    before: App,
    after: App,
    connected: bool,
    commands: bool,
    request: Request,
)
    requires
        acted(before, after, connected, commands, Action::CancelSelectedTask, request),
        before.tasks.on_task(),
    ensures
        holds_text(after.status_message@, before.tasks.task().id@),
        after.pending_task_cancel == Some(before.tasks.task().id),
        after.tasks == before.tasks,
{
    law_text_is_held("Cancelling "@, before.tasks.task().id@, "..."@);
}

/// The conversation of a task is selected in the list where it stands there, else the
/// selection stays; the tasks pane is closed.
pub proof fn law_task_leads_to_its_conversation(
    before: App,
    after: App,
    connected: bool,
    commands: bool,
    request: Request,
)
    requires
        acted(before, after, connected, commands, Action::OpenSelectedTaskConversation, request),
        before.task_linked(),
    ensures
        !after.tasks.visible,
        ({
            let convs = before.core.conversations@;
            let id = before.tasks.task().conversation_id->0@;
            &&& (exists|i: int| 0 <= i < convs.len() && (#[trigger] convs[i]).id@ == id) ==> (
            after.selected_conversation matches Some(at) && at < convs.len() && convs[at as int].id@
                == id)
            &&& (forall|i: int| 0 <= i < convs.len() ==> (#[trigger] convs[i]).id@ != id)
                ==> after.selected_conversation == before.selected_conversation
        }),
        after.core == before.core,
{
    law_conversations_are_found(
        before.core.conversations@,
        before.tasks.task().conversation_id->0@,
    );
    assert(before.core.conversations.len() == before.core.conversations@.len());
}

/// A broken line stands on two lines, with nothing lost: what stood before the cursor,
/// and what stood behind it, at the start of which the cursor is now.
pub proof fn law_broken_line_keeps_its_text(
    before: App,
    after: App,
    connected: bool,
    commands: bool,
    request: Request,
)
    requires
        acted(before, after, connected, commands, Action::InsertNewline, request),
        area_ready(before.textarea),
    ensures
        ({
            let row = area_cursor(before.textarea).0 as int;
            let col = area_cursor(before.textarea).1 as int;
            let lines = area_lines(before.textarea);
            &&& area_lines(after.textarea) == lines.take(row) + seq![
                lines[row].take(col),
                lines[row].skip(col),
            ] + lines.skip(row + 1)
            &&& area_cursor(after.textarea) == ((row + 1) as nat, 0nat)
        }),
{
    let row = area_cursor(before.textarea).0 as int;
    let col = area_cursor(before.textarea).1 as int;
    let lines = area_lines(before.textarea);
    assert(area_lines(after.textarea) =~= lines.take(row) + seq![
        lines[row].take(col),
        lines[row].skip(col),
    ] + lines.skip(row + 1)) by {
        assert(lines[row].take(col) + Seq::<char>::empty() =~= lines[row].take(col));
        assert(Seq::<char>::empty() + lines[row].skip(col) =~= lines[row].skip(col));
    }
}

/// The conversation or the task that an action is about is not there.
pub open spec fn lacks_its_subject(before: App, action: Action) -> bool {
    ||| !before.on_conversation() && (action == Action::OpenConversation || action
        == Action::ArchiveConversation || action == Action::BeginDeleteConversation
        || action == Action::BeginRename || action == Action::DeleteConversation)
    ||| before.core.current is None && (action == Action::EnterEditMode || action
        == Action::CycleAdeleOutput || action == Action::ToggleVoiceIn || action
        == Action::OpenPersonalityPicker)
    ||| !before.tasks.on_task() && action == Action::CancelSelectedTask
    ||| !before.task_linked() && action == Action::OpenSelectedTaskConversation
    ||| before.tasks.rows@.len() == 0 && (action == Action::NextTask || action
        == Action::PreviousTask)
    ||| before.core.conversations@.len() == 0 && (action == Action::NextConversation
        || action == Action::PreviousConversation)
}

/// An action that needs a selected or an open conversation, or a highlighted task, does
/// nothing without one but say so.
#[verifier::rlimit(40)]
pub proof fn law_actions_need_their_subject(
    before: App,
    after: App,
    connected: bool,
    commands: bool,
    action: Action,
    request: Request,
)
    requires
        acted(before, after, connected, commands, action, request),
        lacks_its_subject(before, action),
    ensures
        request is Nothing,
        after == (App { status_message: after.status_message, ..before }),
{
    assert(before.core.conversations@.len() == 0 ==> before.core.conversations.len() == 0);
}

/// Leaving the composer gives a waiting message in hand back, and asks for nothing where
/// there is none; giving up a new title asks for nothing and forgets what was typed.
pub proof fn law_leaving_gives_back_what_is_in_hand(
    before: App,
    after: App,
    connected: bool,
    commands: bool,
    action: Action,
    request: Request,
)
    requires
        acted(before, after, connected, commands, action, request),
    ensures
        action == Action::ExitEditMode ==> (request == Request::Reduce(UiMessage::CancelQueuedEdit)
            <==> before.core.editing_queued is Some),
        action == Action::ExitEditMode ==> (request is Nothing
            <==> before.core.editing_queued is None),
        action == Action::ExitEditMode ==> after.mode == InputMode::Normal && after.textarea
            == before.textarea,
        action == Action::CancelRename ==> request is Nothing && after.renaming_id is None
            && area_lines(after.rename_textarea) == seq![Seq::<char>::empty()],
        request is Reduce ==> action == Action::ExitEditMode || action == Action::SubmitPrompt,
{
}

/// What the daemon is asked for is followed by the list that the window shows: with the
/// archived conversations exactly where they are shown.
pub proof fn law_lists_are_asked_for_as_shown(
    before: App,
    after: App,
    connected: bool,
    commands: bool,
    action: Action,
    request: Request,
)
    requires
        acted(before, after, connected, commands, action, request),
    ensures
        request matches Request::Call(Rpc::Create { show_archived }) ==> show_archived
            == after.show_archived,
        request matches Request::Call(Rpc::Delete { id, show_archived }) ==> show_archived
            == after.show_archived,
        request matches Request::Call(Rpc::Archive { id, archived, show_archived })
            ==> show_archived == after.show_archived,
        request matches Request::Call(Rpc::Refresh { show_archived, on_success }) ==> show_archived
            == after.show_archived && (on_success matches Some(text) && (holds_text(
            text@,
            "archived"@,
        ) <==> after.show_archived)),
        action == Action::ToggleShowArchived && !connected ==> (holds_text(
            after.status_message@,
            "archived"@,
        ) <==> after.show_archived),
{
    reveal_strlit("Showing all conversations (including archived)");
    reveal_strlit("Showing active conversations only");
    reveal_strlit("archived");
    let all = "Showing all conversations (including archived)"@;
    let active = "Showing active conversations only"@;
    assert(all.subrange(37, 45) =~= "archived"@);
    assert(stands_at(all, "archived"@, 37));
    assert forall|at: int| !#[trigger] stands_at(active, "archived"@, at) by {
        if stands_at(active, "archived"@, at) {
            let part = active.subrange(at, at + 8);
            assert(part[0] == "archived"@[0]);
            assert(part[1] == "archived"@[1]);
        }
    }
}

/// The status line says which way a part of the window was switched.
pub proof fn law_switched_parts_are_told(
    before: App,
    after: App,
    connected: bool,
    commands: bool,
    action: Action,
    request: Request,
)
    requires
        acted(before, after, connected, commands, action, request),
    ensures
        action == Action::ToggleSidebar ==> (holds_text(after.status_message@, "shown"@)
            <==> after.show_sidebar),
        action == Action::ToggleTasksPane ==> (holds_text(after.status_message@, "closed"@)
            <==> !after.tasks.visible),
{
    reveal_strlit("Conversation list hidden (Ctrl+B to show)");
    reveal_strlit("Conversation list shown");
    reveal_strlit("Tasks pane closed");
    reveal_strlit("Tasks pane open (j/k navigate · c cancel · Enter open conv · Ctrl+P close)");
    reveal_strlit("shown");
    reveal_strlit("closed");
    let hidden = "Conversation list hidden (Ctrl+B to show)"@;
    let shown = "Conversation list shown"@;
    let closed = "Tasks pane closed"@;
    let open = "Tasks pane open (j/k navigate · c cancel · Enter open conv · Ctrl+P close)"@;
    assert(shown.subrange(18, 23) =~= "shown"@);
    assert(stands_at(shown, "shown"@, 18));
    assert(closed.subrange(11, 17) =~= "closed"@);
    assert(stands_at(closed, "closed"@, 11));
    assert forall|at: int| !#[trigger] stands_at(hidden, "shown"@, at) by {
        if stands_at(hidden, "shown"@, at) {
            let part = hidden.subrange(at, at + 5);
            assert(part[0] == "shown"@[0]);
            assert(part[1] == "shown"@[1]);
            assert(part[4] == "shown"@[4]);
        }
    }
    assert forall|at: int| !#[trigger] stands_at(open, "closed"@, at) by {
        if stands_at(open, "closed"@, at) {
            let part = open.subrange(at, at + 6);
            assert(part[0] == "closed"@[0]);
            assert(part[1] == "closed"@[1]);
            assert(part[5] == "closed"@[5]);
        }
    }
}

/// A step in the tasks pane highlights the task that it leads to, and moves nothing else.
pub proof fn law_task_steps_highlight_a_task(
    before: App,
    after: App,
    connected: bool,
    commands: bool,
    action: Action,
    request: Request,
)
    requires
        acted(before, after, connected, commands, action, request),
        action == Action::NextTask || action == Action::PreviousTask,
        before.tasks.rows@.len() > 0,
    ensures
        after.tasks.selected == Some(
            before.tasks.rows@[before.tasks.stepped_to(action == Action::NextTask)].id,
        ),
        after.tasks.rows == before.tasks.rows,
        after.tasks.visible == before.tasks.visible,
        after.core == before.core,
{
}

} // verus!
