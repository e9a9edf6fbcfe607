//! Requests that the chat makes of the daemon beside the event loop: the steps
//! of each one, and what its outcome changes in the window.

use vstd::prelude::*;
use crate::api::{Command, ConversationDetail, ConversationSummary};
use crate::app::{find_conversation, App, InputMode};
#[allow(unused_imports)]
use crate::app::{
    conversation_place, law_conversations_are_found, law_titles_change_for_one_conversation,
    listed, opened, renamed, told,
};
use crate::text::{cat2, cat3, same};
#[allow(unused_imports)]
use crate::text::{holds_text, law_text_is_held, opt_text, stands_at};

verus! {

/// A request, as far as it has come.
pub enum Rpc {
    Open { id: String, enter_editing: bool },
    Create { show_archived: bool },
    /// A conversation was created; the list is fetched again.
    ListCreated { created: String, show_archived: bool },
    /// The list was fetched; the created conversation is opened.
    OpenCreated { created: String, list: Result<Vec<ConversationSummary>, String> },
    Delete { id: String, show_archived: bool },
    /// A deletion failed; the list is fetched again.
    Resync { error: String, show_archived: bool },
    Rename { id: String, title: String },
    Refresh { show_archived: bool, on_success: Option<String> },
    /// Archives a conversation, or brings an archived one back.
    Archive { id: String, archived: bool, show_archived: bool },
    CancelTask { id: String },
}

/// The daemon's reply to a step.
pub enum RpcReply {
    Opened(Result<ConversationDetail, String>),
    Created(Result<String, String>),
    Listed(Result<Vec<ConversationSummary>, String>),
    Done(Result<(), String>),
}

/// The outcome of a request.
#[allow(inconsistent_fields)]
pub enum RpcOutcome {
    ConversationOpened { result: Result<ConversationDetail, String>, enter_editing: bool },
    ConversationCreated {
        created: Result<String, String>,
        list: Option<Result<Vec<ConversationSummary>, String>>,
        detail: Option<Result<ConversationDetail, String>>,
    },
    ConversationDeleted {
        result: Result<(), String>,
        resync: Option<Result<Vec<ConversationSummary>, String>>,
    },
    ConversationRenamed { id: String, title: String, result: Result<(), String> },
    ConversationsRefreshed {
        list: Result<Vec<ConversationSummary>, String>,
        on_success: Option<String>,
    },
    Noop,
    StatusError(String),
    TaskCancelFailed { task_id: String, error: String },
}

pub enum RpcStep {
    Next(Rpc),
    Done(RpcOutcome),
}

/// The command of a step.
pub open spec fn commands(rpc: Rpc, command: Command) -> bool {
    match rpc {
        Rpc::Open { id, .. } => command == (Command::GetConversation { id }),
        Rpc::Create { .. } => command matches Command::CreateConversation { title } && title@
            == "New Conversation"@,
        Rpc::ListCreated { show_archived, .. } => command == (Command::ListConversations {
            include_archived: show_archived,
        }),
        Rpc::OpenCreated { created, .. } => command == (Command::GetConversation { id: created }),
        Rpc::Delete { id, .. } => command == (Command::DeleteConversation { id }),
        Rpc::Resync { show_archived, .. } => command == (Command::ListConversations {
            include_archived: show_archived,
        }),
        Rpc::Rename { id, title } => command == (Command::RenameConversation { id, title }),
        Rpc::Refresh { show_archived, .. } => command == (Command::ListConversations {
            include_archived: show_archived,
        }),
        Rpc::Archive { id, archived, .. } => if archived {
            command == (Command::UnarchiveConversation { id })
        } else {
            command == (Command::ArchiveConversation { id })
        },
        Rpc::CancelTask { id } => command == (Command::CancelBackgroundTask { id }),
    }
}

/// What a step asks the daemon for.
pub fn command_of(rpc: &Rpc) -> (command: Command)
    ensures
        commands(*rpc, command),
{
    match rpc {
        Rpc::Open { id, .. } => Command::GetConversation { id: id.clone() },
        Rpc::Create { .. } => Command::CreateConversation {
            title: "New Conversation".to_owned(),
        },
        Rpc::ListCreated { show_archived, .. } => Command::ListConversations {
            include_archived: *show_archived,
        },
        Rpc::OpenCreated { created, .. } => Command::GetConversation { id: created.clone() },
        Rpc::Delete { id, .. } => Command::DeleteConversation { id: id.clone() },
        Rpc::Resync { show_archived, .. } => Command::ListConversations {
            include_archived: *show_archived,
        },
        Rpc::Rename { id, title } => Command::RenameConversation {
            id: id.clone(),
            title: title.clone(),
        },
        Rpc::Refresh { show_archived, .. } => Command::ListConversations {
            include_archived: *show_archived,
        },
        Rpc::Archive { id, archived, .. } => if *archived {
            Command::UnarchiveConversation { id: id.clone() }
        } else {
            Command::ArchiveConversation { id: id.clone() }
        },
        Rpc::CancelTask { id } => Command::CancelBackgroundTask { id: id.clone() },
    }
}

/// The reply is of the kind that the step asks for.
pub open spec fn answers(rpc: Rpc, reply: RpcReply) -> bool {
    match rpc {
        Rpc::Open { .. } | Rpc::OpenCreated { .. } => reply is Opened,
        Rpc::Create { .. } => reply is Created,
        Rpc::ListCreated { .. } | Rpc::Resync { .. } | Rpc::Refresh { .. } => reply is Listed,
        Rpc::Delete { .. } | Rpc::Rename { .. } | Rpc::Archive { .. } | Rpc::CancelTask {
            ..
        } => reply is Done,
    }
}

/// Where a reply leads.
pub open spec fn leads_to(rpc: Rpc, reply: RpcReply, step: RpcStep) -> bool {
    match (rpc, reply) {
        (Rpc::Open { enter_editing, .. }, RpcReply::Opened(result)) => step == RpcStep::Done(
            RpcOutcome::ConversationOpened { result, enter_editing },
        ),
        (Rpc::Create { show_archived }, RpcReply::Created(created)) => match created {
            Ok(id) => step == RpcStep::Next(Rpc::ListCreated { created: id, show_archived }),
            Err(_) => step == RpcStep::Done(
                RpcOutcome::ConversationCreated { created, list: None, detail: None },
            ),
        },
        (Rpc::ListCreated { created, .. }, RpcReply::Listed(list)) => step == RpcStep::Next(
            Rpc::OpenCreated { created, list },
        ),
        (Rpc::OpenCreated { created, list }, RpcReply::Opened(detail)) => step == RpcStep::Done(
            RpcOutcome::ConversationCreated {
                created: Ok(created),
                list: Some(list),
                detail: Some(detail),
            },
        ),
        (Rpc::Delete { show_archived, .. }, RpcReply::Done(result)) => match result {
            Ok(_) => step == RpcStep::Done(
                RpcOutcome::ConversationDeleted { result, resync: None },
            ),
            Err(error) => step == RpcStep::Next(Rpc::Resync { error, show_archived }),
        },
        (Rpc::Resync { error, .. }, RpcReply::Listed(list)) => step == RpcStep::Done(
            RpcOutcome::ConversationDeleted { result: Err(error), resync: Some(list) },
        ),
        (Rpc::Rename { id, title }, RpcReply::Done(result)) => step == RpcStep::Done(
            RpcOutcome::ConversationRenamed { id, title, result },
        ),
        (Rpc::Refresh { on_success, .. }, RpcReply::Listed(list)) => step == RpcStep::Done(
            RpcOutcome::ConversationsRefreshed { list, on_success },
        ),
        (Rpc::Archive { archived, show_archived, .. }, RpcReply::Done(result)) => match result {
            Ok(_) => match step {
                RpcStep::Next(Rpc::Refresh { show_archived: all, on_success }) => all
                    == show_archived && opt_text(on_success) == Some(
                    if archived {
                        "Conversation unarchived"@
                    } else {
                        "Conversation archived"@
                    },
                ),
                _ => false,
            },
            Err(e) => match step {
                RpcStep::Done(RpcOutcome::StatusError(text)) => text@ == "Archive error: "@ + e@,
                _ => false,
            },
        },
        (Rpc::CancelTask { id }, RpcReply::Done(result)) => match result {
            Ok(_) => step == RpcStep::Done(RpcOutcome::Noop),
            Err(error) => step == RpcStep::Done(
                RpcOutcome::TaskCancelFailed { task_id: id, error },
            ),
        },
        _ => false,
    }
}

/// Goes on with a request after the daemon's reply to a step.
pub fn advance(rpc: Rpc, reply: RpcReply) -> (step: RpcStep)
    requires
        answers(rpc, reply),
    ensures
        leads_to(rpc, reply, step),
{
    match (rpc, reply) {
        (Rpc::Open { enter_editing, .. }, RpcReply::Opened(result)) => RpcStep::Done(
            RpcOutcome::ConversationOpened { result, enter_editing },
        ),
        (Rpc::Create { show_archived }, RpcReply::Created(created)) => match created {
            Ok(id) => RpcStep::Next(Rpc::ListCreated { created: id, show_archived }),
            Err(e) => RpcStep::Done(
                RpcOutcome::ConversationCreated { created: Err(e), list: None, detail: None },
            ),
        },
        (Rpc::ListCreated { created, .. }, RpcReply::Listed(list)) => RpcStep::Next(
            Rpc::OpenCreated { created, list },
        ),
        (Rpc::OpenCreated { created, list }, RpcReply::Opened(detail)) => RpcStep::Done(
            RpcOutcome::ConversationCreated {
                created: Ok(created),
                list: Some(list),
                detail: Some(detail),
            },
        ),
        (Rpc::Delete { show_archived, .. }, RpcReply::Done(result)) => match result {
            Ok(done) => RpcStep::Done(
                RpcOutcome::ConversationDeleted { result: Ok(done), resync: None },
            ),
            Err(error) => RpcStep::Next(Rpc::Resync { error, show_archived }),
        },
        (Rpc::Resync { error, .. }, RpcReply::Listed(list)) => RpcStep::Done(
            RpcOutcome::ConversationDeleted { result: Err(error), resync: Some(list) },
        ),
        (Rpc::Rename { id, title }, RpcReply::Done(result)) => RpcStep::Done(
            RpcOutcome::ConversationRenamed { id, title, result },
        ),
        (Rpc::Refresh { on_success, .. }, RpcReply::Listed(list)) => RpcStep::Done(
            RpcOutcome::ConversationsRefreshed { list, on_success },
        ),
        (Rpc::Archive { archived, show_archived, .. }, RpcReply::Done(result)) => match result {
            Ok(_) => {
                let text = if archived {
                    "Conversation unarchived"
                } else {
                    "Conversation archived"
                };
                RpcStep::Next(Rpc::Refresh { show_archived, on_success: Some(text.to_owned()) })
            },
            Err(e) => RpcStep::Done(RpcOutcome::StatusError(cat2("Archive error: ", e.as_str()))),
        },
        (Rpc::CancelTask { id }, RpcReply::Done(result)) => match result {
            Ok(_) => RpcStep::Done(RpcOutcome::Noop),
            Err(error) => RpcStep::Done(RpcOutcome::TaskCancelFailed { task_id: id, error }),
        },
        _ => RpcStep::Done(RpcOutcome::Noop),
    }
}

/// How many more replies a request can wait for.
pub open spec fn steps_left(rpc: Rpc) -> nat {
    match rpc {
        Rpc::Create { .. } => 3,
        Rpc::ListCreated { .. } | Rpc::Delete { .. } | Rpc::Archive { .. } => 2,
        _ => 1,
    }
}

/// Every request comes to an end: with each reply fewer are left to wait for.
pub proof fn law_requests_end(rpc: Rpc, reply: RpcReply, next: Rpc)
    requires
        leads_to(rpc, reply, RpcStep::Next(next)),
    ensures
        steps_left(next) < steps_left(rpc),
{
}

/// A conversation was opened, and is being typed into where that was asked for.
pub open spec fn opened_in_mode(
    before: App,
    after: App,
    detail: ConversationDetail,
    editing: bool,
) -> bool {
    &&& opened(before, App { mode: before.mode, ..after }, detail)
    &&& after.mode == (if editing {
        InputMode::Editing
    } else {
        before.mode
    })
}

/// The list that came with a new conversation: it is selected there.
pub open spec fn listed_created(
    before: App,
    after: App,
    created: Seq<char>,
    list: Option<Result<Vec<ConversationSummary>, String>>,
) -> bool {
    match list {
        Some(Ok(convs)) => after == (App {
            selected_conversation: if listed(convs@, created) {
                Some(conversation_place(convs@, created) as usize)
            } else {
                before.with_conversations(convs).selected_conversation
            },
            ..before.with_conversations(convs)
        }),
        Some(Err(e)) => told(before, after, "Error refreshing: "@ + e@),
        None => after == before,
    }
}

/// The transcript that came with a new conversation.
pub open spec fn opened_created(
    before: App,
    after: App,
    detail: Option<Result<ConversationDetail, String>>,
) -> bool {
    match detail {
        Some(Ok(d)) => opened_in_mode(before, after, d, true),
        Some(Err(e)) => told(before, after, "Error opening: "@ + e@),
        None => after == before,
    }
}

/// What an outcome changes in the window.
pub open spec fn outcome_shown(before: App, after: App, outcome: RpcOutcome) -> bool {
    match outcome {
        RpcOutcome::ConversationOpened { result, enter_editing } => match result {
            Ok(detail) => opened_in_mode(before, after, detail, enter_editing),
            Err(e) => told(before, after, "Error: "@ + e@),
        },
        RpcOutcome::ConversationCreated { created, list, detail } => match created {
            Ok(id) => exists|mid: App| #[trigger]
                listed_created(before, mid, id@, list) && opened_created(mid, after, detail),
            Err(e) => told(before, after, "Create error: "@ + e@),
        },
        RpcOutcome::ConversationDeleted { result, resync } => match result {
            Ok(_) => after == before,
            Err(e) => {
                &&& after.status_message@ == "Delete error: "@ + e@
                &&& after == (App {
                    status_message: after.status_message,
                    ..match resync {
                        Some(Ok(convs)) => before.with_conversations(convs),
                        _ => before,
                    }
                })
            },
        },
        RpcOutcome::ConversationRenamed { id, title, result } => match result {
            Ok(_) => {
                &&& after.status_message@ == "Renamed to \""@ + title@ + "\""@
                &&& renamed(
                    before,
                    App { status_message: before.status_message, ..after },
                    id@,
                    title@,
                )
            },
            Err(e) => told(before, after, "Rename error: "@ + e@),
        },
        RpcOutcome::ConversationsRefreshed { list, on_success } => match list {
            Ok(convs) => after == (App {
                status_message: match on_success {
                    Some(text) => text,
                    None => before.status_message,
                },
                ..before.with_conversations(convs)
            }),
            Err(e) => told(before, after, "Error refreshing: "@ + e@),
        },
        RpcOutcome::Noop => after == before,
        RpcOutcome::StatusError(text) => after == (App { status_message: text, ..before }),
        RpcOutcome::TaskCancelFailed { task_id, error } => {
            &&& after.status_message@ == "Cancel failed: "@ + error@
            &&& after == (App {
                status_message: after.status_message,
                pending_task_cancel: if opt_text(before.pending_task_cancel) == Some(task_id@) {
                    None
                } else {
                    before.pending_task_cancel
                },
                ..before
            })
        },
    }
}

/// An outcome opens a conversation.
pub open spec fn opens(outcome: RpcOutcome) -> bool {
    match outcome {
        RpcOutcome::ConversationOpened { result, .. } => result is Ok,
        RpcOutcome::ConversationCreated { created, detail, .. } => created is Ok
            && detail is Some && detail->0 is Ok,
        _ => false,
    }
}

fn take_created_list(
    app: &mut App,
    created: &str,
    list: Option<Result<Vec<ConversationSummary>, String>>,
)
    ensures
        listed_created(*old(app), *final(app), created@, list),
{
    match list {
        Some(Ok(convs)) => {
            let at: usize = find_conversation(&convs, created);
            let n: usize = convs.len();
            app.set_conversations(convs);
            if at < n {
                app.selected_conversation = Some(at);
            }
        },
        Some(Err(e)) => {
            app.status_message = cat2("Error refreshing: ", e.as_str());
        },
        None => {},
    }
}

fn take_created_detail(app: &mut App, detail: Option<Result<ConversationDetail, String>>) -> (done:
    bool)
    ensures
        opened_created(*old(app), *final(app), detail),
        done == (detail is Some && detail->0 is Ok),
{
    match detail {
        Some(Ok(d)) => {
            app.load_conversation(d);
            app.enter_editing_mode();
            true
        },
        Some(Err(e)) => {
            app.status_message = cat2("Error opening: ", e.as_str());
            false
        },
        None => false,
    }
}

fn show_opened(app: &mut App, result: Result<ConversationDetail, String>, enter_editing: bool) -> (done:
    bool)
    ensures
        outcome_shown(
            *old(app),
            *final(app),
            RpcOutcome::ConversationOpened { result, enter_editing },
        ),
        done == result is Ok,
{
    match result {
        Ok(detail) => {
            app.load_conversation(detail);
            if enter_editing {
                app.enter_editing_mode();
            }
            true
        },
        Err(e) => {
            app.status_message = cat2("Error: ", e.as_str());
            false
        },
    }
}

fn show_created(
    app: &mut App,
    created: Result<String, String>,
    list: Option<Result<Vec<ConversationSummary>, String>>,
    detail: Option<Result<ConversationDetail, String>>,
) -> (done: bool)
    ensures
        outcome_shown(
            *old(app),
            *final(app),
            RpcOutcome::ConversationCreated { created, list, detail },
        ),
        done == opens(RpcOutcome::ConversationCreated { created, list, detail }),
{
    match created {
        Ok(id) => {
            take_created_list(app, id.as_str(), list);
            let ghost mid = *app;
            let done = take_created_detail(app, detail);
            assert(listed_created(*old(app), mid, id@, list));
            done
        },
        Err(e) => {
            app.status_message = cat2("Create error: ", e.as_str());
            false
        },
    }
}

fn show_deleted(
    app: &mut App,
    result: Result<(), String>,
    resync: Option<Result<Vec<ConversationSummary>, String>>,
)
    ensures
        outcome_shown(
            *old(app),
            *final(app),
            RpcOutcome::ConversationDeleted { result, resync },
        ),
{
    match result {
        Ok(_) => {},
        Err(e) => {
            app.status_message = cat2("Delete error: ", e.as_str());
            match resync {
                Some(Ok(convs)) => {
                    app.set_conversations(convs);
                },
                _ => {},
            }
        },
    }
}

fn show_renamed(app: &mut App, id: String, title: String, result: Result<(), String>)
    ensures
        outcome_shown(
            *old(app),
            *final(app),
            RpcOutcome::ConversationRenamed { id, title, result },
        ),
{
    match result {
        Ok(_) => {
            app.apply_rename(id.as_str(), title.as_str());
            app.status_message = cat3("Renamed to \"", title.as_str(), "\"");
        },
        Err(e) => {
            app.status_message = cat2("Rename error: ", e.as_str());
        },
    }
}

fn show_refreshed(
    app: &mut App,
    list: Result<Vec<ConversationSummary>, String>,
    on_success: Option<String>,
)
    ensures
        outcome_shown(
            *old(app),
            *final(app),
            RpcOutcome::ConversationsRefreshed { list, on_success },
        ),
{
    match list {
        Ok(convs) => {
            app.set_conversations(convs);
            match on_success {
                Some(text) => {
                    app.status_message = text;
                },
                None => {},
            }
        },
        Err(e) => {
            app.status_message = cat2("Error refreshing: ", e.as_str());
        },
    }
}

fn show_cancel_failed(app: &mut App, task_id: String, error: String)
    ensures
        outcome_shown(*old(app), *final(app), RpcOutcome::TaskCancelFailed { task_id, error }),
{
    app.status_message = cat2("Cancel failed: ", error.as_str());
    let waiting: bool = match &app.pending_task_cancel {
        Some(id) => same(id.as_str(), task_id.as_str()),
        None => false,
    };
    if waiting {
        app.pending_task_cancel = None;
    }
}

/// Shows the outcome of a request. Returns whether another conversation is open
/// now, which the daemon is then to be told.
pub fn apply_rpc_outcome(app: &mut App, outcome: RpcOutcome) -> (changed: bool)
    ensures
        outcome_shown(*old(app), *final(app), outcome),
        changed == opens(outcome),
{
    match outcome {
        RpcOutcome::ConversationOpened { result, enter_editing } => show_opened(
            app,
            result,
            enter_editing,
        ),
        RpcOutcome::ConversationCreated { created, list, detail } => show_created(
            app,
            created,
            list,
            detail,
        ),
        RpcOutcome::ConversationDeleted { result, resync } => {
            show_deleted(app, result, resync);
            false
        },
        RpcOutcome::ConversationRenamed { id, title, result } => {
            show_renamed(app, id, title, result);
            false
        },
        RpcOutcome::ConversationsRefreshed { list, on_success } => {
            show_refreshed(app, list, on_success);
            false
        },
        RpcOutcome::Noop => false,
        RpcOutcome::StatusError(text) => {
            app.status_message = text;
            false
        },
        RpcOutcome::TaskCancelFailed { task_id, error } => {
            show_cancel_failed(app, task_id, error);
            false
        },
    }
}

/// A refreshed list leaves the open conversation and its transcript alone.
pub proof fn law_refreshing_keeps_the_chat(
    before: App,
    after: App,
    list: Result<Vec<ConversationSummary>, String>,
    on_success: Option<String>,
)
    requires
        outcome_shown(before, after, RpcOutcome::ConversationsRefreshed { list, on_success }),
    ensures
        after.core.current == before.core.current,
        after.core.stream == before.core.stream,
        after.textarea == before.textarea,
{
}

/// Each request reaches the conversation, or the task, that it is about: opened,
/// deleted and renamed by its own id, archived where it was not and brought back where
/// it was.
pub proof fn law_commands_reach_their_conversation(rpc: Rpc, command: Command)
    requires
        commands(rpc, command),
    ensures
        rpc matches Rpc::Open { id, .. } ==> (command matches Command::GetConversation { id: asked }
            && asked == id),
        rpc matches Rpc::OpenCreated { created, .. } ==> (command matches Command::GetConversation {
            id: asked,
        } && asked == created),
        rpc matches Rpc::Delete { id, .. } ==> (command matches Command::DeleteConversation {
            id: asked,
        } && asked == id),
        rpc matches Rpc::Rename { id, title } ==> (command matches Command::RenameConversation {
            id: asked,
            title: new,
        } && asked == id && new == title),
        rpc matches Rpc::Archive { id, archived, .. } ==> (archived ==> (
        command matches Command::UnarchiveConversation { id: asked } && asked == id)),
        rpc matches Rpc::Archive { id, archived, .. } ==> (!archived ==> (
        command matches Command::ArchiveConversation { id: asked } && asked == id)),
        rpc matches Rpc::CancelTask { id } ==> (command matches Command::CancelBackgroundTask {
            id: asked,
        } && asked == id),
        rpc matches Rpc::Refresh { show_archived, .. } ==> (
        command matches Command::ListConversations { include_archived } && include_archived
            == show_archived),
        rpc matches Rpc::Resync { show_archived, .. } ==> (
        command matches Command::ListConversations { include_archived } && include_archived
            == show_archived),
        rpc matches Rpc::ListCreated { show_archived, .. } ==> (
        command matches Command::ListConversations { include_archived } && include_archived
            == show_archived),
        rpc is Create ==> (command matches Command::CreateConversation { title } && title@.len()
            > 0),
{
    reveal_strlit("New Conversation");
}

/// A new conversation is created, listed and opened: in the end the window shows the
/// fetched list with the new conversation selected, its transcript, and the composer.
pub proof fn law_created_conversation_is_opened(
    before: App,
    after: App,
    show_archived: bool,
    id: String,
    list: Vec<ConversationSummary>,
    detail: ConversationDetail,
    first: RpcStep,
    second: RpcStep,
    third: RpcStep,
    at: int,
)
    requires
        leads_to(Rpc::Create { show_archived }, RpcReply::Created(Ok(id)), first),
        leads_to(first->Next_0, RpcReply::Listed(Ok(list)), second),
        leads_to(second->Next_0, RpcReply::Opened(Ok(detail)), third),
        outcome_shown(before, after, third->Done_0),
        0 <= at < list@.len(),
        list@[at].id@ == id@,
    ensures
        first is Next,
        second is Next,
        third is Done,
        forall|command: Command| #[trigger]
            commands(first->Next_0, command) ==> command == (Command::ListConversations {
                include_archived: show_archived,
            }),
        forall|command: Command| #[trigger]
            commands(second->Next_0, command) ==> command == (Command::GetConversation { id }),
        opens(third->Done_0),
        after.core.conversations == list,
        after.core.current == Some(detail),
        after.mode == InputMode::Editing,
        after.selected_conversation matches Some(i) && i < list@.len() && list@[i as int].id@
            == id@,
        after.core.stream == before.core.stream,
{
    law_conversations_are_found(list@, id@);
    assert(list.len() == list@.len());
    let mid = choose|mid: App| #[trigger]
        listed_created(before, mid, id@, Some(Ok(list))) && opened_created(
            mid,
            after,
            Some(Ok(detail)),
        );
    assert(listed_created(before, mid, id@, Some(Ok(list))));
    assert(opened(mid, App { mode: mid.mode, ..after }, detail));
}

/// A conversation that could not be created changes nothing but the status line, which
/// holds the reason.
pub proof fn law_refused_creation_is_told(
    before: App,
    after: App,
    show_archived: bool,
    error: String,
    step: RpcStep,
)
    requires
        leads_to(Rpc::Create { show_archived }, RpcReply::Created(Err(error)), step),
        outcome_shown(before, after, step->Done_0),
    ensures
        step is Done,
        !opens(step->Done_0),
        holds_text(after.status_message@, error@),
        after == (App { status_message: after.status_message, ..before }),
{
    law_text_is_held("Create error: "@, error@, Seq::<char>::empty());
}

/// An opened conversation is shown, and typed into where that was asked for.
pub proof fn law_opened_reply_is_shown(
    before: App,
    after: App,
    id: String,
    enter_editing: bool,
    detail: ConversationDetail,
    step: RpcStep,
)
    requires
        leads_to(Rpc::Open { id, enter_editing }, RpcReply::Opened(Ok(detail)), step),
        outcome_shown(before, after, step->Done_0),
    ensures
        step is Done,
        opens(step->Done_0),
        after.core.current == Some(detail),
        enter_editing ==> after.mode == InputMode::Editing,
        !enter_editing ==> after.mode == before.mode,
        after.core.conversations == before.core.conversations,
{
}

/// After a deletion that the daemon refused, the list is fetched again and shown as the
/// daemon has it, and the status line holds the reason.
pub proof fn law_refused_deletion_brings_the_list_back(
    before: App,
    after: App,
    id: String,
    show_archived: bool,
    error: String,
    list: Result<Vec<ConversationSummary>, String>,
    first: RpcStep,
    second: RpcStep,
)
    requires
        leads_to(Rpc::Delete { id, show_archived }, RpcReply::Done(Err(error)), first),
        leads_to(first->Next_0, RpcReply::Listed(list), second),
        outcome_shown(before, after, second->Done_0),
    ensures
        first is Next,
        second is Done,
        forall|command: Command| #[trigger]
            commands(first->Next_0, command) ==> command == (Command::ListConversations {
                include_archived: show_archived,
            }),
        list matches Ok(convs) ==> after.core.conversations == convs,
        list is Err ==> after.core.conversations == before.core.conversations,
        holds_text(after.status_message@, error@),
        after.core.current == before.core.current,
        after.textarea == before.textarea,
{
    law_text_is_held("Delete error: "@, error@, Seq::<char>::empty());
}

/// A deletion that the daemon carried out needs nothing more: the row is gone already.
pub proof fn law_deletion_ends(
    before: App,
    after: App,
    id: String,
    show_archived: bool,
    step: RpcStep,
)
    requires
        leads_to(Rpc::Delete { id, show_archived }, RpcReply::Done(Ok(())), step),
        outcome_shown(before, after, step->Done_0),
    ensures
        step is Done,
        after == before,
{
}

/// Where the daemon took a new title, its conversation has it, and no other one does;
/// else the titles stay, and the status line holds the reason.
pub proof fn law_taken_title_is_shown(
    before: App,
    after: App,
    id: String,
    title: String,
    result: Result<(), String>,
    step: RpcStep,
    i: int,
)
    requires
        leads_to(Rpc::Rename { id, title }, RpcReply::Done(result), step),
        outcome_shown(before, after, step->Done_0),
        0 <= i < before.core.conversations@.len(),
    ensures
        step is Done,
        after.core.conversations@.len() == before.core.conversations@.len(),
        after.core.conversations@[i].id == before.core.conversations@[i].id,
        result is Ok && before.core.conversations@[i].id@ == id@
            ==> after.core.conversations@[i].title@ == title@,
        result is Err || before.core.conversations@[i].id@ != id@
            ==> after.core.conversations@[i] == before.core.conversations@[i],
        result is Ok ==> holds_text(after.status_message@, title@),
        result matches Err(e) ==> holds_text(after.status_message@, e@),
{
    match result {
        Ok(_) => {
            law_text_is_held("Renamed to \""@, title@, "\""@);
            law_titles_change_for_one_conversation(
                before,
                App { status_message: before.status_message, ..after },
                id@,
                title@,
                i,
            );
        },
        Err(e) => {
            law_text_is_held("Rename error: "@, e@, Seq::<char>::empty());
        },
    }
}

/// An archived conversation is followed by the list as it is now, and the status line
/// says which way it went; a refusal is told.
pub proof fn law_archiving_refreshes_the_list(
    before: App,
    after: App,
    id: String,
    archived: bool,
    show_archived: bool,
    list: Vec<ConversationSummary>,
    first: RpcStep,
    second: RpcStep,
)
    requires
        leads_to(Rpc::Archive { id, archived, show_archived }, RpcReply::Done(Ok(())), first),
        leads_to(first->Next_0, RpcReply::Listed(Ok(list)), second),
        outcome_shown(before, after, second->Done_0),
    ensures
        first is Next,
        second is Done,
        forall|command: Command| #[trigger]
            commands(first->Next_0, command) ==> command == (Command::ListConversations {
                include_archived: show_archived,
            }),
        after.core.conversations == list,
        after.core.current == before.core.current,
        holds_text(after.status_message@, "unarchived"@) <==> archived,
        holds_text(after.status_message@, "archived"@),
{
    reveal_strlit("Conversation unarchived");
    reveal_strlit("Conversation archived");
    reveal_strlit("unarchived");
    reveal_strlit("archived");
    let text = after.status_message@;
    if archived {
        assert(text.subrange(13, 23) =~= "unarchived"@);
        assert(stands_at(text, "unarchived"@, 13));
        assert(text.subrange(15, 23) =~= "archived"@);
        assert(stands_at(text, "archived"@, 15));
    } else {
        assert(text.subrange(13, 21) =~= "archived"@);
        assert(stands_at(text, "archived"@, 13));
        assert forall|at: int| !#[trigger] stands_at(text, "unarchived"@, at) by {
            if stands_at(text, "unarchived"@, at) {
                let part = text.subrange(at, at + 10);
                assert(part[0] == "unarchived"@[0]);
                assert(part[1] == "unarchived"@[1]);
            }
        }
    }
}

/// What the daemon refused is told, with its reason, and changes nothing else; a
/// cancellation is then no longer waited for.
pub proof fn law_refusals_are_told(
    before: App,
    after: App,
    rpc: Rpc,
    reply: RpcReply,
    step: RpcStep,
    error: String,
)
    requires
        rpc is Open || rpc is Refresh || rpc is Archive || rpc is CancelTask,
        reply == RpcReply::Opened(Err(error)) || reply == RpcReply::Listed(Err(error)) || reply
            == RpcReply::Done(Err(error)),
        leads_to(rpc, reply, step),
        outcome_shown(before, after, step->Done_0),
    ensures
        step is Done,
        !opens(step->Done_0),
        holds_text(after.status_message@, error@),
        after == (App {
            status_message: after.status_message,
            pending_task_cancel: after.pending_task_cancel,
            ..before
        }),
        !(rpc is CancelTask) ==> after.pending_task_cancel == before.pending_task_cancel,
        rpc matches Rpc::CancelTask { id } ==> opt_text(after.pending_task_cancel) != Some(id@) && (
        opt_text(before.pending_task_cancel) != Some(id@) ==> after.pending_task_cancel
            == before.pending_task_cancel),
{
    law_text_is_held("Error: "@, error@, Seq::<char>::empty());
    law_text_is_held("Error refreshing: "@, error@, Seq::<char>::empty());
    law_text_is_held("Archive error: "@, error@, Seq::<char>::empty());
    law_text_is_held("Cancel failed: "@, error@, Seq::<char>::empty());
}

/// A fetched list is shown, with the words that were asked for it.
pub proof fn law_fetched_list_is_shown(
    before: App,
    after: App,
    show_archived: bool,
    on_success: Option<String>,
    list: Vec<ConversationSummary>,
    step: RpcStep,
)
    requires
        leads_to(
            Rpc::Refresh { show_archived, on_success },
            RpcReply::Listed(Ok(list)),
            step,
        ),
        outcome_shown(before, after, step->Done_0),
    ensures
        step is Done,
        after.core.conversations == list,
        on_success matches Some(text) ==> after.status_message == text,
        on_success is None ==> after.status_message == before.status_message,
{
}

/// A cancellation that the daemon took needs nothing more: the task ends by itself.
pub proof fn law_cancellation_ends(before: App, after: App, id: String, step: RpcStep)
    requires
        leads_to(Rpc::CancelTask { id }, RpcReply::Done(Ok(())), step),
        outcome_shown(before, after, step->Done_0),
    ensures
        step is Done,
        after == before,
        !opens(step->Done_0),
{
}

} // verus!
