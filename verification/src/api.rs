//! Values exchanged with the daemon.

use vstd::prelude::*;
use crate::connections::{ConnectionConfigView, ConnectionView};
use crate::mcp::McpServerView;

verus! {

/// A row of the conversation list.
#[derive(Debug, PartialEq, Eq)]
pub struct ConversationSummary {
    pub id: String,
    pub title: String,
    pub message_count: u32,
    pub archived: bool,
}

/// How a message of the transcript is presented.
#[derive(Debug, Clone, Copy, PartialEq, Eq, Structural)]
pub enum MessageKind {
    Normal,
    /// An aside that was spoken.
    Spoken,
    /// An aside that was shown because speech is off.
    SpeechDisabled,
}

#[derive(Debug, PartialEq, Eq)]
pub struct ChatMessage {
    pub id: String,
    pub role: String,
    pub content: String,
    pub kind: MessageKind,
}

/// How much a model is asked to think.
#[derive(Debug, Clone, Copy, PartialEq, Eq, Structural)]
pub enum Effort {
    Low,
    Medium,
    High,
}

/// The model that a conversation uses.
#[derive(Debug, PartialEq, Eq)]
pub struct ConversationModelSelectionView {
    pub connection_id: String,
    pub model_id: String,
    pub effort: Option<Effort>,
}

/// The traits pinned for a conversation; a trait that is not pinned follows
/// the global disposition.
#[derive(Debug, Clone, Copy, PartialEq, Eq, Structural)]
pub struct ConversationPersonalityView {
    pub professionalism: Option<u8>,
    pub warmth: Option<u8>,
    pub directness: Option<u8>,
    pub enthusiasm: Option<u8>,
    pub humor: Option<u8>,
    pub sarcasm: Option<u8>,
    pub pretentiousness: Option<u8>,
}

impl ConversationPersonalityView {
    /// No trait is pinned.
    pub open spec fn unpinned(self) -> bool {
        self.professionalism is None && self.warmth is None && self.directness is None
            && self.enthusiasm is None && self.humor is None && self.sarcasm is None
            && self.pretentiousness is None
    }

    /// Whether every trait follows the global disposition.
    pub fn is_default(&self) -> (b: bool)
        ensures
            b == self.unpinned(),
    {
        self.professionalism.is_none() && self.warmth.is_none() && self.directness.is_none()
            && self.enthusiasm.is_none() && self.humor.is_none() && self.sarcasm.is_none()
            && self.pretentiousness.is_none()
    }
}

/// An open conversation.
#[derive(Debug, PartialEq, Eq)]
pub struct ConversationDetail {
    pub id: String,
    pub title: String,
    pub messages: Vec<ChatMessage>,
    pub model_selection: Option<ConversationModelSelectionView>,
    pub conversation_personality: Option<ConversationPersonalityView>,
}

/// A model pinned for the next prompt.
#[derive(Debug, PartialEq, Eq)]
pub struct SendPromptOverride {
    pub connection_id: String,
    pub model_id: String,
    pub effort: Option<Effort>,
}

impl Clone for SendPromptOverride {
    fn clone(&self) -> (r: Self)
        ensures
            r == *self,
    {
        SendPromptOverride {
            connection_id: self.connection_id.clone(),
            model_id: self.model_id.clone(),
            effort: self.effort,
        }
    }
}

#[derive(Debug, PartialEq, Eq)]
pub struct ModelInfoView {
    pub id: String,
    pub display_name: String,
    pub context_limit: Option<u64>,
}

/// A model that a connection offers.
#[derive(Debug, PartialEq, Eq)]
pub struct ModelListing {
    pub connection_id: String,
    pub connection_label: String,
    pub model: ModelInfoView,
}

/// An OAuth service account that servers can refer to.
#[derive(Debug, PartialEq, Eq)]
pub struct ServiceAccountView {
    pub id: String,
    pub display_name: String,
}

/// A value that is sent but never shown.
pub struct Secret(pub String);

/// How far a background task is.
#[derive(Debug, PartialEq, Eq)]
pub enum TaskStatus {
    Running,
    /// Waiting, or at its end, in the daemon's words.
    Other(String),
}

/// A background task that the daemon runs.
#[derive(Debug, PartialEq, Eq)]
pub struct TaskView {
    pub id: String,
    pub title: String,
    pub conversation_id: Option<String>,
    pub status: TaskStatus,
    pub progress_hint: Option<String>,
}

/// A request to the daemon.
pub enum Command {
    ListConversations { include_archived: bool },
    GetConversation { id: String },
    CreateConversation { title: String },
    DeleteConversation { id: String },
    RenameConversation { id: String, title: String },
    ArchiveConversation { id: String },
    UnarchiveConversation { id: String },
    SendMessage {
        conversation_id: String,
        content: String,
        override_selection: Option<SendPromptOverride>,
    },
    ListConnections,
    CreateConnection { id: String, config: ConnectionConfigView },
    UpdateConnection { id: String, config: ConnectionConfigView },
    DeleteConnection { id: String, force: bool },
    ListAvailableModels { connection_id: Option<String>, refresh: bool },
    GetPurposes,
    /// The purpose and its settings are JSON text.
    SetPurpose { purpose: String, config_json: String },
    ListMcpServers,
    ListServiceAccounts,
    SetMcpSecret { id: String, value: Secret },
    UpsertMcpServer { config_json: String },
    SetMcpServerEnabled { name: String, enabled: bool },
    RemoveMcpServer { name: String },
    ListBackgroundTasks { include_finished: bool },
    SubscribeBackgroundTasks,
    CancelBackgroundTask { id: String },
    SubscribeConversations { conversation_ids: Vec<String> },
}

/// The daemon's reply to a request.
pub enum CommandResult {
    Ack,
    Conversations(Vec<ConversationSummary>),
    Conversation(ConversationDetail),
    ConversationId { id: String },
    Connections(Vec<ConnectionView>),
    Models(Vec<ModelListing>),
    /// The purposes as JSON text.
    Purposes(String),
    McpServers(Vec<McpServerView>),
    ServiceAccounts(Vec<ServiceAccountView>),
    BackgroundTasks(Vec<TaskView>),
}

/// A personality follows the global one exactly where no trait of it is set.
pub proof fn law_set_traits_are_pinned(view: ConversationPersonalityView)
    ensures
        view.professionalism is Some || view.warmth is Some || view.directness is Some
            || view.enthusiasm is Some || view.humor is Some || view.sarcasm is Some
            || view.pretentiousness is Some <==> !view.unpinned(),
{
}

} // verus!
