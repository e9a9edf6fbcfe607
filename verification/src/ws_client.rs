//! The websocket's side of the protocol: requests that wait for their replies,
//! frames that arrive, and what a reply has to be.

use vstd::prelude::*;
use crate::api::{
    Command, CommandResult, ConversationDetail, ConversationModelSelectionView, ConversationSummary,
    ModelListing, SendPromptOverride,
};
use crate::connections::{ConnectionConfigView, ConnectionView};
use crate::text::{cat2, chars_of, owned, same};
#[allow(unused_imports)]
use crate::text::{holds_text, law_text_is_held, opt_str, opt_text};

verus! {

/// Something the daemon warns of.
#[derive(Debug, PartialEq, Eq)]
pub enum ConversationWarning {
    /// The model that the conversation was pinned to is gone; another one is used.
    DanglingModelSelection {
        previous_selection: ConversationModelSelectionView,
        fallback_to: ConversationModelSelectionView,
    },
}

#[derive(Debug, PartialEq, Eq)]
pub struct EmbeddingsSettingsView {
    pub connector: String,
    pub model: String,
    pub base_url: String,
    pub has_api_key: bool,
    pub available: bool,
    pub is_default: bool,
}

#[derive(Debug, PartialEq, Eq)]
pub struct PersistenceSettingsView {
    pub enabled: bool,
    pub remote_url: String,
    pub remote_name: String,
    pub push_on_update: bool,
}

/// The daemon's settings.
#[derive(Debug, PartialEq, Eq)]
pub struct Config {
    pub embeddings: EmbeddingsSettingsView,
    pub persistence: PersistenceSettingsView,
}

/// An event that the daemon sends.
#[derive(Debug, PartialEq, Eq)]
pub enum Event {
    AssistantDelta { conversation_id: String, request_id: String, chunk: String },
    AssistantCompleted { conversation_id: String, request_id: String, full_response: String },
    AssistantError { conversation_id: String, request_id: String, error: String },
    AssistantStatus { conversation_id: String, request_id: String, message: String },
    ConversationTitleChanged { conversation_id: String, title: String },
    ConversationWarningEmitted { conversation_id: String, warning: ConversationWarning },
    ConfigChanged { config: Config },
}

/// What the client is told.
#[derive(Debug, PartialEq, Eq)]
pub enum SignalEvent {
    Chunk { request_id: String, chunk: String },
    Complete { request_id: String, full_response: String },
    Error { request_id: String, error: String },
    Status { request_id: String, message: String },
    TitleChanged { conversation_id: String, title: String },
    ConversationWarning { conversation_id: String, warning: ConversationWarning },
    Disconnected { reason: String },
}

/// The signal for an event; changed settings are not passed on.
pub open spec fn signal_of(event: Event) -> Option<SignalEvent> {
    match event {
        Event::AssistantDelta { conversation_id, request_id, chunk } => Some(
            SignalEvent::Chunk { request_id, chunk },
        ),
        Event::AssistantCompleted { conversation_id, request_id, full_response } => Some(
            SignalEvent::Complete { request_id, full_response },
        ),
        Event::AssistantError { conversation_id, request_id, error } => Some(
            SignalEvent::Error { request_id, error },
        ),
        Event::AssistantStatus { conversation_id, request_id, message } => Some(
            SignalEvent::Status { request_id, message },
        ),
        Event::ConversationTitleChanged { conversation_id, title } => Some(
            SignalEvent::TitleChanged { conversation_id, title },
        ),
        Event::ConversationWarningEmitted { conversation_id, warning } => Some(
            SignalEvent::ConversationWarning { conversation_id, warning },
        ),
        Event::ConfigChanged { config } => None,
    }
}

/// The signal for an event.
pub fn map_event_to_signal(event: Event) -> (signal: Option<SignalEvent>)
    ensures
        signal == signal_of(event),
{
    match event {
        Event::AssistantDelta { request_id, chunk, .. } => Some(
            SignalEvent::Chunk { request_id, chunk },
        ),
        Event::AssistantCompleted { request_id, full_response, .. } => Some(
            SignalEvent::Complete { request_id, full_response },
        ),
        Event::AssistantError { request_id, error, .. } => Some(
            SignalEvent::Error { request_id, error },
        ),
        Event::AssistantStatus { request_id, message, .. } => Some(
            SignalEvent::Status { request_id, message },
        ),
        Event::ConversationTitleChanged { conversation_id, title } => Some(
            SignalEvent::TitleChanged { conversation_id, title },
        ),
        Event::ConversationWarningEmitted { conversation_id, warning } => Some(
            SignalEvent::ConversationWarning { conversation_id, warning },
        ),
        Event::ConfigChanged { .. } => None,
    }
}

/// A frame that the daemon sends.
pub enum WsFrame {
    Result { id: String, result: CommandResult },
    Error { id: String, error: String },
    Event { event: Event },
}

/// The requests that wait for a reply, each with who waits for it.
pub struct Pending<T> {
    waiting: Vec<(String, T)>,
}

/// Where a request stands from `from` on.
pub open spec fn place<T>(waiting: Seq<(Seq<char>, T)>, id: Seq<char>, from: int) -> Option<int>
    decreases waiting.len() - from,
{
    if from < 0 || from >= waiting.len() {
        None
    } else if waiting[from].0 == id {
        Some(from)
    } else {
        place(waiting, id, from + 1)
    }
}

/// No request waits twice.
pub open spec fn distinct<T>(waiting: Seq<(Seq<char>, T)>) -> bool {
    forall|i: int, j: int|
        0 <= i < j < waiting.len() ==> (#[trigger] waiting[i]).0 != (#[trigger] waiting[j]).0
}

pub proof fn lemma_place<T>(waiting: Seq<(Seq<char>, T)>, id: Seq<char>, from: int)
    requires
        0 <= from,
    ensures
        match place(waiting, id, from) {
            Some(i) => from <= i < waiting.len() && waiting[i].0 == id,
            None => forall|i: int| from <= i < waiting.len() ==> (#[trigger] waiting[i]).0 != id,
        },
    decreases waiting.len() - from,
{
    if from < waiting.len() && waiting[from].0 != id {
        lemma_place(waiting, id, from + 1);
    }
}

impl<T> View for Pending<T> {
    type V = Seq<(Seq<char>, T)>;

    closed spec fn view(&self) -> Seq<(Seq<char>, T)> {
        Seq::new(self.waiting@.len(), |i: int| (self.waiting@[i].0@, self.waiting@[i].1))
    }
}

impl<T> Pending<T> {
    pub fn new() -> (p: Self)
        ensures
            p@ == Seq::<(Seq<char>, T)>::empty(),
    {
        let p = Pending { waiting: Vec::new() };
        assert(p@ =~= Seq::<(Seq<char>, T)>::empty());
        p
    }

    fn find(&self, id: &str) -> (at: Option<usize>)
        ensures
            match at {
                Some(i) => i < self@.len() && place(self@, id@, 0) == Some(i as int),
                None => place(self@, id@, 0) is None,
            },
    {
        let mut i: usize = 0;
        while i < self.waiting.len()
            invariant
                i <= self@.len(),
                self@.len() == self.waiting@.len(),
                place(self@, id@, 0) == place(self@, id@, i as int),
            decreases self@.len() - i,
        {
            if same(self.waiting[i].0.as_str(), id) {
                return Some(i);
            }
            i += 1;
        }
        None
    }

    /// A request was sent: `waiter` waits for its reply, in the place of whoever
    /// waited for a request of the same id.
    pub fn insert(&mut self, id: String, waiter: T)
        ensures
            final(self)@ == (match place(old(self)@, id@, 0) {
                Some(i) => old(self)@.update(i, (id@, waiter)),
                None => old(self)@.push((id@, waiter)),
            }),
            distinct(old(self)@) ==> distinct(final(self)@),
    {
        proof {
            lemma_place(self@, id@, 0);
        }
        let ghost before = self@;
        match self.find(id.as_str()) {
            Some(i) => {
                self.waiting.set(i, (id, waiter));
                assert(self@ =~= before.update(i as int, (id@, waiter)));
                proof {
                    if distinct(before) {
                        assert forall|j: int, k: int| 0 <= j < k < self@.len() implies (
                        #[trigger] self@[j]).0 != (#[trigger] self@[k]).0 by {
                            assert(before[j].0 != before[k].0);
                        }
                    }
                }
            },
            None => {
                self.waiting.push((id, waiter));
                assert(self@ =~= before.push((id@, waiter)));
            },
        }
    }

    /// Who waits for a reply; the request then waits no longer.
    pub fn remove(&mut self, id: &str) -> (waiter: Option<T>)
        ensures
            match place(old(self)@, id@, 0) {
                Some(i) => waiter == Some(old(self)@[i].1) && final(self)@ == old(self)@.remove(i),
                None => waiter is None && final(self)@ == old(self)@,
            },
            distinct(old(self)@) ==> distinct(final(self)@),
    {
        proof {
            lemma_place(self@, id@, 0);
        }
        let ghost before = self@;
        match self.find(id) {
            Some(i) => {
                let (_, waiter) = self.waiting.remove(i);
                assert(self@ =~= before.remove(i as int));
                proof {
                    if distinct(before) {
                        lemma_removal_keeps_distinct(before, i as int);
                    }
                }
                Some(waiter)
            },
            None => None,
        }
    }

    /// Everyone who waits; nobody waits any longer.
    pub fn drain(&mut self) -> (waiters: Vec<T>)
        ensures
            final(self)@ == Seq::<(Seq<char>, T)>::empty(),
            waiters@ == Seq::new(old(self)@.len(), |i: int| old(self)@[i].1),
    {
        let ghost all = self@;
        let mut waiters: Vec<T> = Vec::new();
        while self.waiting.len() > 0
            invariant
                waiters@.len() + self@.len() == all.len(),
                self@ == all.skip(waiters@.len() as int),
                self@.len() == self.waiting@.len(),
                forall|i: int| 0 <= i < waiters@.len() ==> #[trigger] waiters@[i] == all[i].1,
            decreases self.waiting@.len(),
        {
            let ghost left = self@;
            let (_, waiter) = self.waiting.remove(0);
            assert(left[0] == all[waiters@.len() as int]);
            waiters.push(waiter);
            assert(self@ =~= left.skip(1));
            assert(self@ =~= all.skip(waiters@.len() as int));
        }
        assert(self@ =~= Seq::<(Seq<char>, T)>::empty());
        assert(waiters@ =~= Seq::new(all.len(), |i: int| all[i].1));
        waiters
    }
}

proof fn lemma_removal_keeps_distinct<T>(waiting: Seq<(Seq<char>, T)>, at: int)
    requires
        distinct(waiting),
        0 <= at < waiting.len(),
    ensures
        distinct(waiting.remove(at)),
        forall|i: int|
            0 <= i < waiting.len() - 1 ==> (#[trigger] waiting.remove(at)[i]).0 != waiting[at].0,
{
    let rest = waiting.remove(at);
    assert forall|i: int| 0 <= i < rest.len() implies (#[trigger] rest[i]).0 != waiting[at].0 by {
        if i < at {
            assert(rest[i] == waiting[i]);
        } else {
            assert(rest[i] == waiting[i + 1]);
        }
    }
    assert forall|i: int, j: int| 0 <= i < j < rest.len() implies (#[trigger] rest[i]).0 != (
    #[trigger] rest[j]).0 by {
        let a = if i < at {
            i
        } else {
            i + 1
        };
        let b = if j < at {
            j
        } else {
            j + 1
        };
        assert(rest[i] == waiting[a] && rest[j] == waiting[b]);
    }
}

/// Where a frame goes.
pub enum Delivery<T> {
    /// To the one who waits for it.
    Answer { to: T, answer: Result<CommandResult, String> },
    Signal(SignalEvent),
    /// Nobody waits for it.
    Dropped,
}

/// The reply in a frame, with the id of its request.
pub open spec fn reply_of(frame: WsFrame) -> Option<(Seq<char>, Result<CommandResult, String>)> {
    match frame {
        WsFrame::Result { id, result } => Some((id@, Ok(result))),
        WsFrame::Error { id, error } => Some((id@, Err(error))),
        WsFrame::Event { .. } => None,
    }
}

/// Where a frame goes, and who still waits then.
pub open spec fn delivered<T>(
    before: Seq<(Seq<char>, T)>,
    frame: WsFrame,
    after: Seq<(Seq<char>, T)>,
    d: Delivery<T>,
) -> bool {
    match reply_of(frame) {
        Some((id, reply)) => match place(before, id, 0) {
            Some(i) => {
                &&& after == before.remove(i)
                &&& d == (Delivery::Answer { to: before[i].1, answer: reply })
            },
            None => after == before && d is Dropped,
        },
        None => {
            &&& after == before
            &&& match signal_of(frame->event) {
                Some(signal) => d == Delivery::<T>::Signal(signal),
                None => d is Dropped,
            }
        },
    }
}

/// Hands a frame on: a reply to the one who waits for it, an event as a signal.
pub fn deliver<T>(pending: &mut Pending<T>, frame: WsFrame) -> (d: Delivery<T>)
    ensures
        delivered(old(pending)@, frame, final(pending)@, d),
        distinct(old(pending)@) ==> distinct(final(pending)@),
{
    match frame {
        WsFrame::Result { id, result } => match pending.remove(id.as_str()) {
            Some(to) => Delivery::Answer { to, answer: Ok(result) },
            None => Delivery::Dropped,
        },
        WsFrame::Error { id, error } => match pending.remove(id.as_str()) {
            Some(to) => Delivery::Answer { to, answer: Err(error) },
            None => Delivery::Dropped,
        },
        WsFrame::Event { event } => match map_event_to_signal(event) {
            Some(signal) => Delivery::Signal(signal),
            None => Delivery::Dropped,
        },
    }
}

/// The websocket was closed: the signal for the client, and everyone who still
/// waits, to be told `disconnect_error`.
pub fn closed<T>(pending: &mut Pending<T>) -> (r: (SignalEvent, Vec<T>))
    ensures
        r.0 matches SignalEvent::Disconnected { reason } && reason@
            == "WebSocket connection closed"@,
        r.1@ == Seq::new(old(pending)@.len(), |i: int| old(pending)@[i].1),
        final(pending)@ == Seq::<(Seq<char>, T)>::empty(),
{
    let signal = SignalEvent::Disconnected { reason: "WebSocket connection closed".to_owned() };
    (signal, pending.drain())
}

/// What everyone who waits is told when the websocket is closed.
pub fn disconnect_error() -> (s: &'static str)
    ensures
        s@ == "websocket disconnected"@,
{
    "websocket disconnected"
}

/// How waiting for a reply ended.
pub enum Waited {
    /// The request could not be sent.
    NotSent,
    Answered(Result<CommandResult, String>),
    /// Nobody was left to answer.
    Closed,
}

/// What a request came to.
pub fn command_outcome(waited: Waited) -> (r: Result<CommandResult, String>)
    ensures
        match waited {
            Waited::NotSent => r matches Err(e) && e@ == "failed to send websocket request"@,
            Waited::Answered(reply) => r == reply,
            Waited::Closed => r matches Err(e) && e@ == "websocket response channel closed"@,
        },
{
    match waited {
        Waited::NotSent => Err("failed to send websocket request".to_owned()),
        Waited::Answered(reply) => reply,
        Waited::Closed => Err("websocket response channel closed".to_owned()),
    }
}

/// Whether a websocket's address asks for TLS.
pub fn uses_tls(ws_url: &str) -> (b: bool)
    ensures
        b == (ws_url@.len() >= 6 && ws_url@.take(6) == "wss://"@),
{
    let url = chars_of(ws_url);
    let head = chars_of("wss://");
    proof {
        reveal_strlit("wss://");
    }
    if url.len() < head.len() {
        return false;
    }
    let mut i: usize = 0;
    while i < head.len()
        invariant
            i <= head@.len(),
            url@ == ws_url@,
            head@ == "wss://"@,
            head@.len() == 6,
            url@.len() >= 6,
            forall|j: int| 0 <= j < i ==> url@[j] == head@[j],
        decreases head@.len() - i,
    {
        if url[i] != head[i] {
            assert(ws_url@.take(6)[i as int] != "wss://"@[i as int]);
            return false;
        }
        i += 1;
    }
    assert(ws_url@.take(6) =~= "wss://"@);
    true
}

/// The authorization header of the handshake.
pub fn authorization(bearer_token: &str) -> (s: String)
    ensures
        s@ == "Bearer "@ + bearer_token@,
{
    cat2("Bearer ", bearer_token)
}

/// The request for the conversations that are not archived.
pub fn list_conversations() -> (c: Command)
    ensures
        c == (Command::ListConversations { include_archived: false }),
{
    Command::ListConversations { include_archived: false }
}

/// The request for all conversations.
pub fn list_conversations_with_archived() -> (c: Command)
    ensures
        c == (Command::ListConversations { include_archived: true }),
{
    Command::ListConversations { include_archived: true }
}

/// The request for a conversation with its messages.
pub fn get_conversation(id: &str) -> (c: Command)
    ensures
        c matches Command::GetConversation { id: i } && i@ == id@,
{
    Command::GetConversation { id: id.to_owned() }
}

/// The request to start a conversation.
pub fn create_conversation(title: &str) -> (c: Command)
    ensures
        c matches Command::CreateConversation { title: t } && t@ == title@,
{
    Command::CreateConversation { title: title.to_owned() }
}

/// The request to delete a conversation.
pub fn delete_conversation(id: &str) -> (c: Command)
    ensures
        c matches Command::DeleteConversation { id: i } && i@ == id@,
{
    Command::DeleteConversation { id: id.to_owned() }
}

/// The request to give a conversation another title.
pub fn rename_conversation(id: &str, title: &str) -> (c: Command)
    ensures
        c matches Command::RenameConversation { id: i, title: t } && i@ == id@ && t@ == title@,
{
    Command::RenameConversation { id: id.to_owned(), title: title.to_owned() }
}

/// The request to archive a conversation.
pub fn archive_conversation(id: &str) -> (c: Command)
    ensures
        c matches Command::ArchiveConversation { id: i } && i@ == id@,
{
    Command::ArchiveConversation { id: id.to_owned() }
}

/// The request to bring an archived conversation back.
pub fn unarchive_conversation(id: &str) -> (c: Command)
    ensures
        c matches Command::UnarchiveConversation { id: i } && i@ == id@,
{
    Command::UnarchiveConversation { id: id.to_owned() }
}

/// The request to send a prompt, pinned to a model or not.
pub fn send_prompt_with_override(
    conversation_id: &str,
    prompt: &str,
    override_selection: Option<SendPromptOverride>,
) -> (c: Command)
    ensures
        c matches Command::SendMessage { conversation_id: id, content, override_selection: o } && id@
            == conversation_id@ && content@ == prompt@ && o == override_selection,
{
    Command::SendMessage {
        conversation_id: conversation_id.to_owned(),
        content: prompt.to_owned(),
        override_selection,
    }
}

/// The request to send a prompt to the conversation's own model.
pub fn send_prompt(conversation_id: &str, prompt: &str) -> (c: Command)
    ensures
        c matches Command::SendMessage { conversation_id: id, content, override_selection: o } && id@
            == conversation_id@ && content@ == prompt@ && o is None,
{
    send_prompt_with_override(conversation_id, prompt, None)
}

/// The request for the connections to providers of models.
pub fn list_connections() -> (c: Command)
    ensures
        c == Command::ListConnections,
{
    Command::ListConnections
}

/// The request to set a connection up.
pub fn create_connection(id: &str, config: ConnectionConfigView) -> (c: Command)
    ensures
        c matches Command::CreateConnection { id: i, config: g } && i@ == id@ && g == config,
{
    Command::CreateConnection { id: id.to_owned(), config }
}

/// The request to change a connection.
pub fn update_connection(id: &str, config: ConnectionConfigView) -> (c: Command)
    ensures
        c matches Command::UpdateConnection { id: i, config: g } && i@ == id@ && g == config,
{
    Command::UpdateConnection { id: id.to_owned(), config }
}

/// The request to remove a connection, also one in use where it is forced.
pub fn delete_connection(id: &str, force: bool) -> (c: Command)
    ensures
        c matches Command::DeleteConnection { id: i, force: f } && i@ == id@ && f == force,
{
    Command::DeleteConnection { id: id.to_owned(), force }
}

/// The request for the models of one connection, or of all of them.
pub fn list_available_models(connection_id: Option<&str>, refresh: bool) -> (c: Command)
    ensures
        c matches Command::ListAvailableModels { connection_id: i, refresh: f } && opt_text(i)
            == opt_str(connection_id) && f == refresh,
{
    Command::ListAvailableModels { connection_id: owned(connection_id), refresh }
}

/// The request for what each purpose uses.
pub fn get_purposes() -> (c: Command)
    ensures
        c == Command::GetPurposes,
{
    Command::GetPurposes
}

/// The request to change what a purpose uses.
pub fn set_purpose(purpose: &str, config_json: &str) -> (c: Command)
    ensures
        c matches Command::SetPurpose { purpose: p, config_json: g } && p@ == purpose@ && g@
            == config_json@,
{
    Command::SetPurpose { purpose: purpose.to_owned(), config_json: config_json.to_owned() }
}

/// The error for a reply of the wrong kind to `op`.
pub open spec fn unexpected(op: Seq<char>) -> Seq<char> {
    "unexpected websocket response for "@ + op
}

fn unexpected_reply(op: &str) -> (s: String)
    ensures
        s@ == unexpected(op@),
{
    cat2("unexpected websocket response for ", op)
}

/// A reply that has to be an acknowledgement.
pub fn expect_ack(reply: CommandResult, op: &str) -> (r: Result<(), String>)
    ensures
        match reply {
            CommandResult::Ack => r is Ok,
            _ => r matches Err(e) && e@ == unexpected(op@),
        },
{
    match reply {
        CommandResult::Ack => Ok(()),
        _ => Err(unexpected_reply(op)),
    }
}

/// The reply to a prompt. Its request id is not known yet: the first event of
/// the answer carries it.
pub fn expect_sent(reply: CommandResult) -> (r: Result<String, String>)
    ensures
        match reply {
            CommandResult::Ack => r matches Ok(id) && id@ == Seq::<char>::empty(),
            _ => r matches Err(e) && e@ == unexpected("send_prompt"@),
        },
{
    match reply {
        CommandResult::Ack => Ok(String::new()),
        _ => Err(unexpected_reply("send_prompt")),
    }
}

/// A reply that has to be a list of conversations.
pub fn expect_conversations(reply: CommandResult) -> (r: Result<Vec<ConversationSummary>, String>)
    ensures
        match reply {
            CommandResult::Conversations(items) => r
                == Ok::<Vec<ConversationSummary>, String>(items),
            _ => r matches Err(e) && e@ == unexpected("list_conversations"@),
        },
{
    match reply {
        CommandResult::Conversations(items) => Ok(items),
        _ => Err(unexpected_reply("list_conversations")),
    }
}

/// A reply that has to be a conversation.
pub fn expect_conversation(reply: CommandResult) -> (r: Result<ConversationDetail, String>)
    ensures
        match reply {
            CommandResult::Conversation(conversation) => r
                == Ok::<ConversationDetail, String>(conversation),
            _ => r matches Err(e) && e@ == unexpected("get_conversation"@),
        },
{
    match reply {
        CommandResult::Conversation(conversation) => Ok(conversation),
        _ => Err(unexpected_reply("get_conversation")),
    }
}

/// A reply that has to be the id of a new conversation.
pub fn expect_conversation_id(reply: CommandResult) -> (r: Result<String, String>)
    ensures
        match reply {
            CommandResult::ConversationId { id } => r == Ok::<String, String>(id),
            _ => r matches Err(e) && e@ == unexpected("create_conversation"@),
        },
{
    match reply {
        CommandResult::ConversationId { id } => Ok(id),
        _ => Err(unexpected_reply("create_conversation")),
    }
}

/// A reply that has to be a list of connections.
pub fn expect_connections(reply: CommandResult) -> (r: Result<Vec<ConnectionView>, String>)
    ensures
        match reply {
            CommandResult::Connections(items) => r == Ok::<Vec<ConnectionView>, String>(items),
            _ => r matches Err(e) && e@ == unexpected("list_connections"@),
        },
{
    match reply {
        CommandResult::Connections(items) => Ok(items),
        _ => Err(unexpected_reply("list_connections")),
    }
}

/// A reply that has to be a list of models.
pub fn expect_models(reply: CommandResult) -> (r: Result<Vec<ModelListing>, String>)
    ensures
        match reply {
            CommandResult::Models(items) => r == Ok::<Vec<ModelListing>, String>(items),
            _ => r matches Err(e) && e@ == unexpected("list_available_models"@),
        },
{
    match reply {
        CommandResult::Models(items) => Ok(items),
        _ => Err(unexpected_reply("list_available_models")),
    }
}

/// A reply that has to be the purposes.
pub fn expect_purposes(reply: CommandResult) -> (r: Result<String, String>)
    ensures
        match reply {
            CommandResult::Purposes(view) => r == Ok::<String, String>(view),
            _ => r matches Err(e) && e@ == unexpected("get_purposes"@),
        },
{
    match reply {
        CommandResult::Purposes(view) => Ok(view),
        _ => Err(unexpected_reply("get_purposes")),
    }
}

/// A reply goes to the one who waits for the request of its id, and only once:
/// the same reply is dropped when it comes again. Whoever waits for another
/// request keeps waiting.
pub proof fn law_replies_reach_their_request<T>(
    before: Seq<(Seq<char>, T)>,
    frame: WsFrame,
    after: Seq<(Seq<char>, T)>,
    d: Delivery<T>,
    again: Seq<(Seq<char>, T)>,
    e: Delivery<T>,
    other: int,
)
    requires
        distinct(before),
        delivered(before, frame, after, d),
        reply_of(frame) is Some,
        delivered(after, frame, again, e),
        0 <= other < before.len(),
    ensures
        before[other].0 == (reply_of(frame)->0).0 ==> d == (Delivery::Answer {
            to: before[other].1,
            answer: (reply_of(frame)->0).1,
        }),
        before[other].0 != (reply_of(frame)->0).0 ==> after.contains(before[other]),
        e is Dropped && again == after,
{
    let id = (reply_of(frame)->0).0;
    lemma_place(before, id, 0);
    lemma_place(after, id, 0);
    match place(before, id, 0) {
        Some(at) => {
            lemma_removal_keeps_distinct(before, at);
            if other < at {
                assert(after[other] == before[other]);
            } else if other > at {
                assert(after[other - 1] == before[other]);
            }
        },
        None => {
            assert(after[other] == before[other]);
        },
    }
}

/// Every event of a turn reaches the client as the signal of its own kind, with its
/// request and its text; a changed title and a warning with their conversation; changed
/// settings alone are kept back.
pub proof fn law_events_become_their_signals(event: Event)
    ensures
        signal_of(event) is None <==> event is ConfigChanged,
        event matches Event::AssistantDelta { request_id, chunk, .. } ==> signal_of(event) == Some(
            SignalEvent::Chunk { request_id, chunk },
        ),
        event matches Event::AssistantCompleted { request_id, full_response, .. } ==> signal_of(
            event,
        ) == Some(SignalEvent::Complete { request_id, full_response }),
        event matches Event::AssistantError { request_id, error, .. } ==> signal_of(event) == Some(
            SignalEvent::Error { request_id, error },
        ),
        event matches Event::AssistantStatus { request_id, message, .. } ==> signal_of(event)
            == Some(SignalEvent::Status { request_id, message }),
        event matches Event::ConversationTitleChanged { conversation_id, title } ==> signal_of(
            event,
        ) == Some(SignalEvent::TitleChanged { conversation_id, title }),
        event matches Event::ConversationWarningEmitted { conversation_id, warning } ==> signal_of(
            event,
        ) == Some(SignalEvent::ConversationWarning { conversation_id, warning }),
        !(signal_of(event) matches Some(SignalEvent::Disconnected { .. })),
{
}

/// A frame carries the reply to its own request: a result as one that went well, an error
/// as one that did not, and an event is no reply.
pub proof fn law_frames_carry_their_reply(frame: WsFrame)
    ensures
        frame matches WsFrame::Result { id, result } ==> (reply_of(frame) matches Some((to, reply))
            && to == id@ && reply == Ok::<CommandResult, String>(result)),
        frame matches WsFrame::Error { id, error } ==> (reply_of(frame) matches Some((to, reply))
            && to == id@ && reply == Err::<CommandResult, String>(error)),
        frame is Event <==> reply_of(frame) is None,
{
}

/// An event takes nothing from those who wait, and reaches the client where it has a
/// signal; a reply that nobody waits for is dropped.
pub proof fn law_events_reach_the_client<T>(
    before: Seq<(Seq<char>, T)>,
    frame: WsFrame,
    after: Seq<(Seq<char>, T)>,
    d: Delivery<T>,
)
    requires
        delivered(before, frame, after, d),
    ensures
        frame matches WsFrame::Event { event } ==> after == before && (signal_of(event) matches Some(
            signal,
        ) ==> d == Delivery::<T>::Signal(signal)),
        frame is Event && !(d is Signal) ==> d is Dropped,
        reply_of(frame) matches Some((id, reply)) ==> ((forall|i: int|
            0 <= i < before.len() ==> (#[trigger] before[i]).0 != id) ==> d is Dropped && after
            == before),
        reply_of(frame) matches Some((id, reply)) ==> ((exists|i: int|
            0 <= i < before.len() && (#[trigger] before[i]).0 == id) ==> d is Answer && after.len()
            + 1 == before.len()),
        d is Signal ==> frame is Event,
{
    match reply_of(frame) {
        Some((id, reply)) => lemma_place(before, id, 0),
        None => {},
    }
}

/// A request is found where it stands, the first of its id.
pub proof fn law_requests_are_found<T>(waiting: Seq<(Seq<char>, T)>, id: Seq<char>)
    ensures
        place(waiting, id, 0) is Some <==> exists|i: int|
            0 <= i < waiting.len() && (#[trigger] waiting[i]).0 == id,
        place(waiting, id, 0) matches Some(i) ==> 0 <= i < waiting.len() && waiting[i].0 == id,
{
    lemma_place(waiting, id, 0);
    if exists|i: int| 0 <= i < waiting.len() && (#[trigger] waiting[i]).0 == id {
        assert(place(waiting, id, 0) is Some);
    }
}

/// An unexpected reply is told with the request that it came to.
pub proof fn law_unexpected_reply_names_the_request(op: Seq<char>)
    ensures
        holds_text(unexpected(op), op),
{
    law_text_is_held("unexpected websocket response for "@, op, Seq::<char>::empty());
}

} // verus!
