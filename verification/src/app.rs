//! State of the chat window.
//!
//! The window holds its own view state (selection, scroll, mode, status lines)
//! and the chat that the shared reducer works on: the conversation list, the
//! open conversation, the reply that is streaming in, the queued messages and
//! what is kept per conversation. The reducer runs outside; its reply is applied
//! here.

use vstd::prelude::*;
use crate::api::{
    ChatMessage, ConversationDetail, ConversationModelSelectionView, ConversationPersonalityView,
    ConversationSummary, MessageKind, SendPromptOverride,
};
use crate::area::{
    area_of, content, cursor_of, insert_text, lines_of, move_caret, new_textarea, plain_cursor_line,
    textarea_with, Area, CaretMove,
};
#[allow(unused_imports)]
use crate::area::{
    area_cursor, area_lines, area_mask, area_ready, area_text, cursor_after, inserted_lines,
    kept_cursor, kept_lines, law_text_survives_an_area, moved, no_return_ends_a_line, spliced, text_end,
};
use crate::ids::IdMap;
use crate::tasks::TaskPane;
use crate::text::{cat3, join, keep_nonempty, same, split, trim, Separator};
#[allow(unused_imports)]
use crate::text::{
    joined, law_joined_text, law_nonempty_pieces_are_runs, nonempty, opt_text, pieces, trimmed,
};
use crate::voice::AdeleOutput;
use crate::wrap::wrap_display;
#[allow(unused_imports)]
use crate::wrap::{shown_cursor, wrapped_lines};

verus! {

#[derive(Debug, Clone, Copy, PartialEq, Eq, Structural)]
pub enum InputMode {
    Normal,
    Editing,
    Renaming,
}

/// A screen that the user asked to open over the chat.
#[derive(Debug, Clone, Copy, PartialEq, Eq, Structural)]
pub enum ScreenRequest {
    KnowledgeBase,
    Connections,
    Purposes,
    McpServers,
    ModelPicker,
    PersonalityPicker,
}

/// What a step down the queue of waiting messages leads to.
#[derive(Debug, Clone, Copy, PartialEq, Eq, Structural)]
pub enum RecallNext {
    /// The waiting message at this place is taken up for editing.
    Edit(usize),
    /// Behind the newest message: the one in hand goes back, the composer empties.
    Cancel,
    /// No waiting message is in hand.
    Stay,
}

/// The waiting message that a step up takes: the one before the message in hand,
/// else the newest. At the front, or without waiting messages, there is none.
pub fn recall_prev_index(queued_len: usize, editing: Option<usize>) -> (at: Option<usize>)
    ensures
        at == (match editing {
            Some(i) => if i == 0 {
                None::<usize>
            } else {
                Some((i - 1) as usize)
            },
            None => if queued_len == 0 {
                None::<usize>
            } else {
                Some((queued_len - 1) as usize)
            },
        }),
{
    match editing {
        Some(i) => if i == 0 {
            None
        } else {
            Some(i - 1)
        },
        None => if queued_len == 0 {
            None
        } else {
            Some(queued_len - 1)
        },
    }
}

/// Where a step down leads. The message in hand is not counted in `queued_len`.
pub fn recall_next_action(queued_len: usize, editing: Option<usize>) -> (next: RecallNext)
    ensures
        next == (match editing {
            Some(i) => if i < queued_len {
                RecallNext::Edit((i + 1) as usize)
            } else {
                RecallNext::Cancel
            },
            None => RecallNext::Stay,
        }),
{
    match editing {
        Some(i) => if i < queued_len {
            RecallNext::Edit(i + 1)
        } else {
            RecallNext::Cancel
        },
        None => RecallNext::Stay,
    }
}

/// How full the context window of a conversation is.
#[derive(Debug, Clone, Copy, PartialEq, Eq, Structural)]
pub struct ContextUsageView {
    pub used_tokens: u64,
    pub budget_tokens: u64,
    pub compaction_active: bool,
}

/// A reply that is streaming in: the conversation it belongs to and what has
/// arrived.
pub struct Stream {
    pub conversation_id: String,
    pub buffer: String,
}

/// The chat that the shared reducer works on.
pub struct Core {
    pub conversations: Vec<ConversationSummary>,
    pub current: Option<ConversationDetail>,
    pub stream: Option<Stream>,
    pub queued: Vec<String>,
    pub editing_queued: Option<usize>,
    pub voice_in: IdMap<bool>,
    pub adele_output: IdMap<AdeleOutput>,
    pub drafts: IdMap<String>,
}

/// What the shared reducer is told.
pub enum UiMessage {
    SubmitPrompt { prompt: String },
    SendFailed { conversation_id: String, prompt: String },
    UserMessageAdded { conversation_id: String, request_id: String, content: String },
    StreamChunk { request_id: String, chunk: String },
    StreamComplete { request_id: String, full_response: String },
    StreamError { request_id: String, error: String },
    AssistantStatus { request_id: String, message: String },
    EditQueued { index: usize },
    CancelQueuedEdit,
}

/// What the shared reducer asks for.
#[derive(Debug)]
pub enum Effect {
    ReceiveChunk(String),
    CompleteStreaming(String),
    AddUserMessage(String),
    SetChatStatus(String),
    ClearChatStatus,
    SetComposerText(String),
    SetQueuedMessages,
    SetContextUsage(Option<ContextUsageView>),
    SetStatusText(String),
    SetConversations(Vec<ConversationSummary>),
    EnsureActiveConversation,
    ClearChat,
    SidePaneSetScratchpad,
    RefreshSidePaneTasks,
    FetchScratchpad,
    /// Read a reply aloud.
    Speak(String),
    /// Send a prompt to the daemon.
    SendPrompt { conversation_id: String, prompt: String, system_refinement: Option<String> },
}

/// The reducer's reply: the chat after a message, and what is to be done.
pub struct CoreReply {
    pub current: Option<ConversationDetail>,
    pub stream: Option<Stream>,
    pub queued: Vec<String>,
    pub editing_queued: Option<usize>,
    pub effects: Vec<Effect>,
}

pub struct App {
    pub selected_conversation: Option<usize>,
    /// The composer.
    pub textarea: Area,
    pub mode: InputMode,
    pub status_message: String,
    /// Whether the daemon can be reached.
    pub connected: bool,
    pub should_quit: bool,
    /// Whether the key help is shown. Any key closes it.
    pub show_help: bool,
    /// The title of the conversation that is to be deleted once confirmed.
    pub pending_delete_conversation: Option<String>,
    /// Lines scrolled up from the bottom.
    pub scroll_offset: u16,
    pub show_archived: bool,
    pub rename_textarea: Area,
    /// The conversation that is being renamed.
    pub renaming_id: Option<String>,
    /// Whether tool and system messages are shown.
    pub show_debug: bool,
    /// Whether device information is shared with the assistant at connect.
    pub share_client_context: bool,
    /// What the assistant is doing, while it does it.
    pub assistant_status: Option<String>,
    pub context_usage: Option<ContextUsageView>,
    pub show_sidebar: bool,
    pub switch_requested: bool,
    /// The conversation list is to be fetched again.
    pub pending_conversation_refresh: bool,
    pub pending_screen: Option<ScreenRequest>,
    /// The model for the next prompt.
    pub pending_model_override: Option<SendPromptOverride>,
    pub tasks: TaskPane,
    /// The task whose cancellation was asked for.
    pub pending_task_cancel: Option<String>,
    pub core: Core,
}

/// The place of the first conversation with this id; the length where there is
/// none.
pub open spec fn conversation_place(convs: Seq<ConversationSummary>, id: Seq<char>) -> int
    decreases convs.len(),
{
    if convs.len() == 0 || convs[0].id@ == id {
        0
    } else {
        1 + conversation_place(convs.skip(1), id)
    }
}

pub open spec fn listed(convs: Seq<ConversationSummary>, id: Seq<char>) -> bool {
    0 <= conversation_place(convs, id) < convs.len()
}

/// The rows of all other conversations.
pub open spec fn other_conversations(convs: Seq<ConversationSummary>, id: Seq<char>) -> Seq<
    ConversationSummary,
>
    decreases convs.len(),
{
    if convs.len() == 0 {
        convs
    } else {
        let n = convs.len() - 1;
        let before = other_conversations(convs.take(n), id);
        if convs[n].id@ == id {
            before
        } else {
            before.push(convs[n])
        }
    }
}

/// The rows with the title of one conversation changed.
pub open spec fn retitled(
    before: Seq<ConversationSummary>,
    after: Seq<ConversationSummary>,
    id: Seq<char>,
    title: Seq<char>,
) -> bool {
    &&& after.len() == before.len()
    &&& forall|i: int|
        0 <= i < before.len() ==> {
            if before[i].id@ == id {
                &&& (#[trigger] after[i]).title@ == title
                &&& after[i] == (ConversationSummary { title: after[i].title, ..before[i] })
            } else {
                after[i] == before[i]
            }
        }
}

/// The selection in a list of `len` rows: kept where it is in the list, else the
/// last row.
pub open spec fn clamped(selected: Option<usize>, len: nat) -> Option<usize> {
    match selected {
        Some(i) => if i < len {
            selected
        } else if len == 0 {
            None
        } else {
            Some((len - 1) as usize)
        },
        None => None,
    }
}

/// The saved drafts as text.
pub open spec fn draft_texts(drafts: Map<Seq<char>, String>) -> Map<Seq<char>, Seq<char>> {
    drafts.map_values(|s: String| s@)
}

/// The drafts after `text` was saved for a conversation; an empty draft is
/// forgotten.
pub open spec fn with_draft(
    drafts: Map<Seq<char>, Seq<char>>,
    id: Seq<char>,
    text: Seq<char>,
) -> Map<Seq<char>, Seq<char>> {
    if text.len() == 0 {
        drafts.remove(id)
    } else {
        drafts.insert(id, text)
    }
}

/// The draft of a conversation: empty where none is saved.
pub open spec fn draft_of(drafts: Map<Seq<char>, Seq<char>>, id: Seq<char>) -> Seq<char> {
    if drafts.contains_key(id) {
        drafts[id]
    } else {
        Seq::<char>::empty()
    }
}

/// An area that holds `text`, with the cursor behind it and nothing selected.
pub open spec fn holds(area: Area, text: Seq<char>) -> bool {
    &&& area_lines(area) == inserted_lines(text)
    &&& area_cursor(area) == text_end(inserted_lines(text))
    &&& area_ready(area)
}

/// An empty area.
pub open spec fn empty_area(area: Area) -> bool {
    &&& area_lines(area) == seq![Seq::<char>::empty()]
    &&& area_cursor(area) == (0nat, 0nat)
    &&& area_ready(area)
}

/// `text` was inserted at the cursor, in place of the selected text.
pub open spec fn typed_into(before: Area, after: Area, text: Seq<char>) -> bool {
    &&& area_lines(after) == spliced(kept_lines(before), kept_cursor(before), inserted_lines(text))
    &&& area_cursor(after) == cursor_after(kept_cursor(before), inserted_lines(text))
    &&& area_mask(after) == area_mask(before)
    &&& area_ready(after)
}

/// Nothing but the status line changed; it reads `text`.
pub open spec fn told(before: App, after: App, text: Seq<char>) -> bool {
    &&& after.status_message@ == text
    &&& after == (App { status_message: after.status_message, ..before })
}

/// Nothing but the line that says what the assistant does changed: it reads
/// `message`, or is gone where that is blank.
pub open spec fn noted(before: App, after: App, message: Seq<char>) -> bool {
    &&& opt_text(after.assistant_status) == (if trimmed(message).len() == 0 {
        None
    } else {
        Some(message)
    })
    &&& after == (App { assistant_status: after.assistant_status, ..before })
}

pub fn find_conversation(convs: &Vec<ConversationSummary>, id: &str) -> (at: usize)
    ensures
        at == conversation_place(convs@, id@),
        at <= convs@.len(),
{
    let mut i: usize = 0;
    assert(convs@.skip(0) =~= convs@);
    while i < convs.len()
        invariant
            i <= convs@.len(),
            conversation_place(convs@, id@) == i + conversation_place(convs@.skip(i as int), id@),
        decreases convs@.len() - i,
    {
        if same(convs[i].id.as_str(), id) {
            return i;
        }
        assert(convs@.skip(i as int).skip(1) =~= convs@.skip(i + 1));
        i += 1;
    }
    i
}

impl App {
    /// The id of the open conversation.
    pub open spec fn open_id(self) -> Option<Seq<char>> {
        match self.core.current {
            Some(c) => Some(c.id@),
            None => None,
        }
    }

    /// Whether speech input is on in a conversation. It is off by default.
    pub open spec fn hears(self, id: Seq<char>) -> bool {
        self.core.voice_in@.contains_key(id) && self.core.voice_in@[id]
    }

    /// How much Adele speaks in a conversation. By default she does not.
    pub open spec fn output_level(self, id: Seq<char>) -> AdeleOutput {
        if self.core.adele_output@.contains_key(id) {
            self.core.adele_output@[id]
        } else {
            AdeleOutput::Disabled
        }
    }

    /// Asides of a conversation are spoken.
    pub open spec fn speaks_asides(self, id: Seq<char>) -> bool {
        self.output_level(id) == AdeleOutput::OnDemand
    }

    /// The reply that streams in belongs to the open conversation.
    pub open spec fn streams_here(self) -> bool {
        &&& self.core.stream is Some
        &&& self.open_id() == Some(self.core.stream->0.conversation_id@)
    }

    /// The selected conversation is in the list.
    pub open spec fn on_conversation(self) -> bool {
        self.selected_conversation is Some && self.selected_conversation->0
            < self.core.conversations@.len()
    }

    /// The selected conversation.
    pub open spec fn conversation(self) -> ConversationSummary {
        self.core.conversations@[self.selected_conversation->0 as int]
    }

    /// A window right after the start.
    pub open spec fn fresh(self) -> bool {
        &&& self.selected_conversation is None
        &&& empty_area(self.textarea)
        &&& self.mode == InputMode::Normal
        &&& self.status_message@ == "Connected"@
        &&& self.connected
        &&& !self.should_quit
        &&& !self.show_help
        &&& self.pending_delete_conversation is None
        &&& self.scroll_offset == 0
        &&& !self.show_archived
        &&& empty_area(self.rename_textarea)
        &&& self.renaming_id is None
        &&& !self.show_debug
        &&& self.share_client_context
        &&& self.assistant_status is None
        &&& self.context_usage is None
        &&& self.show_sidebar
        &&& !self.switch_requested
        &&& !self.pending_conversation_refresh
        &&& self.pending_screen is None
        &&& self.pending_model_override is None
        &&& self.tasks.rows@.len() == 0 && self.tasks.selected is None && !self.tasks.visible
        &&& self.pending_task_cancel is None
        &&& self.core.conversations@.len() == 0
        &&& self.core.current is None
        &&& self.core.stream is None
        &&& self.core.queued@.len() == 0
        &&& self.core.editing_queued is None
        &&& self.core.voice_in@ == Map::<Seq<char>, bool>::empty()
        &&& self.core.adele_output@ == Map::<Seq<char>, AdeleOutput>::empty()
        &&& self.core.drafts@ == Map::<Seq<char>, String>::empty()
    }

    pub fn new() -> (app: App)
        ensures
            app.fresh(),
    {
        App {
            selected_conversation: None,
            textarea: new_textarea(),
            mode: InputMode::Normal,
            status_message: "Connected".to_owned(),
            connected: true,
            should_quit: false,
            show_help: false,
            pending_delete_conversation: None,
            scroll_offset: 0,
            show_archived: false,
            rename_textarea: new_textarea(),
            renaming_id: None,
            show_debug: false,
            share_client_context: true,
            assistant_status: None,
            context_usage: None,
            show_sidebar: true,
            switch_requested: false,
            pending_conversation_refresh: false,
            pending_screen: None,
            pending_model_override: None,
            tasks: TaskPane::new(),
            pending_task_cancel: None,
            core: Core {
                conversations: Vec::new(),
                current: None,
                stream: None,
                queued: Vec::new(),
                editing_queued: None,
                voice_in: IdMap::new(),
                adele_output: IdMap::new(),
                drafts: IdMap::new(),
            },
        }
    }

    /// Opens the key help, or closes it.
    pub fn toggle_help(&mut self)
        ensures
            *final(self) == (App { show_help: !old(self).show_help, ..*old(self) }),
    {
        self.show_help = !self.show_help;
    }

    /// Asks for a screen. A newer request replaces one that was not served yet.
    pub fn request_screen(&mut self, screen: ScreenRequest)
        ensures
            *final(self) == (App { pending_screen: Some(screen), ..*old(self) }),
    {
        self.pending_screen = Some(screen);
    }

    /// Takes the screen that was asked for.
    pub fn take_pending_screen(&mut self) -> (screen: Option<ScreenRequest>)
        ensures
            screen == old(self).pending_screen,
            *final(self) == (App { pending_screen: None, ..*old(self) }),
    {
        self.pending_screen.take()
    }

    pub fn voice_in_for(&self, conversation_id: &str) -> (on: bool)
        ensures
            on == self.hears(conversation_id@),
    {
        match self.core.voice_in.get(conversation_id) {
            Some(on) => *on,
            None => false,
        }
    }

    /// Whether speech input is on in the open conversation.
    pub fn current_voice_in(&self) -> (on: bool)
        ensures
            on == (self.core.current matches Some(c) && self.hears(c.id@)),
    {
        match &self.core.current {
            Some(c) => self.voice_in_for(c.id.as_str()),
            None => false,
        }
    }

    /// Turns speech input on or off in a conversation.
    pub fn set_voice_in(&mut self, conversation_id: &str, enabled: bool)
        ensures
            final(self).core.voice_in@ == old(self).core.voice_in@.insert(
                conversation_id@,
                enabled,
            ),
            *final(self) == (App {
                core: Core { voice_in: final(self).core.voice_in, ..old(self).core },
                ..*old(self)
            }),
    {
        self.core.voice_in.set(conversation_id, enabled);
    }

    /// Flips speech input in the open conversation.
    pub fn toggle_current_voice_in(&mut self) -> (now: Option<bool>)
        ensures
            match old(self).core.current {
                Some(c) => {
                    &&& now == Some(!old(self).hears(c.id@))
                    &&& final(self).core.voice_in@ == old(self).core.voice_in@.insert(
                        c.id@,
                        !old(self).hears(c.id@),
                    )
                    &&& *final(self) == (App {
                        core: Core { voice_in: final(self).core.voice_in, ..old(self).core },
                        ..*old(self)
                    })
                },
                None => now is None && *final(self) == *old(self),
            },
    {
        let id = match &self.core.current {
            Some(c) => c.id.clone(),
            None => {
                return None;
            },
        };
        let next: bool = !self.voice_in_for(id.as_str());
        self.set_voice_in(id.as_str(), next);
        Some(next)
    }

    pub fn adele_output_for(&self, conversation_id: &str) -> (level: AdeleOutput)
        ensures
            level == self.output_level(conversation_id@),
    {
        match self.core.adele_output.get(conversation_id) {
            Some(level) => *level,
            None => AdeleOutput::Disabled,
        }
    }

    /// How much Adele speaks in the open conversation.
    pub fn current_adele_output(&self) -> (level: AdeleOutput)
        ensures
            level == (match self.core.current {
                Some(c) => self.output_level(c.id@),
                None => AdeleOutput::Disabled,
            }),
    {
        match &self.core.current {
            Some(c) => self.adele_output_for(c.id.as_str()),
            None => AdeleOutput::Disabled,
        }
    }

    /// Sets how much Adele speaks in a conversation.
    pub fn set_adele_output(&mut self, conversation_id: &str, level: AdeleOutput)
        ensures
            final(self).core.adele_output@ == old(self).core.adele_output@.insert(
                conversation_id@,
                level,
            ),
            *final(self) == (App {
                core: Core { adele_output: final(self).core.adele_output, ..old(self).core },
                ..*old(self)
            }),
    {
        self.core.adele_output.set(conversation_id, level);
    }

    /// Moves the open conversation to the next level.
    pub fn cycle_current_adele_output(&mut self) -> (now: Option<AdeleOutput>)
        ensures
            match old(self).core.current {
                Some(c) => {
                    &&& now == Some(old(self).output_level(c.id@).successor())
                    &&& final(self).core.adele_output@ == old(self).core.adele_output@.insert(
                        c.id@,
                        old(self).output_level(c.id@).successor(),
                    )
                    &&& *final(self) == (App {
                        core: Core {
                            adele_output: final(self).core.adele_output,
                            ..old(self).core
                        },
                        ..*old(self)
                    })
                },
                None => now is None && *final(self) == *old(self),
            },
    {
        let id = match &self.core.current {
            Some(c) => c.id.clone(),
            None => {
                return None;
            },
        };
        let next = self.adele_output_for(id.as_str()).next();
        self.set_adele_output(id.as_str(), next);
        Some(next)
    }

    /// Whether replies of a conversation are read aloud.
    pub fn narrate_for(&self, conversation_id: &str) -> (b: bool)
        ensures
            b == (self.output_level(conversation_id@) == AdeleOutput::Always),
    {
        match self.adele_output_for(conversation_id) {
            AdeleOutput::Always => true,
            _ => false,
        }
    }

    /// Whether asides of a conversation are spoken.
    pub fn say_this_spoken_for(&self, conversation_id: &str) -> (b: bool)
        ensures
            b == self.speaks_asides(conversation_id@),
    {
        match self.adele_output_for(conversation_id) {
            AdeleOutput::OnDemand => true,
            _ => false,
        }
    }

    /// An aside was shown as the last line of the transcript of `id`, if that
    /// conversation is open.
    pub open spec fn aside_shown(
        before: App,
        after: App,
        id: Seq<char>,
        text: Seq<char>,
        kind: MessageKind,
    ) -> bool {
        match (before.core.current, after.core.current) {
            (Some(b), Some(a)) if b.id@ == id => {
                let n = b.messages@.len() as int;
                &&& a.messages@.len() == n + 1
                &&& a.messages@.take(n) == b.messages@
                &&& a.messages@[n].id@ == ""@
                &&& a.messages@[n].role@ == "assistant"@
                &&& a.messages@[n].content@ == text
                &&& a.messages@[n].kind == kind
                &&& after == (App {
                    scroll_offset: 0,
                    core: Core {
                        current: Some(ConversationDetail { messages: a.messages, ..b }),
                        ..before.core
                    },
                    ..before
                })
            },
            _ => after == before && before.open_id() != Some(id),
        }
    }

    fn push_local_say_this(&mut self, conversation_id: &str, text: &str, kind: MessageKind) -> (shown:
        bool)
        ensures
            shown == (old(self).open_id() == Some(conversation_id@)),
            App::aside_shown(*old(self), *final(self), conversation_id@, text@, kind),
    {
        match &mut self.core.current {
            Some(conv) => {
                if !same(conv.id.as_str(), conversation_id) {
                    return false;
                }
                let ghost before = conv.messages@;
                conv.messages.push(
                    ChatMessage {
                        id: "".to_owned(),
                        role: "assistant".to_owned(),
                        content: text.to_owned(),
                        kind,
                    },
                );
                assert(conv.messages@.take(before.len() as int) =~= before);
            },
            None => {
                return false;
            },
        }
        self.scroll_offset = 0;
        true
    }

    /// Shows an aside that was not spoken. Only the open conversation shows it.
    pub fn push_speech_disabled_note(&mut self, conversation_id: &str, text: &str) -> (shown: bool)
        ensures
            shown == (old(self).open_id() == Some(conversation_id@)),
            App::aside_shown(
                *old(self),
                *final(self),
                conversation_id@,
                text@,
                MessageKind::SpeechDisabled,
            ),
    {
        self.push_local_say_this(conversation_id, text, MessageKind::SpeechDisabled)
    }

    /// Shows an aside that was spoken. Only the open conversation shows it.
    pub fn push_spoken_note(&mut self, conversation_id: &str, text: &str) -> (shown: bool)
        ensures
            shown == (old(self).open_id() == Some(conversation_id@)),
            App::aside_shown(
                *old(self),
                *final(self),
                conversation_id@,
                text@,
                MessageKind::Spoken,
            ),
    {
        self.push_local_say_this(conversation_id, text, MessageKind::Spoken)
    }

    pub fn toggle_tasks_pane(&mut self)
        ensures
            *final(self) == (App {
                tasks: TaskPane { visible: !old(self).tasks.visible, ..old(self).tasks },
                ..*old(self)
            }),
    {
        self.tasks.toggle();
    }

    /// The highlighted task has a conversation.
    pub open spec fn task_linked(self) -> bool {
        self.tasks.on_task() && self.tasks.task().conversation_id is Some
    }

    /// Closes the pane and selects the conversation of the highlighted task, if
    /// it is in the list.
    pub fn jump_to_selected_task_conversation(&mut self) -> (id: Option<String>)
        ensures
            !old(self).task_linked() ==> id is None && *final(self) == *old(self),
            old(self).task_linked() ==> {
                let conv = old(self).tasks.task().conversation_id->0@;
                &&& opt_text(id) == Some(conv)
                &&& *final(self) == (App {
                    selected_conversation: if listed(old(self).core.conversations@, conv) {
                        Some(conversation_place(old(self).core.conversations@, conv) as usize)
                    } else {
                        old(self).selected_conversation
                    },
                    tasks: TaskPane { visible: false, ..old(self).tasks },
                    ..*old(self)
                })
            },
    {
        let conv = match self.tasks.selected_row() {
            Some(row) => match &row.conversation_id {
                Some(id) => id.clone(),
                None => {
                    return None;
                },
            },
            None => {
                return None;
            },
        };
        let at: usize = find_conversation(&self.core.conversations, conv.as_str());
        if at < self.core.conversations.len() {
            self.selected_conversation = Some(at);
        }
        self.tasks.visible = false;
        Some(conv)
    }

    /// Notes that the highlighted task is to be cancelled.
    pub fn request_cancel_selected_task(&mut self) -> (id: Option<String>)
        ensures
            !old(self).tasks.on_task() ==> id is None && *final(self) == *old(self),
            old(self).tasks.on_task() ==> {
                let task = old(self).tasks.task().id;
                &&& id == Some(task)
                &&& final(self).status_message@ == "Cancelling "@ + task@ + "..."@
                &&& *final(self) == (App {
                    pending_task_cancel: Some(task),
                    status_message: final(self).status_message,
                    ..*old(self)
                })
            },
    {
        let id = match self.tasks.selected_row() {
            Some(row) => row.id.clone(),
            None => {
                return None;
            },
        };
        self.pending_task_cancel = Some(id.clone());
        self.status_message = cat3("Cancelling ", id.as_str(), "...");
        Some(id)
    }

    /// Takes a model for the next prompt; the open conversation shows it at once.
    pub fn apply_model_override(&mut self, override_selection: SendPromptOverride)
        ensures
            *final(self) == (App {
                pending_model_override: Some(override_selection),
                core: Core {
                    current: match old(self).core.current {
                        Some(c) => Some(
                            ConversationDetail {
                                model_selection: Some(
                                    ConversationModelSelectionView {
                                        connection_id: override_selection.connection_id,
                                        model_id: override_selection.model_id,
                                        effort: override_selection.effort,
                                    },
                                ),
                                ..c
                            },
                        ),
                        None => None,
                    },
                    ..old(self).core
                },
                ..*old(self)
            }),
    {
        match &mut self.core.current {
            Some(conv) => {
                conv.model_selection =
                Some(
                    ConversationModelSelectionView {
                        connection_id: override_selection.connection_id.clone(),
                        model_id: override_selection.model_id.clone(),
                        effort: override_selection.effort,
                    },
                );
            },
            None => {},
        }
        self.pending_model_override = Some(override_selection);
    }

    /// Takes the model for the next prompt.
    pub fn take_pending_override(&mut self) -> (o: Option<SendPromptOverride>)
        ensures
            o == old(self).pending_model_override,
            *final(self) == (App { pending_model_override: None, ..*old(self) }),
    {
        self.pending_model_override.take()
    }

    /// Shows what the assistant is doing; a blank text shows nothing.
    pub fn set_assistant_status(&mut self, message: &str)
        ensures
            noted(*old(self), *final(self), message@),
    {
        let t = trim(message);
        if t.as_str().is_empty() {
            self.assistant_status = None;
        } else {
            self.assistant_status = Some(message.to_owned());
        }
    }

    pub fn quit(&mut self)
        ensures
            *final(self) == (App { should_quit: true, ..*old(self) }),
    {
        self.should_quit = true;
    }

    /// Selects the next conversation; behind the last one comes the first.
    pub fn next_conversation(&mut self)
        ensures
            *final(self) == (App {
                selected_conversation: if old(self).core.conversations@.len() == 0 {
                    old(self).selected_conversation
                } else {
                    Some(
                        match old(self).selected_conversation {
                            Some(i) => if i >= old(self).core.conversations@.len() - 1 {
                                0usize
                            } else {
                                (i + 1) as usize
                            },
                            None => 0usize,
                        },
                    )
                },
                ..*old(self)
            }),
    {
        let n: usize = self.core.conversations.len();
        if n == 0 {
            return;
        }
        self.selected_conversation =
        Some(
            match self.selected_conversation {
                Some(i) => if i >= n - 1 {
                    0
                } else {
                    i + 1
                },
                None => 0,
            },
        );
    }

    /// Selects the previous conversation; before the first one comes the last.
    pub fn previous_conversation(&mut self)
        ensures
            *final(self) == (App {
                selected_conversation: if old(self).core.conversations@.len() == 0 {
                    old(self).selected_conversation
                } else {
                    Some(
                        match old(self).selected_conversation {
                            Some(i) => if i == 0 {
                                (old(self).core.conversations@.len() - 1) as usize
                            } else {
                                (i - 1) as usize
                            },
                            None => (old(self).core.conversations@.len() - 1) as usize,
                        },
                    )
                },
                ..*old(self)
            }),
    {
        let n: usize = self.core.conversations.len();
        if n == 0 {
            return;
        }
        self.selected_conversation =
        Some(
            match self.selected_conversation {
                Some(i) => if i == 0 {
                    n - 1
                } else {
                    i - 1
                },
                None => n - 1,
            },
        );
    }

    pub fn scroll_up(&mut self, lines: u16)
        ensures
            *final(self) == (App {
                scroll_offset: if old(self).scroll_offset + lines > u16::MAX {
                    u16::MAX
                } else {
                    (old(self).scroll_offset + lines) as u16
                },
                ..*old(self)
            }),
    {
        self.scroll_offset = self.scroll_offset.saturating_add(lines);
    }

    pub fn scroll_down(&mut self, lines: u16)
        ensures
            *final(self) == (App {
                scroll_offset: if old(self).scroll_offset < lines {
                    0
                } else {
                    (old(self).scroll_offset - lines) as u16
                },
                ..*old(self)
            }),
    {
        self.scroll_offset = self.scroll_offset.saturating_sub(lines);
    }

    pub fn scroll_to_bottom(&mut self)
        ensures
            *final(self) == (App { scroll_offset: 0, ..*old(self) }),
    {
        self.scroll_offset = 0;
    }

    /// The text of the composer.
    pub fn textarea_content(&self) -> (text: String)
        ensures
            text@ == area_text(self.textarea),
    {
        content(&self.textarea)
    }

    /// Empties the composer.
    pub fn clear_composer(&mut self)
        ensures
            empty_area(final(self).textarea),
            *final(self) == (App { textarea: final(self).textarea, ..*old(self) }),
    {
        self.textarea = new_textarea();
    }

    /// Puts a text into the composer.
    pub fn set_composer(&mut self, text: &str)
        ensures
            holds(final(self).textarea, text@),
            *final(self) == (App { textarea: final(self).textarea, ..*old(self) }),
    {
        self.textarea = textarea_with(text);
    }

    /// A pasted text on one line: its lines that are not empty, with a blank
    /// between neighbours.
    pub open spec fn one_line(text: Seq<char>) -> Seq<char> {
        joined(nonempty(pieces(text, Separator::LineBreak)), " "@)
    }

    /// Pastes a text into the input that has the focus: as it is into the
    /// composer, on one line into the rename input.
    pub fn apply_paste(&mut self, text: &str)
        ensures
            match old(self).mode {
                InputMode::Editing => typed_into(
                    old(self).textarea,
                    final(self).textarea,
                    text@,
                ) && *final(self) == (App { textarea: final(self).textarea, ..*old(self) }),
                InputMode::Renaming => typed_into(
                    old(self).rename_textarea,
                    final(self).rename_textarea,
                    App::one_line(text@),
                ) && *final(self) == (App {
                    rename_textarea: final(self).rename_textarea,
                    ..*old(self)
                }),
                InputMode::Normal => *final(self) == *old(self),
            },
    {
        match self.mode {
            InputMode::Editing => {
                insert_text(&mut self.textarea, text);
            },
            InputMode::Renaming => {
                let parts = keep_nonempty(&split(text, Separator::LineBreak));
                let line = join(&parts, " ");
                insert_text(&mut self.rename_textarea, line.as_str());
            },
            InputMode::Normal => {},
        }
    }
}

/// The column or row of a cursor, as far as a text area can be told.
pub open spec fn reachable(n: nat) -> u16 {
    if n > u16::MAX {
        u16::MAX
    } else {
        n as u16
    }
}

/// How an effect changes the window.
pub open spec fn effect_shown(before: App, after: App, effect: Effect) -> bool {
    match effect {
        Effect::SetChatStatus(message) => noted(before, after, message@),
        Effect::ClearChatStatus => after == (App { assistant_status: None, ..before }),
        Effect::SetComposerText(text) => {
            &&& if text@.len() == 0 {
                empty_area(after.textarea)
            } else {
                holds(after.textarea, text@)
            }
            &&& after == (App { textarea: after.textarea, ..before })
        },
        Effect::SetContextUsage(usage) => after == (App { context_usage: usage, ..before }),
        Effect::SetStatusText(text) => after == (App { status_message: text, ..before }),
        Effect::SetConversations(convs) => after == before.with_conversations(convs),
        _ => after == before,
    }
}

/// An effect that the window cannot perform itself.
pub open spec fn bubbles(effect: Effect) -> bool {
    effect is Speak || effect is SendPrompt
}

/// The effects that the window cannot perform itself.
pub open spec fn bubbled(effects: Seq<Effect>) -> Seq<Effect>
    decreases effects.len(),
{
    if effects.len() == 0 {
        effects
    } else {
        let n = effects.len() - 1;
        let before = bubbled(effects.take(n));
        if bubbles(effects[n]) {
            before.push(effects[n])
        } else {
            before
        }
    }
}

/// `states` are the window's states while the effects are shown one after the
/// other.
pub open spec fn effects_shown(states: Seq<App>, effects: Seq<Effect>) -> bool {
    &&& states.len() == effects.len() + 1
    &&& forall|i: int|
        0 <= i < effects.len() ==> effect_shown(#[trigger] states[i], states[i + 1], effects[i])
}

/// The window after the reducer's reply: the chat is the reply's, and its
/// effects were shown one after the other.
pub open spec fn replied(before: App, after: App, reply: CoreReply) -> bool {
    exists|states: Seq<App>| #[trigger]
        effects_shown(states, reply.effects@) && states[0] == before.with_chat(reply) && states[
        states.len() - 1] == after
}

/// The window after a conversation was opened. Where another one was open, its
/// unsent text is saved, and the saved text of the opened one comes into the
/// composer.
pub open spec fn opened(before: App, after: App, detail: ConversationDetail) -> bool {
    let switching = before.open_id() != Some(detail.id@);
    let drafts = draft_texts(before.core.drafts@);
    let saved = match before.core.current {
        Some(c) if switching => with_draft(drafts, c.id@, area_text(before.textarea)),
        _ => drafts,
    };
    &&& draft_texts(after.core.drafts@) == saved
    &&& switching ==> holds(after.textarea, draft_of(saved, detail.id@))
    &&& !switching ==> after.textarea == before.textarea
    &&& after == (App {
        textarea: after.textarea,
        context_usage: if switching {
            None
        } else {
            before.context_usage
        },
        core: Core { current: Some(detail), drafts: after.core.drafts, ..before.core },
        ..before
    })
}

/// The window after a conversation got a new title, in the list and in the open
/// chat.
pub open spec fn renamed(before: App, after: App, id: Seq<char>, title: Seq<char>) -> bool {
    &&& retitled(before.core.conversations@, after.core.conversations@, id, title)
    &&& match (before.core.current, after.core.current) {
        (Some(b), Some(a)) => if b.id@ == id {
            a.title@ == title && a == (ConversationDetail { title: a.title, ..b })
        } else {
            a == b
        },
        (None, None) => true,
        _ => false,
    }
    &&& after == (App {
        core: Core {
            conversations: after.core.conversations,
            current: after.core.current,
            ..before.core
        },
        ..before
    })
}

/// The window after a conversation was deleted: its row, its voice settings and,
/// where it was open, its chat are gone.
pub open spec fn forgotten(before: App, after: App, id: Seq<char>) -> bool {
    &&& after.core.conversations@ == other_conversations(before.core.conversations@, id)
    &&& after.core.voice_in@ == before.core.voice_in@.remove(id)
    &&& after.core.adele_output@ == before.core.adele_output@.remove(id)
    &&& after == (App {
        selected_conversation: clamped(
            before.selected_conversation,
            after.core.conversations@.len(),
        ),
        core: Core {
            conversations: after.core.conversations,
            voice_in: after.core.voice_in,
            adele_output: after.core.adele_output,
            current: if before.open_id() == Some(id) {
                None
            } else {
                before.core.current
            },
            ..before.core
        },
        ..before
    })
}

impl App {
    /// The window with another conversation list.
    pub open spec fn with_conversations(self, convs: Vec<ConversationSummary>) -> App {
        App {
            selected_conversation: clamped(self.selected_conversation, convs@.len()),
            core: Core { conversations: convs, ..self.core },
            ..self
        }
    }

    /// The window with the chat of the reducer's reply.
    pub open spec fn with_chat(self, reply: CoreReply) -> App {
        App {
            core: Core {
                current: reply.current,
                stream: reply.stream,
                queued: reply.queued,
                editing_queued: reply.editing_queued,
                ..self.core
            },
            ..self
        }
    }

    /// A copy of the composer for drawing, with long lines wrapped and the cursor
    /// where it stands in the text. The composer itself stays as it is.
    pub fn wrapped_display_textarea(&self, width: usize) -> (display: Area)
        ensures
            ({
                let lines = area_lines(self.textarea);
                let cursor = area_cursor(self.textarea);
                if width == 0 {
                    area_lines(display) == lines && area_cursor(display) == (0nat, 0nat)
                } else {
                    let shown = shown_cursor(lines, cursor.0, cursor.1, width as nat);
                    &&& area_lines(display) == wrapped_lines(lines, width as nat)
                    &&& area_cursor(display) == moved(
                        wrapped_lines(lines, width as nat),
                        (0nat, 0nat),
                        CaretMove::Jump(reachable(shown.0), reachable(shown.1)),
                    )
                }
            }),
    {
        let lines = lines_of(&self.textarea);
        if width == 0 {
            let mut display = area_of(lines);
            plain_cursor_line(&mut display);
            return display;
        }
        let cursor = cursor_of(&self.textarea);
        let wrapped = wrap_display(&lines, cursor.0, cursor.1, width);
        let row: u16 = if wrapped.row > 65535 {
            65535
        } else {
            wrapped.row as u16
        };
        let col: u16 = if wrapped.col > 65535 {
            65535
        } else {
            wrapped.col as u16
        };
        let mut display = area_of(wrapped.lines);
        plain_cursor_line(&mut display);
        move_caret(&mut display, CaretMove::Jump(row, col));
        display
    }

    pub fn enter_editing_mode(&mut self)
        ensures
            *final(self) == (App { mode: InputMode::Editing, ..*old(self) }),
    {
        self.mode = InputMode::Editing;
    }

    pub fn enter_normal_mode(&mut self)
        ensures
            *final(self) == (App { mode: InputMode::Normal, ..*old(self) }),
    {
        self.mode = InputMode::Normal;
    }

    /// Shows an effect; one that the window cannot perform itself comes back.
    fn run_view_effect(&mut self, effect: Effect) -> (rest: Option<Effect>)
        ensures
            effect_shown(*old(self), *final(self), effect),
            rest == (if bubbles(effect) {
                Some(effect)
            } else {
                None
            }),
    {
        match effect {
            Effect::SetChatStatus(message) => {
                self.set_assistant_status(message.as_str());
                None
            },
            Effect::ClearChatStatus => {
                self.assistant_status = None;
                None
            },
            Effect::SetComposerText(text) => {
                if text.as_str().is_empty() {
                    self.clear_composer();
                } else {
                    self.set_composer(text.as_str());
                }
                None
            },
            Effect::SetContextUsage(usage) => {
                self.context_usage = usage;
                None
            },
            Effect::SetStatusText(text) => {
                self.status_message = text;
                None
            },
            Effect::SetConversations(convs) => {
                self.set_conversations(convs);
                None
            },
            Effect::ReceiveChunk(_) | Effect::CompleteStreaming(_) | Effect::AddUserMessage(_) => {
                None
            },
            Effect::SetQueuedMessages | Effect::EnsureActiveConversation | Effect::ClearChat => {
                None
            },
            Effect::SidePaneSetScratchpad
            | Effect::RefreshSidePaneTasks
            | Effect::FetchScratchpad => None,
            Effect::Speak(text) => Some(Effect::Speak(text)),
            Effect::SendPrompt { conversation_id, prompt, system_refinement } => Some(
                Effect::SendPrompt { conversation_id, prompt, system_refinement },
            ),
        }
    }

    /// Applies the reducer's reply, and returns the effects that the window
    /// cannot perform itself.
    pub fn apply_core(&mut self, reply: CoreReply) -> (rest: Vec<Effect>)
        ensures
            rest@ == bubbled(reply.effects@),
            replied(*old(self), *final(self), reply),
    {
        let ghost all = reply.effects@;
        self.core.current = reply.current;
        self.core.stream = reply.stream;
        self.core.queued = reply.queued;
        self.core.editing_queued = reply.editing_queued;
        let mut effects = reply.effects;
        let mut rest: Vec<Effect> = Vec::new();
        let ghost mut states: Seq<App> = seq![*self];
        let n: usize = effects.len();
        let mut i: usize = 0;
        assert(bubbled(all.take(0)) =~= rest@);
        while i < n
            invariant
                n == all.len(),
                i <= n,
                effects@ == all.skip(i as int),
                rest@ == bubbled(all.take(i as int)),
                states.len() == i + 1,
                states[0] == old(self).with_chat(reply),
                states[i as int] == *self,
                forall|j: int|
                    0 <= j < i ==> effect_shown(#[trigger] states[j], states[j + 1], all[j]),
            decreases n - i,
        {
            let ghost t = all.take(i + 1);
            assert(t.take(t.len() - 1) =~= all.take(i as int));
            let effect = effects.remove(0);
            assert(effect == all[i as int]);
            match self.run_view_effect(effect) {
                Some(e) => {
                    rest.push(e);
                },
                None => {},
            }
            proof {
                states = states.push(*self);
            }
            i += 1;
        }
        assert(all.take(n as int) =~= all);
        assert(effects_shown(states, all));
        rest
    }

    /// What has arrived of the reply that streams into the open conversation.
    pub fn streaming_buffer(&self) -> (text: &str)
        ensures
            text@ == (if self.streams_here() {
                self.core.stream->0.buffer@
            } else {
                ""@
            }),
    {
        if self.streaming_is_active_for_view() {
            match &self.core.stream {
                Some(stream) => stream.buffer.as_str(),
                None => "",
            }
        } else {
            ""
        }
    }

    /// Whether a reply streams into the open conversation.
    pub fn streaming_is_active_for_view(&self) -> (b: bool)
        ensures
            b == self.streams_here(),
    {
        match &self.core.stream {
            Some(stream) => match &self.core.current {
                Some(c) => same(c.id.as_str(), stream.conversation_id.as_str()),
                None => false,
            },
            None => false,
        }
    }

    /// Whether a reply streams in.
    pub fn is_streaming(&self) -> (b: bool)
        ensures
            b == (self.core.stream is Some),
    {
        self.core.stream.is_some()
    }

    /// The messages that wait in the open conversation.
    pub fn queued_messages_for_view(&self) -> (queued: &Vec<String>)
        ensures
            *queued == self.core.queued,
    {
        &self.core.queued
    }

    /// The waiting message that is in hand.
    pub fn editing_queued_index(&self) -> (at: Option<usize>)
        ensures
            at == self.core.editing_queued,
    {
        self.core.editing_queued
    }

    /// What the reducer is told for a step up the queue: to hand out the message
    /// before the one in hand, or the last one where none is.
    pub open spec fn queue_up(self) -> Option<UiMessage> {
        match self.core.editing_queued {
            Some(i) => if i == 0 {
                None
            } else {
                Some(UiMessage::EditQueued { index: (i - 1) as usize })
            },
            None => if self.core.queued@.len() == 0 {
                None
            } else {
                Some(UiMessage::EditQueued { index: (self.core.queued@.len() - 1) as usize })
            },
        }
    }

    /// What the reducer is told for a step down the queue: to hand out the message
    /// after the one in hand, or to take the last one back.
    pub open spec fn queue_down(self) -> Option<UiMessage> {
        match self.core.editing_queued {
            Some(i) => if i < self.core.queued@.len() {
                Some(UiMessage::EditQueued { index: (i + 1) as usize })
            } else {
                Some(UiMessage::CancelQueuedEdit)
            },
            None => None,
        }
    }

    /// A step up the queue: what the reducer is to be told.
    pub fn recall_prev_queued(&self) -> (message: Option<UiMessage>)
        ensures
            message == self.queue_up(),
    {
        match recall_prev_index(self.core.queued.len(), self.core.editing_queued) {
            Some(index) => Some(UiMessage::EditQueued { index }),
            None => None,
        }
    }

    /// A step down the queue: what the reducer is to be told.
    pub fn recall_next_queued(&self) -> (message: Option<UiMessage>)
        ensures
            message == self.queue_down(),
    {
        match recall_next_action(self.core.queued.len(), self.core.editing_queued) {
            RecallNext::Edit(index) => Some(UiMessage::EditQueued { index }),
            RecallNext::Cancel => Some(UiMessage::CancelQueuedEdit),
            RecallNext::Stay => None,
        }
    }

    /// Gives a waiting message in hand back: what the reducer is to be told.
    pub fn cancel_queued_edit_if_active(&self) -> (message: Option<UiMessage>)
        ensures
            message == (if self.core.editing_queued is Some {
                Some(UiMessage::CancelQueuedEdit)
            } else {
                None::<UiMessage>
            }),
    {
        if self.core.editing_queued.is_some() {
            Some(UiMessage::CancelQueuedEdit)
        } else {
            None
        }
    }

    /// The arrow keys walk the queue: a message is in hand, or the composer is
    /// empty and messages wait.
    pub open spec fn walks_queue(self) -> bool {
        self.core.editing_queued is Some || (area_text(self.textarea).len() == 0
            && self.core.queued@.len() > 0)
    }

    /// Whether the arrow keys walk the queue.
    pub fn recalls_queued(&self) -> (b: bool)
        ensures
            b == self.walks_queue(),
    {
        self.core.editing_queued.is_some() || (self.textarea_content().as_str().is_empty()
            && self.core.queued.len() > 0)
    }

    /// The daemon took a prompt: its reply is going to stream in.
    pub fn apply_prompt_ack(&mut self, _task_id: String, conversation_id: String)
        ensures
            opt_text(final(self).assistant_status) == Some("Adele is thinking…"@),
            final(self).core.stream matches Some(stream) && stream.conversation_id
                == conversation_id && stream.buffer@ == ""@,
            *final(self) == (App {
                assistant_status: final(self).assistant_status,
                core: Core { stream: final(self).core.stream, ..old(self).core },
                ..*old(self)
            }),
    {
        self.core.stream = Some(Stream { conversation_id, buffer: "".to_owned() });
        self.assistant_status = Some("Adele is thinking…".to_owned());
    }

    /// The connection is gone, and with it the reply that was streaming in.
    pub fn clear_streaming_state(&mut self)
        ensures
            *final(self) == (App {
                assistant_status: None,
                core: Core { stream: None, ..old(self).core },
                ..*old(self)
            }),
    {
        self.core.stream = None;
        self.assistant_status = None;
    }

    /// Selects a conversation by its id.
    pub fn select_conversation_by_id(&mut self, id: &str) -> (found: bool)
        ensures
            found == listed(old(self).core.conversations@, id@),
            *final(self) == (App {
                selected_conversation: if found {
                    Some(conversation_place(old(self).core.conversations@, id@) as usize)
                } else {
                    old(self).selected_conversation
                },
                ..*old(self)
            }),
    {
        let at: usize = find_conversation(&self.core.conversations, id);
        if at < self.core.conversations.len() {
            self.selected_conversation = Some(at);
            true
        } else {
            false
        }
    }

    pub fn conversations(&self) -> (convs: &Vec<ConversationSummary>)
        ensures
            *convs == self.core.conversations,
    {
        &self.core.conversations
    }

    pub fn current_conversation(&self) -> (c: Option<&ConversationDetail>)
        ensures
            match c {
                Some(x) => self.core.current == Some(*x),
                None => self.core.current is None,
            },
    {
        match &self.core.current {
            Some(c) => Some(c),
            None => None,
        }
    }

    /// Replaces the conversation list.
    pub fn set_conversations(&mut self, conversations: Vec<ConversationSummary>)
        ensures
            *final(self) == old(self).with_conversations(conversations),
    {
        self.core.conversations = conversations;
        let len: usize = self.core.conversations.len();
        match self.selected_conversation {
            Some(i) => if i >= len {
                self.selected_conversation = if len == 0 {
                    None
                } else {
                    Some(len - 1)
                };
            },
            None => {},
        }
    }

    fn save_draft(&mut self, id: &str, text: String)
        ensures
            draft_texts(final(self).core.drafts@) == with_draft(
                draft_texts(old(self).core.drafts@),
                id@,
                text@,
            ),
            *final(self) == (App {
                core: Core { drafts: final(self).core.drafts, ..old(self).core },
                ..*old(self)
            }),
    {
        if text.as_str().is_empty() {
            self.core.drafts.remove(id);
        } else {
            self.core.drafts.set(id, text);
        }
        assert(draft_texts(self.core.drafts@) =~= with_draft(
            draft_texts(old(self).core.drafts@),
            id@,
            text@,
        ));
    }

    /// Opens a conversation.
    pub fn load_conversation(&mut self, detail: ConversationDetail)
        ensures
            opened(*old(self), *final(self), detail),
    {
        let id = detail.id.clone();
        let outgoing = match &self.core.current {
            Some(c) => Some(c.id.clone()),
            None => None,
        };
        let switching: bool = match &outgoing {
            Some(o) => !same(o.as_str(), id.as_str()),
            None => true,
        };
        if switching {
            match &outgoing {
                Some(o) => {
                    let draft = self.textarea_content();
                    self.save_draft(o.as_str(), draft);
                },
                None => {},
            }
        }
        self.core.current = Some(detail);
        if switching {
            self.context_usage = None;
            let draft = match self.core.drafts.get(id.as_str()) {
                Some(text) => text.clone(),
                None => "".to_owned(),
            };
            proof {
                reveal_strlit("");
                assert(""@ =~= Seq::<char>::empty());
                assert(draft@ == draft_of(draft_texts(self.core.drafts@), id@));
            }
            self.set_composer(draft.as_str());
        }
    }

    fn retitle(&mut self, conversation_id: &str, title: &str)
        ensures
            renamed(*old(self), *final(self), conversation_id@, title@),
    {
        let ghost before = self.core.conversations@;
        let n: usize = self.core.conversations.len();
        let mut i: usize = 0;
        while i < n
            invariant
                n == before.len(),
                i <= n,
                self.core.conversations@.len() == n,
                retitled(
                    before.take(i as int),
                    self.core.conversations@.take(i as int),
                    conversation_id@,
                    title@,
                ),
                self.core.conversations@.skip(i as int) == before.skip(i as int),
                *self == (App {
                    core: Core { conversations: self.core.conversations, ..old(self).core },
                    ..*old(self)
                }),
            decreases n - i,
        {
            let ghost rows = self.core.conversations@;
            assert(rows[i as int] == rows.skip(i as int)[0]);
            assert(before[i as int] == before.skip(i as int)[0]);
            if same(self.core.conversations[i].id.as_str(), conversation_id) {
                self.core.conversations[i].title = title.to_owned();
            }
            let ghost now = self.core.conversations@;
            assert forall|j: int| 0 <= j < i + 1 implies {
                if before.take(i + 1)[j].id@ == conversation_id@ {
                    &&& (#[trigger] now.take(i + 1)[j]).title@ == title@
                    &&& now.take(i + 1)[j] == (ConversationSummary {
                        title: now.take(i + 1)[j].title,
                        ..before.take(i + 1)[j]
                    })
                } else {
                    now.take(i + 1)[j] == before.take(i + 1)[j]
                }
            } by {
                if j < i {
                    assert(now[j] == rows[j]);
                    assert(rows.take(i as int)[j] == rows[j]);
                    assert(before.take(i as int)[j] == before[j]);
                }
            }
            assert(now.skip(i + 1) =~= before.skip(i + 1)) by {
                assert forall|j: int| i < j < n implies now[j] == before[j] by {
                    assert(now[j] == rows[j]);
                    assert(rows.skip(i as int)[j - i] == before.skip(i as int)[j - i]);
                }
            }
            i += 1;
        }
        assert(before.take(n as int) =~= before);
        assert(self.core.conversations@.take(n as int) =~= self.core.conversations@);
        self.set_open_conversation_title(conversation_id, title);
    }

    fn set_open_conversation_title(&mut self, conversation_id: &str, title: &str)
        ensures
            match (old(self).core.current, final(self).core.current) {
                (Some(b), Some(a)) => if b.id@ == conversation_id@ {
                    a.title@ == title@ && a == (ConversationDetail { title: a.title, ..b })
                } else {
                    a == b
                },
                (None, None) => true,
                _ => false,
            },
            *final(self) == (App {
                core: Core { current: final(self).core.current, ..old(self).core },
                ..*old(self)
            }),
    {
        match &mut self.core.current {
            Some(c) => if same(c.id.as_str(), conversation_id) {
                c.title = title.to_owned();
            },
            None => {},
        }
    }

    /// The daemon reports a new title.
    pub fn update_conversation_title(&mut self, conversation_id: &str, title: &str)
        ensures
            renamed(*old(self), *final(self), conversation_id@, title@),
    {
        self.retitle(conversation_id, title);
    }

    /// The daemon took a new title.
    pub fn apply_rename(&mut self, conversation_id: &str, title: &str)
        ensures
            renamed(*old(self), *final(self), conversation_id@, title@),
    {
        self.retitle(conversation_id, title);
    }

    /// The personality of the open conversation was saved.
    pub fn set_open_conversation_personality(&mut self, personality: ConversationPersonalityView)
        ensures
            *final(self) == (App {
                core: Core {
                    current: match old(self).core.current {
                        Some(c) => Some(
                            ConversationDetail {
                                conversation_personality: Some(personality),
                                ..c
                            },
                        ),
                        None => None,
                    },
                    ..old(self).core
                },
                ..*old(self)
            }),
    {
        match &mut self.core.current {
            Some(c) => {
                c.conversation_personality = Some(personality);
            },
            None => {},
        }
    }

    pub fn selected_conversation_id(&self) -> (id: Option<&str>)
        ensures
            match id {
                Some(s) => self.on_conversation() && s@ == self.conversation().id@,
                None => !self.on_conversation(),
            },
    {
        match self.selected_conversation {
            Some(i) => if i < self.core.conversations.len() {
                Some(self.core.conversations[i].id.as_str())
            } else {
                None
            },
            None => None,
        }
    }

    /// Starts to rename the selected conversation, from its title.
    pub fn begin_rename(&mut self)
        ensures
            !old(self).on_conversation() ==> *final(self) == *old(self),
            old(self).on_conversation() ==> {
                &&& holds(final(self).rename_textarea, old(self).conversation().title@)
                &&& *final(self) == (App {
                    rename_textarea: final(self).rename_textarea,
                    renaming_id: Some(old(self).conversation().id),
                    mode: InputMode::Renaming,
                    ..*old(self)
                })
            },
    {
        let at: usize = match self.selected_conversation {
            Some(i) => i,
            None => {
                return;
            },
        };
        if at >= self.core.conversations.len() {
            return;
        }
        let mut area = textarea_with(self.core.conversations[at].title.as_str());
        move_caret(&mut area, CaretMove::End);
        self.rename_textarea = area;
        self.renaming_id = Some(self.core.conversations[at].id.clone());
        self.mode = InputMode::Renaming;
    }

    /// The title in the rename input.
    pub open spec fn typed_title(self) -> Seq<char> {
        trimmed(joined(area_lines(self.rename_textarea), " "@))
    }

    /// The rename input holds a new title for the conversation.
    pub open spec fn renames(self) -> bool {
        &&& self.renaming_id is Some
        &&& self.typed_title().len() > 0
        &&& !(listed(self.core.conversations@, self.renaming_id->0@)
            && self.core.conversations@[conversation_place(
            self.core.conversations@,
            self.renaming_id->0@,
        )].title@ == self.typed_title())
    }

    /// Ends renaming. The conversation and its title come back where the title is
    /// new and not empty.
    pub fn submit_rename(&mut self) -> (r: Option<(String, String)>)
        ensures
            match r {
                Some(p) => old(self).renames() && p.0 == old(self).renaming_id->0 && p.1@
                    == old(self).typed_title(),
                None => !old(self).renames(),
            },
            empty_area(final(self).rename_textarea),
            *final(self) == (App {
                rename_textarea: final(self).rename_textarea,
                renaming_id: None,
                mode: InputMode::Normal,
                ..*old(self)
            }),
    {
        let lines = lines_of(&self.rename_textarea);
        let line = join(&lines, " ");
        let title = trim(line.as_str());
        let id = self.renaming_id.take();
        self.rename_textarea = new_textarea();
        self.mode = InputMode::Normal;
        match id {
            Some(id) => {
                if title.as_str().is_empty() {
                    return None;
                }
                let at: usize = find_conversation(&self.core.conversations, id.as_str());
                if at < self.core.conversations.len() && same(
                    self.core.conversations[at].title.as_str(),
                    title.as_str(),
                ) {
                    return None;
                }
                Some((id, title))
            },
            None => None,
        }
    }

    /// Ends renaming without a new title.
    pub fn cancel_rename(&mut self)
        ensures
            empty_area(final(self).rename_textarea),
            *final(self) == (App {
                rename_textarea: final(self).rename_textarea,
                renaming_id: None,
                mode: InputMode::Normal,
                ..*old(self)
            }),
    {
        self.renaming_id = None;
        self.rename_textarea = new_textarea();
        self.mode = InputMode::Normal;
    }

    /// Asks whether the selected conversation is to be deleted.
    pub fn begin_delete_confirm(&mut self)
        ensures
            *final(self) == (App {
                pending_delete_conversation: if old(self).on_conversation() {
                    Some(old(self).conversation().title)
                } else {
                    old(self).pending_delete_conversation
                },
                ..*old(self)
            }),
    {
        match self.selected_conversation {
            Some(i) => if i < self.core.conversations.len() {
                self.pending_delete_conversation =
                Some(self.core.conversations[i].title.clone());
            },
            None => {},
        }
    }

    pub fn delete_confirm_pending(&self) -> (b: bool)
        ensures
            b == (self.pending_delete_conversation is Some),
    {
        self.pending_delete_conversation.is_some()
    }

    /// Ends the question; the answer was yes.
    pub fn confirm_delete(&mut self) -> (asked: bool)
        ensures
            asked == (old(self).pending_delete_conversation is Some),
            *final(self) == (App { pending_delete_conversation: None, ..*old(self) }),
    {
        self.pending_delete_conversation.take().is_some()
    }

    /// Ends the question; the answer was no.
    pub fn cancel_delete_confirm(&mut self)
        ensures
            *final(self) == (App { pending_delete_conversation: None, ..*old(self) }),
    {
        self.pending_delete_conversation = None;
    }

    /// Deletes the selected conversation from the window.
    pub fn delete_selected_conversation(&mut self) -> (id: Option<String>)
        ensures
            !old(self).on_conversation() ==> id is None && *final(self) == *old(self),
            old(self).on_conversation() ==> {
                &&& opt_text(id) == Some(old(self).conversation().id@)
                &&& forgotten(*old(self), *final(self), old(self).conversation().id@)
            },
    {
        let id = match self.selected_conversation_id() {
            Some(s) => s.to_owned(),
            None => {
                return None;
            },
        };
        let ghost all = self.core.conversations@;
        let mut rest: Vec<ConversationSummary> = Vec::new();
        std::mem::swap(&mut rest, &mut self.core.conversations);
        let mut kept: Vec<ConversationSummary> = Vec::new();
        let n: usize = rest.len();
        let mut i: usize = 0;
        assert(kept@ =~= other_conversations(all.take(0), id@));
        while i < n
            invariant
                n == all.len(),
                i <= n,
                rest@ == all.skip(i as int),
                kept@ == other_conversations(all.take(i as int), id@),
            decreases n - i,
        {
            let ghost t = all.take(i + 1);
            assert(t.take(t.len() - 1) =~= all.take(i as int));
            let row = rest.remove(0);
            assert(row == all[i as int]);
            if !same(row.id.as_str(), id.as_str()) {
                kept.push(row);
            }
            i += 1;
        }
        assert(all.take(n as int) =~= all);
        self.core.voice_in.remove(id.as_str());
        self.core.adele_output.remove(id.as_str());
        let open: bool = match &self.core.current {
            Some(c) => same(c.id.as_str(), id.as_str()),
            None => false,
        };
        if open {
            self.core.current = None;
        }
        self.set_conversations(kept);
        Some(id)
    }
}

impl Default for App {
    fn default() -> (app: App)
        ensures
            app.fresh(),
    {
        App::new()
    }
}

/// Text that was typed in one conversation is back in the composer after another
/// one was opened and left again.
pub proof fn law_drafts_come_back(
    a: App,
    b: App,
    c: App,
    first: ConversationDetail,
    second: ConversationDetail,
)
    requires
        a.open_id() == Some(first.id@),
        first.id@ != second.id@,
        opened(a, b, second),
        opened(b, c, first),
        no_return_ends_a_line(area_text(a.textarea)),
    ensures
        area_text(c.textarea) == area_text(a.textarea),
{
    let text = area_text(a.textarea);
    law_text_survives_an_area(text);
    let drafts = draft_texts(a.core.drafts@);
    assert(draft_of(with_draft(drafts, first.id@, text), first.id@) =~= text);
    assert(draft_texts(b.core.drafts@) == with_draft(drafts, first.id@, text));
    assert(holds(c.textarea, text));
}

/// Opening the conversation that is open already keeps what is being typed.
pub proof fn law_reopening_keeps_the_composer(a: App, b: App, detail: ConversationDetail)
    requires
        a.open_id() == Some(detail.id@),
        opened(a, b, detail),
    ensures
        b.textarea == a.textarea,
        b.context_usage == a.context_usage,
{
}

/// After the list was replaced, a selection is a row of the list.
pub proof fn law_selection_stays_in_list(app: App, convs: Vec<ConversationSummary>)
    ensures
        match app.with_conversations(convs).selected_conversation {
            Some(i) => i < convs@.len(),
            None => true,
        },
        convs@.len() == 0 ==> app.with_conversations(convs).selected_conversation is None,
{
}

/// A deleted conversation is no longer listed nor open, and nothing of its voice
/// settings is left.
pub proof fn law_deleted_is_forgotten(before: App, after: App, id: Seq<char>)
    requires
        forgotten(before, after, id),
    ensures
        !listed(after.core.conversations@, id),
        after.open_id() != Some(id),
        !after.hears(id),
        after.output_level(id) == AdeleOutput::Disabled,
{
    lemma_others_differ(before.core.conversations@, id);
    lemma_unlisted(after.core.conversations@, id);
}

proof fn lemma_others_differ(convs: Seq<ConversationSummary>, id: Seq<char>)
    ensures
        forall|i: int|
            0 <= i < other_conversations(convs, id).len() ==> (#[trigger] other_conversations(
                convs,
                id,
            )[i]).id@ != id,
    decreases convs.len(),
{
    if convs.len() > 0 {
        let t = convs.take(convs.len() - 1);
        let kept = other_conversations(t, id);
        let all = other_conversations(convs, id);
        lemma_others_differ(t, id);
        assert forall|i: int| 0 <= i < all.len() implies (#[trigger] all[i]).id@ != id by {
            if i < kept.len() {
                assert(all[i] == kept[i]);
            }
        }
    }
}

proof fn lemma_unlisted(convs: Seq<ConversationSummary>, id: Seq<char>)
    requires
        forall|i: int| 0 <= i < convs.len() ==> (#[trigger] convs[i]).id@ != id,
    ensures
        conversation_place(convs, id) == convs.len(),
    decreases convs.len(),
{
    if convs.len() > 0 {
        assert(convs[0].id@ != id);
        let rest = convs.skip(1);
        assert forall|i: int| 0 <= i < rest.len() implies (#[trigger] rest[i]).id@ != id by {
            assert(rest[i] == convs[i + 1]);
        }
        lemma_unlisted(rest, id);
    }
}

/// Deleting a conversation leaves the rows and voice settings of every other one.
pub proof fn law_deleting_spares_others(before: App, after: App, id: Seq<char>, other: Seq<char>)
    requires
        forgotten(before, after, id),
        other != id,
    ensures
        after.hears(other) == before.hears(other),
        after.output_level(other) == before.output_level(other),
        listed(after.core.conversations@, other) == listed(before.core.conversations@, other),
{
    lemma_listed_iff(before.core.conversations@, other);
    lemma_listed_iff(after.core.conversations@, other);
    lemma_others_hold(before.core.conversations@, id, other);
}

proof fn lemma_listed_iff(convs: Seq<ConversationSummary>, id: Seq<char>)
    ensures
        listed(convs, id) <==> exists|i: int|
            0 <= i < convs.len() && (#[trigger] convs[i]).id@ == id,
        0 <= conversation_place(convs, id) <= convs.len(),
    decreases convs.len(),
{
    if convs.len() > 0 && convs[0].id@ != id {
        let rest = convs.skip(1);
        lemma_listed_iff(rest, id);
        if listed(convs, id) {
            let i = choose|i: int| 0 <= i < rest.len() && (#[trigger] rest[i]).id@ == id;
            assert(convs[i + 1].id@ == id);
        }
        if exists|i: int| 0 <= i < convs.len() && (#[trigger] convs[i]).id@ == id {
            let i = choose|i: int| 0 <= i < convs.len() && (#[trigger] convs[i]).id@ == id;
            assert(rest[i - 1].id@ == id);
        }
    } else if convs.len() > 0 {
        assert(convs[0].id@ == id);
    }
}

proof fn lemma_others_hold(convs: Seq<ConversationSummary>, id: Seq<char>, other: Seq<char>)
    requires
        other != id,
    ensures
        (exists|i: int|
            0 <= i < other_conversations(convs, id).len() && (#[trigger] other_conversations(
                convs,
                id,
            )[i]).id@ == other) <==> (exists|i: int|
            0 <= i < convs.len() && (#[trigger] convs[i]).id@ == other),
    decreases convs.len(),
{
    if convs.len() > 0 {
        let n = convs.len() - 1;
        let t = convs.take(n);
        let kept = other_conversations(t, id);
        let all = other_conversations(convs, id);
        lemma_others_hold(t, id, other);
        if exists|i: int| 0 <= i < all.len() && (#[trigger] all[i]).id@ == other {
            let i = choose|i: int| 0 <= i < all.len() && (#[trigger] all[i]).id@ == other;
            if i < kept.len() {
                assert(kept[i].id@ == other);
                let k = choose|k: int| 0 <= k < t.len() && (#[trigger] t[k]).id@ == other;
                assert(convs[k].id@ == other);
            } else {
                assert(convs[n].id@ == other);
            }
        }
        if exists|i: int| 0 <= i < convs.len() && (#[trigger] convs[i]).id@ == other {
            let i = choose|i: int| 0 <= i < convs.len() && (#[trigger] convs[i]).id@ == other;
            if i < n {
                assert(t[i].id@ == other);
                let k = choose|k: int| 0 <= k < kept.len() && (#[trigger] kept[k]).id@ == other;
                assert(all[k].id@ == other);
            } else {
                assert(all[all.len() - 1].id@ == other);
            }
        }
    }
}

/// No reply of the reducer moves the scroll position, the mode or what is being
/// renamed, so reading back in the chat is not disturbed while a reply streams in.
pub proof fn law_replies_do_not_scroll(before: App, after: App, reply: CoreReply)
    requires
        replied(before, after, reply),
    ensures
        after.scroll_offset == before.scroll_offset,
        after.mode == before.mode,
        after.rename_textarea == before.rename_textarea,
        after.renaming_id == before.renaming_id,
        after.core.voice_in == before.core.voice_in,
        after.core.adele_output == before.core.adele_output,
        after.core.drafts == before.core.drafts,
{
    let states = choose|states: Seq<App>| #[trigger]
        effects_shown(states, reply.effects@) && states[0] == before.with_chat(reply) && states[
        states.len() - 1] == after;
    lemma_effects_do_not_scroll(states, reply.effects@, reply.effects@.len() as int);
}

proof fn lemma_effects_do_not_scroll(states: Seq<App>, effects: Seq<Effect>, n: int)
    requires
        effects_shown(states, effects),
        0 <= n <= effects.len(),
    ensures
        states[n].scroll_offset == states[0].scroll_offset,
        states[n].mode == states[0].mode,
        states[n].rename_textarea == states[0].rename_textarea,
        states[n].renaming_id == states[0].renaming_id,
        states[n].core.voice_in == states[0].core.voice_in,
        states[n].core.adele_output == states[0].core.adele_output,
        states[n].core.drafts == states[0].core.drafts,
    decreases n,
{
    if n > 0 {
        lemma_effects_do_not_scroll(states, effects, n - 1);
        assert(effect_shown(states[n - 1], states[n], effects[n - 1]));
    }
}

/// A conversation is listed exactly where some row has its id, and found at the first
/// such row.
pub proof fn law_conversations_are_found(convs: Seq<ConversationSummary>, id: Seq<char>)
    ensures
        listed(convs, id) <==> exists|i: int|
            0 <= i < convs.len() && (#[trigger] convs[i]).id@ == id,
        listed(convs, id) ==> convs[conversation_place(convs, id)].id@ == id,
        forall|i: int|
            0 <= i < conversation_place(convs, id) && i < convs.len() ==> (
            #[trigger] convs[i]).id@ != id,
    decreases convs.len(),
{
    lemma_listed_iff(convs, id);
    if convs.len() > 0 && convs[0].id@ != id {
        let rest = convs.skip(1);
        law_conversations_are_found(rest, id);
        lemma_listed_iff(rest, id);
        assert forall|i: int|
            0 <= i < conversation_place(convs, id) && i < convs.len() implies (
        #[trigger] convs[i]).id@ != id by {
            if i > 0 {
                assert(convs[i] == rest[i - 1]);
            }
        }
        if listed(convs, id) {
            assert(convs[conversation_place(convs, id)] == rest[conversation_place(rest, id)]);
        }
    }
}

/// When a conversation is deleted, the rows of all others stay, in their order.
pub proof fn law_other_conversations_stay(convs: Seq<ConversationSummary>, id: Seq<char>)
    ensures
        other_conversations(convs, id) == convs.filter(|c: ConversationSummary| c.id@ != id),
    decreases convs.len(),
{
    reveal(Seq::filter);
    if convs.len() > 0 {
        assert(convs.drop_last() =~= convs.take(convs.len() - 1));
        law_other_conversations_stay(convs.drop_last(), id);
    }
}

/// A deletion takes the row away and leaves the rest of the window: what is typed, what
/// is open where it is another conversation, the drafts and what waits.
pub proof fn law_deleting_keeps_the_rest(before: App, after: App, id: Seq<char>)
    requires
        forgotten(before, after, id),
    ensures
        after.core.conversations@ == before.core.conversations@.filter(
            |c: ConversationSummary| c.id@ != id,
        ),
        after.textarea == before.textarea,
        after.mode == before.mode,
        after.core.drafts == before.core.drafts,
        after.core.queued == before.core.queued,
        before.open_id() != Some(id) ==> after.core.current == before.core.current,
        before.open_id() == Some(id) ==> after.core.current is None,
        before.on_conversation() && before.selected_conversation->0
            < after.core.conversations@.len() ==> after.selected_conversation
            == before.selected_conversation,
        after.selected_conversation matches Some(i) ==> i < after.core.conversations@.len(),
{
    law_other_conversations_stay(before.core.conversations@, id);
    assert(after.core.conversations.len() == after.core.conversations@.len());
}

/// A new title shows in the row and in the open chat of its conversation, and nowhere
/// else; rows neither come nor go.
pub proof fn law_titles_change_for_one_conversation(
    before: App,
    after: App,
    id: Seq<char>,
    title: Seq<char>,
    i: int,
)
    requires
        renamed(before, after, id, title),
        0 <= i < before.core.conversations@.len(),
    ensures
        after.core.conversations@.len() == before.core.conversations@.len(),
        after.core.conversations@[i].id == before.core.conversations@[i].id,
        after.core.conversations@[i].archived == before.core.conversations@[i].archived,
        before.core.conversations@[i].id@ == id ==> after.core.conversations@[i].title@ == title,
        before.core.conversations@[i].id@ != id ==> after.core.conversations@[i]
            == before.core.conversations@[i],
        before.open_id() == Some(id) ==> (after.core.current matches Some(c) && c.title@ == title
            && c.id@ == id && c.messages == before.core.current->0.messages),
        before.open_id() != Some(id) ==> after.core.current == before.core.current,
        after.textarea == before.textarea,
        after.selected_conversation == before.selected_conversation,
{
    let a = after.core.conversations@[i];
    assert(a == after.core.conversations@[i]);
}

/// An opened conversation is the one that is shown, with the reply that streams in and
/// what waits left as they are; the context usage of another one is gone.
pub proof fn law_opened_conversation_is_shown(before: App, after: App, detail: ConversationDetail)
    requires
        opened(before, after, detail),
    ensures
        after.core.current == Some(detail),
        after.core.stream == before.core.stream,
        after.core.queued == before.core.queued,
        after.core.conversations == before.core.conversations,
        after.core.voice_in == before.core.voice_in,
        after.core.adele_output == before.core.adele_output,
        after.mode == before.mode,
        before.open_id() != Some(detail.id@) ==> after.context_usage is None,
        before.core.current is None ==> draft_texts(after.core.drafts@) == draft_texts(
            before.core.drafts@,
        ),
{
}

/// A draft belongs to its conversation: saving one changes no other, and an empty one is
/// forgotten.
pub proof fn law_drafts_are_kept_apart(
    drafts: Map<Seq<char>, Seq<char>>,
    id: Seq<char>,
    text: Seq<char>,
    other: Seq<char>,
)
    ensures
        draft_of(with_draft(drafts, id, text), id) == text,
        other != id ==> draft_of(with_draft(drafts, id, text), other) == draft_of(drafts, other),
        text.len() == 0 ==> !with_draft(drafts, id, text).contains_key(id),
{
    assert(text.len() == 0 ==> text =~= Seq::<char>::empty());
}

/// What the reducer's reply says of the chat is what the window then shows: the open
/// conversation, the reply that streams in, what waits and what is in hand.
pub proof fn law_replies_are_taken_over(before: App, after: App, reply: CoreReply)
    requires
        replied(before, after, reply),
    ensures
        after.core.current == reply.current,
        after.core.stream == reply.stream,
        after.core.queued == reply.queued,
        after.core.editing_queued == reply.editing_queued,
        (forall|i: int|
            0 <= i < reply.effects@.len() ==> !(#[trigger] reply.effects@[i] is SetConversations))
            ==> after.core.conversations == before.core.conversations,
        (forall|i: int|
            0 <= i < reply.effects@.len() ==> !(#[trigger] reply.effects@[i] is SetComposerText))
            ==> after.textarea == before.textarea,
        (forall|i: int|
            0 <= i < reply.effects@.len() ==> !(#[trigger] reply.effects@[i] is SetStatusText))
            ==> after.status_message == before.status_message,
{
    let effects = reply.effects@;
    let states = choose|states: Seq<App>| #[trigger]
        effects_shown(states, effects) && states[0] == before.with_chat(reply) && states[
        states.len() - 1] == after;
    lemma_effects_keep_the_chat(states, effects, effects.len() as int);
}

proof fn lemma_effects_keep_the_chat(states: Seq<App>, effects: Seq<Effect>, n: int)
    requires
        effects_shown(states, effects),
        0 <= n <= effects.len(),
    ensures
        states[n].core.current == states[0].core.current,
        states[n].core.stream == states[0].core.stream,
        states[n].core.queued == states[0].core.queued,
        states[n].core.editing_queued == states[0].core.editing_queued,
        (forall|i: int| 0 <= i < effects.len() ==> !(#[trigger] effects[i] is SetConversations))
            ==> states[n].core.conversations == states[0].core.conversations,
        (forall|i: int| 0 <= i < effects.len() ==> !(#[trigger] effects[i] is SetComposerText))
            ==> states[n].textarea == states[0].textarea,
        (forall|i: int| 0 <= i < effects.len() ==> !(#[trigger] effects[i] is SetStatusText))
            ==> states[n].status_message == states[0].status_message,
    decreases n,
{
    if n > 0 {
        lemma_effects_keep_the_chat(states, effects, n - 1);
        assert(effect_shown(states[n - 1], states[n], effects[n - 1]));
        assert(effects[n - 1] == effects[n - 1]);
    }
}

/// Each effect shows what it carries: a status text in the status line, what the
/// assistant does beside it, a composer text in the composer, a list in the list.
pub proof fn law_effects_show_what_they_carry(before: App, after: App, effect: Effect)
    requires
        effect_shown(before, after, effect),
    ensures
        effect matches Effect::SetStatusText(text) ==> after.status_message == text,
        effect matches Effect::SetChatStatus(text) ==> (trimmed(text@).len() > 0 ==> opt_text(
            after.assistant_status,
        ) == Some(text@)),
        effect is ClearChatStatus ==> after.assistant_status is None,
        effect matches Effect::SetComposerText(text) ==> area_lines(after.textarea)
            == inserted_lines(text@) && area_ready(after.textarea),
        effect matches Effect::SetContextUsage(usage) ==> after.context_usage == usage,
        effect matches Effect::SetConversations(convs) ==> after.core.conversations == convs,
        !(effect is SetStatusText) ==> after.status_message == before.status_message,
        !(effect is SetComposerText) ==> after.textarea == before.textarea,
        !(effect is SetChatStatus) && !(effect is ClearChatStatus) ==> after.assistant_status
            == before.assistant_status,
        !(effect is SetConversations) ==> after.core == before.core,
        !(effect is SetContextUsage) ==> after.context_usage == before.context_usage,
{
    if effect is SetComposerText {
        let text = effect->SetComposerText_0;
        if text@.len() == 0 {
            assert(text@ =~= Seq::<char>::empty());
            let parts = pieces(text@, Separator::Char('\n'));
            assert(inserted_lines(text@) =~= seq![Seq::<char>::empty()]) by {
                assert(parts.len() == 1);
                assert(crate::area::without_return(parts[0]) =~= Seq::<char>::empty());
            }
        }
    }
}

/// What the window cannot do itself is handed on: every prompt to be sent and every
/// text to be spoken, in their order, and nothing else.
pub proof fn law_effects_are_handed_on(effects: Seq<Effect>)
    ensures
        bubbled(effects) == effects.filter(|e: Effect| e is Speak || e is SendPrompt),
    decreases effects.len(),
{
    reveal(Seq::filter);
    if effects.len() > 0 {
        assert(effects.drop_last() =~= effects.take(effects.len() - 1));
        law_effects_are_handed_on(effects.drop_last());
    }
}

/// A list takes the place of the old one, and the selected row stays selected where
/// there is still such a row.
pub proof fn law_list_is_replaced(app: App, convs: Vec<ConversationSummary>)
    ensures
        app.with_conversations(convs).core.conversations == convs,
        app.with_conversations(convs).core.current == app.core.current,
        app.with_conversations(convs).textarea == app.textarea,
        app.selected_conversation matches Some(i) ==> (i < convs@.len() ==> app.with_conversations(
            convs,
        ).selected_conversation == Some(i)),
        app.selected_conversation is Some && convs@.len() > 0 ==> app.with_conversations(
            convs,
        ).selected_conversation is Some,
        app.selected_conversation is None ==> app.with_conversations(
            convs,
        ).selected_conversation is None,
{
}

/// Speech is off in a conversation that nothing was set for; replies are read aloud on
/// one level, asides spoken on another.
pub proof fn law_speech_is_off_by_default(app: App, id: Seq<char>)
    ensures
        !app.core.voice_in@.contains_key(id) ==> !app.hears(id),
        !app.core.adele_output@.contains_key(id) ==> !app.speaks_asides(id) && app.output_level(id)
            == AdeleOutput::Disabled,
        app.core.adele_output@.contains_key(id) ==> app.output_level(id)
            == app.core.adele_output@[id],
        app.core.voice_in@.contains_key(id) ==> app.hears(id) == app.core.voice_in@[id],
        app.speaks_asides(id) <==> app.output_level(id) == AdeleOutput::OnDemand,
{
}

/// The reply that streams in is shown in its own conversation only.
pub proof fn law_stream_shows_in_its_conversation(app: App)
    ensures
        app.streams_here() ==> (app.core.current matches Some(c) && app.core.stream matches Some(s)
            && s.conversation_id@ == c.id@),
        app.core.current matches Some(c) ==> (app.core.stream matches Some(s) ==> (
        s.conversation_id@ == c.id@ ==> app.streams_here())),
        app.core.stream is None ==> !app.streams_here(),
{
}

/// An inserted text is in the area afterwards, and nothing else is lost or added: what
/// stood before the cursor and what stood behind it stay around it.
pub proof fn law_typed_text_is_inserted(before: Area, after: Area, text: Seq<char>)
    requires
        area_ready(before),
        typed_into(before, after, text),
        forall|i: int| 0 <= i < text.len() ==> text[i] != '\n' && text[i] != '\r',
    ensures
        ({
            let row = area_cursor(before).0 as int;
            let col = area_cursor(before).1 as int;
            let line = area_lines(before)[row];
            &&& area_lines(after) == area_lines(before).update(
                row,
                line.take(col) + text + line.skip(col),
            )
            &&& area_cursor(after) == (row as nat, (col + text.len()) as nat)
        }),
{
    crate::area::lemma_one_line(text);
    assert(inserted_lines(text) =~= seq![text]);
}

/// A text that is pasted into a one-line input keeps its words on one line.
pub proof fn law_one_line_is_one_line(text: Seq<char>)
    ensures
        (forall|i: int| 0 <= i < text.len() ==> text[i] != '\n' && text[i] != '\r') ==> App::one_line(
            text,
        ) == text,
        forall|i: int|
            0 <= i < App::one_line(text).len() ==> #[trigger] App::one_line(text)[i] != '\n'
                && App::one_line(text)[i] != '\r',
{
    reveal_strlit(" ");
    let sep = Separator::LineBreak;
    let parts = pieces(text, sep);
    law_nonempty_pieces_are_runs(text, sep);
    let kept = nonempty(parts);
    lemma_joined_holds_no_break(kept, kept.len() as int);
    assert(kept.take(kept.len() as int) =~= kept);
    if forall|i: int| 0 <= i < text.len() ==> text[i] != '\n' && text[i] != '\r' {
        lemma_no_break_is_one_piece(text);
        if text.len() == 0 {
            assert(parts.take(0).len() == 0);
            assert(nonempty(parts) =~= nonempty(parts.take(0)));
            assert(App::one_line(text) =~= text);
        } else {
            assert(parts.take(0).len() == 0);
            assert(nonempty(parts.take(0)).len() == 0);
            assert(nonempty(parts) =~= seq![text]);
            assert(App::one_line(text) =~= text);
        }
    }
}

proof fn lemma_no_break_is_one_piece(text: Seq<char>)
    requires
        forall|i: int| 0 <= i < text.len() ==> text[i] != '\n' && text[i] != '\r',
    ensures
        pieces(text, Separator::LineBreak) == seq![text],
    decreases text.len(),
{
    if text.len() == 0 {
        assert(text =~= Seq::<char>::empty());
    } else {
        let t = text.take(text.len() - 1);
        lemma_no_break_is_one_piece(t);
        assert(t.push(text[text.len() - 1]) =~= text);
        assert(pieces(text, Separator::LineBreak) =~= seq![text]);
    }
}

proof fn lemma_joined_holds_no_break(parts: Seq<Seq<char>>, n: int)
    requires
        0 <= n <= parts.len(),
        forall|i: int|
            0 <= i < parts.len() ==> forall|j: int|
                0 <= j < (#[trigger] parts[i]).len() ==> !crate::text::separates(
                    Separator::LineBreak,
                    #[trigger] parts[i][j],
                ),
    ensures
        forall|k: int|
            0 <= k < joined(parts.take(n), " "@).len() ==> #[trigger] joined(
                parts.take(n),
                " "@,
            )[k] != '\n' && joined(parts.take(n), " "@)[k] != '\r',
    decreases n,
{
    reveal_strlit(" ");
    if n > 0 {
        lemma_joined_holds_no_break(parts, n - 1);
        let t = parts.take(n - 1);
        let last = parts[n - 1];
        law_joined_text(t, last, " "@);
        assert(t.push(last) =~= parts.take(n));
        let all = joined(parts.take(n), " "@);
        let before = joined(t, " "@);
        assert forall|k: int| 0 <= k < all.len() implies #[trigger] all[k] != '\n' && all[k]
            != '\r' by {
            if n == 1 {
                assert(all[k] == last[k]);
                assert(!crate::text::separates(Separator::LineBreak, parts[n - 1][k]));
            } else if k < before.len() {
                assert(all[k] == before[k]);
            } else if k > before.len() {
                let j = k - before.len() - 1;
                assert(all[k] == last[j]);
                assert(!crate::text::separates(Separator::LineBreak, parts[n - 1][j]));
            }
        }
    }
}

/// A new window is connected and empty: nothing is selected, open, typed, asked for or
/// waited for; the list is shown, and information about the device is shared.
pub proof fn law_a_new_window_is_empty(app: App)
    requires
        app.fresh(),
    ensures
        app.connected,
        app.core.conversations@.len() == 0,
        app.core.current is None,
        app.selected_conversation is None,
        area_lines(app.textarea) == seq![Seq::<char>::empty()],
        app.mode == InputMode::Normal,
        app.show_sidebar && !app.show_help && !app.show_debug && !app.show_archived,
        app.share_client_context,
        !app.should_quit && !app.switch_requested,
        app.pending_screen is None && app.pending_model_override is None
            && app.pending_delete_conversation is None && app.pending_task_cancel is None,
        app.tasks.rows@.len() == 0 && !app.tasks.visible,
        !app.on_conversation(),
        app.core.stream is None && app.core.queued@.len() == 0 && app.core.editing_queued is None,
        !app.streams_here(),
        app.scroll_offset == 0,
{
}

/// A row or column is told as it is, as far as a text area can be told.
pub proof fn law_places_are_told(n: nat)
    ensures
        n <= u16::MAX ==> reachable(n) == n,
        n > u16::MAX ==> reachable(n) == u16::MAX,
{
}

/// An aside is the last message of the conversation that it belongs to, where that is
/// open, with its text as it is; the messages before it stay, and no other conversation
/// gets it.
pub proof fn law_asides_are_shown_where_they_belong(
    before: App,
    after: App,
    id: Seq<char>,
    text: Seq<char>,
    kind: MessageKind,
)
    requires
        App::aside_shown(before, after, id, text, kind),
    ensures
        before.open_id() == Some(id) ==> {
            &&& after.open_id() == Some(id)
            &&& after.core.current->0.messages@.len() == before.core.current->0.messages@.len() + 1
            &&& after.core.current->0.messages@.last().content@ == text
            &&& after.core.current->0.messages@.last().kind == kind
            &&& after.core.current->0.messages@.drop_last() == before.core.current->0.messages@
        },
        before.open_id() != Some(id) ==> after == before,
        after.core.conversations == before.core.conversations,
        after.textarea == before.textarea,
{
    if before.open_id() == Some(id) && after.core.current is Some {
        let n = before.core.current->0.messages@.len() as int;
        let messages = after.core.current->0.messages@;
        if messages.len() == n + 1 {
            assert(messages.drop_last() =~= messages.take(n));
        }
    }
}

/// A step up the queue hands out the message before the one in hand, or the last one; a
/// step down the one behind it. Going up and down again comes back to the same message.
pub proof fn law_queue_is_walked_by_ones(app: App)
    ensures
        app.core.editing_queued is None && app.core.queued@.len() > 0 ==> (app.queue_up() matches Some(
            UiMessage::EditQueued { index },
        ) && index == app.core.queued@.len() - 1),
        app.core.editing_queued is None && app.core.queued@.len() == 0 ==> app.queue_up() is None,
        app.core.editing_queued is None ==> app.queue_down() is None,
        app.core.editing_queued matches Some(i) ==> (i > 0 ==> (app.queue_up() matches Some(
            UiMessage::EditQueued { index },
        ) && index == i - 1)),
        app.core.editing_queued == Some(0usize) ==> app.queue_up() is None,
        app.core.editing_queued matches Some(i) ==> (i < app.core.queued@.len() ==> (
        app.queue_down() matches Some(UiMessage::EditQueued { index }) && index == i + 1)),
        app.core.editing_queued matches Some(i) ==> (i >= app.core.queued@.len() ==> (
        app.queue_down() matches Some(UiMessage::CancelQueuedEdit))),
        app.walks_queue() <==> app.core.editing_queued is Some || (app.core.queued@.len() > 0
            && area_text(app.textarea).len() == 0),
{
    assert(app.core.queued.len() == app.core.queued@.len());
}

/// A title is new where it says something else than the one that the conversation has.
pub proof fn law_new_titles_are_new(app: App, at: int)
    requires
        app.renaming_id is Some,
        0 <= at < app.core.conversations@.len(),
        app.core.conversations@[at].id@ == app.renaming_id->0@,
        forall|i: int|
            0 <= i < at ==> (#[trigger] app.core.conversations@[i]).id@ != app.renaming_id->0@,
    ensures
        app.renames() <==> app.typed_title().len() > 0 && app.typed_title()
            != app.core.conversations@[at].title@,
        trimmed(app.typed_title()) == app.typed_title(),
{
    law_conversations_are_found(app.core.conversations@, app.renaming_id->0@);
    crate::text::law_trimmed_has_no_outer_space(joined(area_lines(app.rename_textarea), " "@));
    let place = conversation_place(app.core.conversations@, app.renaming_id->0@);
    if place < at {
        assert(app.core.conversations@[place].id@ == app.renaming_id->0@);
    }
}

/// Opening, renaming and deleting a conversation, and what the reducer replies, change
/// what they are about and leave everything else of the window as it is.
pub proof fn law_the_rest_of_the_window_stays(
    before: App,
    after: App,
    detail: ConversationDetail,
    id: Seq<char>,
    title: Seq<char>,
)
    ensures
        opened(before, after, detail) ==> after == (App {
            textarea: after.textarea,
            context_usage: after.context_usage,
            core: Core { current: Some(detail), drafts: after.core.drafts, ..before.core },
            ..before
        }),
        renamed(before, after, id, title) ==> after == (App {
            core: Core {
                conversations: after.core.conversations,
                current: after.core.current,
                ..before.core
            },
            ..before
        }),
        forgotten(before, after, id) ==> after == (App {
            selected_conversation: after.selected_conversation,
            core: Core {
                conversations: after.core.conversations,
                voice_in: after.core.voice_in,
                adele_output: after.core.adele_output,
                current: after.core.current,
                ..before.core
            },
            ..before
        }),
        opened(before, after, detail) && before.open_id() == Some(detail.id@) ==> after.textarea
            == before.textarea && after.context_usage == before.context_usage,
{
}

/// The selection of a list stays where its row is still there, goes to the last row where
/// it is not, and is gone with the last row.
pub proof fn law_selection_is_kept_in_the_list(selected: Option<usize>, len: nat)
    ensures
        selected is None ==> clamped(selected, len) is None,
        selected matches Some(i) ==> (i < len ==> clamped(selected, len) == Some(i)),
        selected matches Some(i) ==> (i >= len && 0 < len <= usize::MAX ==> (
        clamped(selected, len) matches Some(k) && k == len - 1)),
        len == 0 ==> clamped(selected, len) is None,
{
}

} // verus!
