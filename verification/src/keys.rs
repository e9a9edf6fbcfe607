//! Key bindings of the chat window.

use vstd::prelude::*;
use crate::app::InputMode;
#[allow(unused_imports)]
use crate::text::{digit, digits};

verus! {

/// A key, without its modifiers.
#[derive(Debug, Clone, Copy, PartialEq, Eq, Structural)]
pub enum KeyCode {
    Char(char),
    F(u8),
    Enter,
    Esc,
    Tab,
    BackTab,
    Backspace,
    Delete,
    Left,
    Right,
    Up,
    Down,
    Home,
    End,
    PageUp,
    PageDown,
    /// Any key that no binding and no text area reads.
    Other,
}

/// The modifiers held down with a key.
#[derive(Debug, Clone, Copy, PartialEq, Eq, Structural)]
pub struct KeyModifiers {
    pub shift: bool,
    pub control: bool,
    pub alt: bool,
    pub meta: bool,
    pub super_key: bool,
    pub hyper: bool,
}

#[derive(Debug, Clone, Copy, PartialEq, Eq, Structural)]
pub enum KeyEventKind {
    Press,
    Repeat,
    Release,
}

#[derive(Debug, Clone, Copy, PartialEq, Eq, Structural)]
pub struct KeyEvent {
    pub code: KeyCode,
    pub modifiers: KeyModifiers,
    pub kind: KeyEventKind,
}

impl KeyModifiers {
    /// No modifier is held down.
    pub open spec fn none(self) -> bool {
        !self.shift && !self.control && !self.alt && !self.meta && !self.super_key && !self.hyper
    }

    pub fn is_empty(self) -> (b: bool)
        ensures
            b == self.none(),
    {
        !self.shift && !self.control && !self.alt && !self.meta && !self.super_key && !self.hyper
    }
}

/// What a key asks the chat window to do.
#[derive(Debug, Clone, Copy, PartialEq, Eq, Structural)]
pub enum Action {
    Quit,
    NextConversation,
    PreviousConversation,
    OpenConversation,
    /// Ask for confirmation before the selected conversation is deleted.
    BeginDeleteConversation,
    /// Delete the selected conversation; only the confirmation asks for this.
    DeleteConversation,
    ArchiveConversation,
    NewConversation,
    EnterEditMode,
    ExitEditMode,
    SubmitPrompt,
    InsertNewline,
    ScrollUp,
    ScrollDown,
    ScrollToBottom,
    ToggleShowArchived,
    BeginRename,
    SubmitRename,
    CancelRename,
    ToggleDebug,
    ToggleSidebar,
    /// Share device information with the assistant, or stop sharing it.
    ToggleShareContext,
    SwitchConnection,
    OpenKnowledgeBase,
    OpenConnections,
    OpenPurposes,
    OpenMcpServers,
    OpenModelPicker,
    OpenPersonalityPicker,
    ToggleTasksPane,
    NextTask,
    PreviousTask,
    CancelSelectedTask,
    OpenSelectedTaskConversation,
    /// Push-to-talk dictation.
    Dictate,
    CycleAdeleOutput,
    ToggleVoiceIn,
    ToggleHelp,
}

/// Function keys, from any mode.
pub open spec fn function_binding(n: u8) -> Option<Action> {
    if n == 1 {
        Some(Action::ToggleHelp)
    } else if n == 2 {
        Some(Action::SwitchConnection)
    } else if n == 3 {
        Some(Action::OpenConnections)
    } else if n == 4 {
        Some(Action::OpenPurposes)
    } else if n == 5 {
        Some(Action::OpenMcpServers)
    } else {
        None
    }
}

/// Letters pressed with Control, outside the rename input.
pub open spec fn control_binding(mode: InputMode, c: char) -> Option<Action> {
    match c {
        'j' => if mode == InputMode::Editing {
            Some(Action::InsertNewline)
        } else {
            None
        },
        'u' => Some(Action::ScrollUp),
        'd' => Some(Action::ScrollDown),
        'e' => Some(Action::ScrollToBottom),
        't' => Some(Action::ToggleDebug),
        'b' => Some(Action::ToggleSidebar),
        'o' => Some(Action::ToggleShareContext),
        'k' => Some(Action::OpenKnowledgeBase),
        'm' => Some(Action::OpenModelPicker),
        'r' => Some(Action::OpenPersonalityPicker),
        'p' => Some(Action::ToggleTasksPane),
        'g' => Some(Action::Dictate),
        's' => Some(Action::CycleAdeleOutput),
        'v' => Some(Action::ToggleVoiceIn),
        _ => None,
    }
}

/// Keys without modifiers while the tasks pane is open.
pub open spec fn pane_binding(code: KeyCode) -> Option<Action> {
    if code == KeyCode::Esc {
        Some(Action::ToggleTasksPane)
    } else if code == KeyCode::Char('j') || code == KeyCode::Down {
        Some(Action::NextTask)
    } else if code == KeyCode::Char('k') || code == KeyCode::Up {
        Some(Action::PreviousTask)
    } else if code == KeyCode::Char('c') {
        Some(Action::CancelSelectedTask)
    } else if code == KeyCode::Enter {
        Some(Action::OpenSelectedTaskConversation)
    } else {
        None
    }
}

/// Keys in the conversation list.
pub open spec fn normal_binding(code: KeyCode) -> Option<Action> {
    match code {
        KeyCode::Enter => Some(Action::OpenConversation),
        KeyCode::Down => Some(Action::NextConversation),
        KeyCode::Up => Some(Action::PreviousConversation),
        KeyCode::PageUp => Some(Action::ScrollUp),
        KeyCode::PageDown => Some(Action::ScrollDown),
        KeyCode::End => Some(Action::ScrollToBottom),
        KeyCode::Char(c) => match c {
            'q' => Some(Action::Quit),
            'j' => Some(Action::NextConversation),
            'k' => Some(Action::PreviousConversation),
            'd' => Some(Action::BeginDeleteConversation),
            'n' => Some(Action::NewConversation),
            'a' => Some(Action::ToggleShowArchived),
            'A' => Some(Action::ArchiveConversation),
            'r' => Some(Action::BeginRename),
            'i' => Some(Action::EnterEditMode),
            '?' => Some(Action::ToggleHelp),
            _ => None,
        },
        _ => None,
    }
}

/// Keys in the rename input.
pub open spec fn renaming_binding(code: KeyCode) -> Option<Action> {
    match code {
        KeyCode::Enter => Some(Action::SubmitRename),
        KeyCode::Esc => Some(Action::CancelRename),
        _ => None,
    }
}

/// Keys in the composer.
pub open spec fn editing_binding(key: KeyEvent) -> Option<Action> {
    match key.code {
        KeyCode::Enter => if key.modifiers.shift {
            Some(Action::InsertNewline)
        } else if key.modifiers.none() {
            Some(Action::SubmitPrompt)
        } else {
            None
        },
        KeyCode::Char(c) => if c == '\n' || c == '\r' {
            Some(Action::InsertNewline)
        } else {
            None
        },
        KeyCode::Esc => Some(Action::ExitEditMode),
        KeyCode::PageUp => Some(Action::ScrollUp),
        KeyCode::PageDown => Some(Action::ScrollDown),
        KeyCode::End => if key.modifiers.shift {
            Some(Action::ScrollToBottom)
        } else {
            None
        },
        _ => None,
    }
}

/// A function key that is bound, pressed without modifiers.
pub open spec fn is_function_binding(key: KeyEvent) -> bool {
    &&& key.modifiers.none()
    &&& key.code matches KeyCode::F(n)
    &&& function_binding(n) is Some
}

/// The action that a key stands for. A key without one goes to the focused
/// text area.
pub open spec fn binding(key: KeyEvent, mode: InputMode, tasks_pane_visible: bool) -> Option<
    Action,
> {
    if is_function_binding(key) {
        function_binding(key.code->F_0)
    } else if key.modifiers.control && mode != InputMode::Renaming {
        match key.code {
            KeyCode::Char(c) => control_binding(mode, c),
            _ => None,
        }
    } else if tasks_pane_visible {
        if key.modifiers.none() {
            pane_binding(key.code)
        } else {
            None
        }
    } else {
        match mode {
            InputMode::Normal => if key.modifiers.alt || key.modifiers.meta {
                None
            } else {
                normal_binding(key.code)
            },
            InputMode::Renaming => renaming_binding(key.code),
            InputMode::Editing => editing_binding(key),
        }
    }
}

fn control_action(mode: InputMode, c: char) -> (action: Option<Action>)
    ensures
        action == control_binding(mode, c),
{
    if c == 'j' {
        return match mode {
            InputMode::Editing => Some(Action::InsertNewline),
            _ => None,
        };
    }
    match c {
        'u' => Some(Action::ScrollUp),
        'd' => Some(Action::ScrollDown),
        'e' => Some(Action::ScrollToBottom),
        't' => Some(Action::ToggleDebug),
        'b' => Some(Action::ToggleSidebar),
        'o' => Some(Action::ToggleShareContext),
        'k' => Some(Action::OpenKnowledgeBase),
        'm' => Some(Action::OpenModelPicker),
        'r' => Some(Action::OpenPersonalityPicker),
        'p' => Some(Action::ToggleTasksPane),
        'g' => Some(Action::Dictate),
        's' => Some(Action::CycleAdeleOutput),
        'v' => Some(Action::ToggleVoiceIn),
        _ => None,
    }
}

fn pane_action(key: KeyEvent) -> (action: Option<Action>)
    ensures
        action == (if key.modifiers.none() {
            pane_binding(key.code)
        } else {
            None
        }),
{
    if !key.modifiers.is_empty() {
        return None;
    }
    match key.code {
        KeyCode::Esc => Some(Action::ToggleTasksPane),
        KeyCode::Char('j') | KeyCode::Down => Some(Action::NextTask),
        KeyCode::Char('k') | KeyCode::Up => Some(Action::PreviousTask),
        KeyCode::Char('c') => Some(Action::CancelSelectedTask),
        KeyCode::Enter => Some(Action::OpenSelectedTaskConversation),
        _ => None,
    }
}

fn normal_action(code: KeyCode) -> (action: Option<Action>)
    ensures
        action == normal_binding(code),
{
    match code {
        KeyCode::Enter => Some(Action::OpenConversation),
        KeyCode::Char('q') => Some(Action::Quit),
        KeyCode::Char('j') | KeyCode::Down => Some(Action::NextConversation),
        KeyCode::Char('k') | KeyCode::Up => Some(Action::PreviousConversation),
        KeyCode::Char('d') => Some(Action::BeginDeleteConversation),
        KeyCode::Char('n') => Some(Action::NewConversation),
        KeyCode::Char('a') => Some(Action::ToggleShowArchived),
        KeyCode::Char('A') => Some(Action::ArchiveConversation),
        KeyCode::Char('r') => Some(Action::BeginRename),
        KeyCode::Char('i') => Some(Action::EnterEditMode),
        KeyCode::Char('?') => Some(Action::ToggleHelp),
        KeyCode::PageUp => Some(Action::ScrollUp),
        KeyCode::PageDown => Some(Action::ScrollDown),
        KeyCode::End => Some(Action::ScrollToBottom),
        _ => None,
    }
}

fn editing_action(key: KeyEvent) -> (action: Option<Action>)
    ensures
        action == editing_binding(key),
{
    match key.code {
        KeyCode::Enter => {
            if key.modifiers.shift {
                Some(Action::InsertNewline)
            } else if key.modifiers.is_empty() {
                Some(Action::SubmitPrompt)
            } else {
                None
            }
        },
        KeyCode::Char('\n') | KeyCode::Char('\r') => Some(Action::InsertNewline),
        KeyCode::Esc => Some(Action::ExitEditMode),
        KeyCode::PageUp => Some(Action::ScrollUp),
        KeyCode::PageDown => Some(Action::ScrollDown),
        KeyCode::End if key.modifiers.shift => Some(Action::ScrollToBottom),
        _ => None,
    }
}

/// The action that a key stands for in the given mode; `None` for a key that
/// goes to the focused text area.
pub fn handle_key_event(key: KeyEvent, mode: &InputMode, tasks_pane_visible: bool) -> (action:
    Option<Action>)
    ensures
        action == binding(key, *mode, tasks_pane_visible),
{
    if key.modifiers.is_empty() {
        match key.code {
            KeyCode::F(1) => return Some(Action::ToggleHelp),
            KeyCode::F(2) => return Some(Action::SwitchConnection),
            KeyCode::F(3) => return Some(Action::OpenConnections),
            KeyCode::F(4) => return Some(Action::OpenPurposes),
            KeyCode::F(5) => return Some(Action::OpenMcpServers),
            _ => {},
        }
    }
    let renaming: bool = match mode {
        InputMode::Renaming => true,
        _ => false,
    };
    if key.modifiers.control && !renaming {
        return match key.code {
            KeyCode::Char(c) => control_action(*mode, c),
            _ => None,
        };
    }
    if tasks_pane_visible {
        return pane_action(key);
    }
    match mode {
        InputMode::Normal => {
            if key.modifiers.alt || key.modifiers.meta {
                None
            } else {
                normal_action(key.code)
            }
        },
        InputMode::Renaming => match key.code {
            KeyCode::Enter => Some(Action::SubmitRename),
            KeyCode::Esc => Some(Action::CancelRename),
            _ => None,
        },
        InputMode::Editing => editing_action(key),
    }
}

/// The bound function keys mean the same in every mode, and while the tasks
/// pane is open.
pub proof fn law_function_keys_are_global(
    key: KeyEvent,
    a: InputMode,
    b: InputMode,
    pane_a: bool,
    pane_b: bool,
)
    requires
        is_function_binding(key),
    ensures
        binding(key, a, pane_a) == binding(key, b, pane_b),
        binding(key, a, pane_a) is Some,
{
}

/// No key deletes a conversation directly: deletion is only ever asked for by
/// the confirmation.
pub proof fn law_no_key_deletes_directly(key: KeyEvent, mode: InputMode, pane: bool)
    ensures
        binding(key, mode, pane) != Some(Action::DeleteConversation),
{
}

/// In the rename input, while the tasks pane is closed, every key but Enter,
/// Escape and the bound function keys goes to the text area, Control combinations
/// too.
pub proof fn law_rename_input_gets_its_keys(key: KeyEvent)
    requires
        !is_function_binding(key),
        key.code != KeyCode::Enter,
        key.code != KeyCode::Esc,
    ensures
        binding(key, InputMode::Renaming, false) is None,
{
}

/// An open tasks pane swallows every other key that is neither a bound
/// function key nor a Control combination.
pub proof fn law_open_pane_swallows_keys(key: KeyEvent, mode: InputMode)
    requires
        !is_function_binding(key),
        !key.modifiers.control,
    ensures
        binding(key, mode, true) matches Some(action) ==> (action == Action::NextTask || action
            == Action::PreviousTask || action == Action::CancelSelectedTask || action
            == Action::OpenSelectedTaskConversation || action == Action::ToggleTasksPane),
{
}

/// Escape closes the open tasks pane, and so does Control+P outside the rename
/// input.
pub proof fn law_pane_closes(key: KeyEvent, mode: InputMode)
    requires
        (key.code == KeyCode::Esc && key.modifiers.none()) || (key.code == KeyCode::Char('p')
            && key.modifiers.control && mode != InputMode::Renaming),
    ensures
        binding(key, mode, true) == Some(Action::ToggleTasksPane),
{
}

/// A section of the help overlay: its title, and keys with what they do.
pub type HelpSection = (&'static str, Vec<(&'static str, &'static str)>);

pub open spec fn entry_texts(v: Seq<(&'static str, &'static str)>) -> Seq<(Seq<char>, Seq<char>)> {
    Seq::new(v.len(), |i: int| (v[i].0@, v[i].1@))
}

pub open spec fn section_texts(s: HelpSection) -> (Seq<char>, Seq<(Seq<char>, Seq<char>)>) {
    (s.0@, entry_texts(s.1@))
}

/// The help overlay: every section in order.
pub open spec fn help() -> Seq<(Seq<char>, Seq<(Seq<char>, Seq<char>)>)> {
    seq![
        (
            "Conversations (Normal mode)"@,
            seq![
                ("j / k   ↑ / ↓"@, "move selection"@),
                ("Enter"@, "open conversation"@),
                ("i"@, "compose / edit"@),
                ("n"@, "new conversation"@),
                ("r"@, "rename"@),
                ("d"@, "delete"@),
                ("A"@, "archive"@),
                ("a"@, "show / hide archived"@),
                ("q"@, "quit"@),
            ],
        ),
        (
            "Composing (edit mode)"@,
            seq![
                ("Enter"@, "send"@),
                ("Shift+Enter / Ctrl+J"@, "insert newline"@),
                ("Esc"@, "leave edit mode"@),
            ],
        ),
        (
            "Scroll"@,
            seq![
                ("Ctrl+U / Ctrl+D"@, "page up / down"@),
                ("Ctrl+E"@, "jump to bottom"@),
            ],
        ),
        (
            "View"@,
            seq![
                ("Ctrl+B"@, "toggle sidebar"@),
                ("Ctrl+T"@, "toggle debug messages"@),
                ("Ctrl+O"@, "share device info"@),
                ("Ctrl+P"@, "tasks pane"@),
            ],
        ),
        (
            "Open"@,
            seq![
                ("F2"@, "switch connection"@),
                ("F3"@, "connections manager"@),
                ("F4"@, "purposes"@),
                ("F5"@, "MCP servers"@),
                ("Ctrl+K"@, "knowledge base"@),
                ("Ctrl+M"@, "model picker"@),
                ("Ctrl+R"@, "personality"@),
            ],
        ),
        (
            "Voice"@,
            seq![
                ("Ctrl+G"@, "push-to-talk dictation"@),
                ("Ctrl+S"@, "cycle Adele voice output"@),
                ("Ctrl+V"@, "toggle You (voice input)"@),
            ],
        ),
        (
            "Tasks pane (when open)"@,
            seq![
                ("j / k"@, "move selection"@),
                ("c"@, "cancel task"@),
                ("Enter"@, "open task's conversation"@),
                ("Esc"@, "close pane"@),
            ],
        ),
    ]
}

/// The keymap shown in the help overlay.
pub fn help_sections() -> (sections: Vec<HelpSection>)
    ensures
        sections@.len() == help().len(),
        forall|i: int| 0 <= i < help().len() ==> section_texts(#[trigger] sections@[i]) == help()[i],
{
    let sections: Vec<HelpSection> = vec![
        (
            "Conversations (Normal mode)",
            vec![
                ("j / k   ↑ / ↓", "move selection"),
                ("Enter", "open conversation"),
                ("i", "compose / edit"),
                ("n", "new conversation"),
                ("r", "rename"),
                ("d", "delete"),
                ("A", "archive"),
                ("a", "show / hide archived"),
                ("q", "quit"),
            ],
        ),
        (
            "Composing (edit mode)",
            vec![
                ("Enter", "send"),
                ("Shift+Enter / Ctrl+J", "insert newline"),
                ("Esc", "leave edit mode"),
            ],
        ),
        (
            "Scroll",
            vec![
                ("Ctrl+U / Ctrl+D", "page up / down"),
                ("Ctrl+E", "jump to bottom"),
            ],
        ),
        (
            "View",
            vec![
                ("Ctrl+B", "toggle sidebar"),
                ("Ctrl+T", "toggle debug messages"),
                ("Ctrl+O", "share device info"),
                ("Ctrl+P", "tasks pane"),
            ],
        ),
        (
            "Open",
            vec![
                ("F2", "switch connection"),
                ("F3", "connections manager"),
                ("F4", "purposes"),
                ("F5", "MCP servers"),
                ("Ctrl+K", "knowledge base"),
                ("Ctrl+M", "model picker"),
                ("Ctrl+R", "personality"),
            ],
        ),
        (
            "Voice",
            vec![
                ("Ctrl+G", "push-to-talk dictation"),
                ("Ctrl+S", "cycle Adele voice output"),
                ("Ctrl+V", "toggle You (voice input)"),
            ],
        ),
        (
            "Tasks pane (when open)",
            vec![
                ("j / k", "move selection"),
                ("c", "cancel task"),
                ("Enter", "open task's conversation"),
                ("Esc", "close pane"),
            ],
        ),
    ];
    assert(entry_texts(sections@[0].1@) =~= help()[0].1);
    assert(entry_texts(sections@[1].1@) =~= help()[1].1);
    assert(entry_texts(sections@[2].1@) =~= help()[2].1);
    assert(entry_texts(sections@[3].1@) =~= help()[3].1);
    assert(entry_texts(sections@[4].1@) =~= help()[4].1);
    assert(entry_texts(sections@[5].1@) =~= help()[5].1);
    assert(entry_texts(sections@[6].1@) =~= help()[6].1);
    sections
}

/// A key press with no modifier but, where asked for, Shift or Control.
pub open spec fn press_of(code: KeyCode, shift: bool, control: bool) -> KeyEvent {
    KeyEvent {
        code,
        modifiers: KeyModifiers {
            shift,
            control,
            alt: false,
            meta: false,
            super_key: false,
            hyper: false,
        },
        kind: KeyEventKind::Press,
    }
}

pub open spec fn plain_key(code: KeyCode) -> KeyEvent {
    press_of(code, false, false)
}

pub open spec fn control_key(c: char) -> KeyEvent {
    press_of(KeyCode::Char(c), false, true)
}

/// The capital of a small letter of ASCII.
pub open spec fn capital(c: char) -> char {
    if 'a' <= c && c <= 'z' {
        ((c as u32) - 32) as char
    } else {
        c
    }
}

/// How the help writes a key.
pub open spec fn key_name(key: KeyEvent) -> Seq<char> {
    let bare = match key.code {
        KeyCode::Char(c) => seq![
            if key.modifiers.control {
                capital(c)
            } else {
                c
            },
        ],
        KeyCode::F(n) => "F"@ + digits(n as nat),
        KeyCode::Enter => "Enter"@,
        KeyCode::Esc => "Esc"@,
        KeyCode::Up => "↑"@,
        KeyCode::Down => "↓"@,
        _ => Seq::<char>::empty(),
    };
    if key.modifiers.control {
        "Ctrl+"@ + bare
    } else if key.modifiers.shift {
        "Shift+"@ + bare
    } else {
        bare
    }
}

/// How the help writes the keys of an entry: alternatives side by side, and two
/// pairs of them apart.
pub open spec fn keys_written(keys: Seq<KeyEvent>) -> Seq<char> {
    if keys.len() == 1 {
        key_name(keys[0])
    } else if keys.len() == 2 {
        key_name(keys[0]) + " / "@ + key_name(keys[1])
    } else {
        key_name(keys[0]) + " / "@ + key_name(keys[1]) + "   "@ + key_name(keys[2]) + " / "@
            + key_name(keys[3])
    }
}

/// The keys of every entry of the help.
pub open spec fn keymap() -> Seq<Seq<Seq<KeyEvent>>> {
    seq![
        seq![
            seq![
                plain_key(KeyCode::Char('j')),
                plain_key(KeyCode::Char('k')),
                plain_key(KeyCode::Up),
                plain_key(KeyCode::Down),
            ],
            seq![plain_key(KeyCode::Enter)],
            seq![plain_key(KeyCode::Char('i'))],
            seq![plain_key(KeyCode::Char('n'))],
            seq![plain_key(KeyCode::Char('r'))],
            seq![plain_key(KeyCode::Char('d'))],
            seq![plain_key(KeyCode::Char('A'))],
            seq![plain_key(KeyCode::Char('a'))],
            seq![plain_key(KeyCode::Char('q'))],
        ],
        seq![
            seq![plain_key(KeyCode::Enter)],
            seq![press_of(KeyCode::Enter, true, false), control_key('j')],
            seq![plain_key(KeyCode::Esc)],
        ],
        seq![seq![control_key('u'), control_key('d')], seq![control_key('e')]],
        seq![
            seq![control_key('b')],
            seq![control_key('t')],
            seq![control_key('o')],
            seq![control_key('p')],
        ],
        seq![
            seq![plain_key(KeyCode::F(2))],
            seq![plain_key(KeyCode::F(3))],
            seq![plain_key(KeyCode::F(4))],
            seq![plain_key(KeyCode::F(5))],
            seq![control_key('k')],
            seq![control_key('m')],
            seq![control_key('r')],
        ],
        seq![seq![control_key('g')], seq![control_key('s')], seq![control_key('v')]],
        seq![
            seq![plain_key(KeyCode::Char('j')), plain_key(KeyCode::Char('k'))],
            seq![plain_key(KeyCode::Char('c'))],
            seq![plain_key(KeyCode::Enter)],
            seq![plain_key(KeyCode::Esc)],
        ],
    ]
}

/// Where the keys of a section of the help work: in the conversation list, in the
/// composer, in both whatever is open, and in the open tasks pane.
pub open spec fn section_works(i: int, mode: InputMode, pane: bool) -> bool {
    if i == 0 {
        mode == InputMode::Normal && !pane
    } else if i == 1 {
        mode == InputMode::Editing && !pane
    } else if i == 6 {
        pane
    } else {
        mode != InputMode::Renaming
    }
}

/// The words of the help for an action.
pub open spec fn describes(text: Seq<char>, action: Action) -> bool {
    match action {
        Action::NextConversation
        | Action::PreviousConversation
        | Action::NextTask
        | Action::PreviousTask => text == "move selection"@,
        Action::OpenConversation => text == "open conversation"@,
        Action::EnterEditMode => text == "compose / edit"@,
        Action::NewConversation => text == "new conversation"@,
        Action::BeginRename => text == "rename"@,
        Action::BeginDeleteConversation => text == "delete"@,
        Action::ArchiveConversation => text == "archive"@,
        Action::ToggleShowArchived => text == "show / hide archived"@,
        Action::Quit => text == "quit"@,
        Action::SubmitPrompt => text == "send"@,
        Action::InsertNewline => text == "insert newline"@,
        Action::ExitEditMode => text == "leave edit mode"@,
        Action::ScrollUp | Action::ScrollDown => text == "page up / down"@,
        Action::ScrollToBottom => text == "jump to bottom"@,
        Action::ToggleSidebar => text == "toggle sidebar"@,
        Action::ToggleDebug => text == "toggle debug messages"@,
        Action::ToggleShareContext => text == "share device info"@,
        Action::ToggleTasksPane => text == "tasks pane"@ || text == "close pane"@,
        Action::SwitchConnection => text == "switch connection"@,
        Action::OpenConnections => text == "connections manager"@,
        Action::OpenPurposes => text == "purposes"@,
        Action::OpenMcpServers => text == "MCP servers"@,
        Action::OpenKnowledgeBase => text == "knowledge base"@,
        Action::OpenModelPicker => text == "model picker"@,
        Action::OpenPersonalityPicker => text == "personality"@,
        Action::Dictate => text == "push-to-talk dictation"@,
        Action::CycleAdeleOutput => text == "cycle Adele voice output"@,
        Action::ToggleVoiceIn => text == "toggle You (voice input)"@,
        Action::CancelSelectedTask => text == "cancel task"@,
        Action::OpenSelectedTaskConversation => text == "open task's conversation"@,
        Action::DeleteConversation
        | Action::SubmitRename
        | Action::CancelRename
        | Action::ToggleHelp => false,
    }
}

/// The help has an entry `j` in section `i`.
pub open spec fn is_entry(i: int, j: int) -> bool {
    0 <= i < help().len() && 0 <= j < help()[i].1.len()
}

/// No section of the help is empty, and each entry has its keys.
pub proof fn law_no_help_section_is_empty(i: int)
    requires
        0 <= i < help().len(),
    ensures
        help()[i].1.len() > 0,
        keymap().len() == help().len(),
        keymap()[i].len() == help()[i].1.len(),
{
}

/// Each key that the help names does, where its section works, what the help says
/// of it.
#[verifier::rlimit(60)]
pub proof fn law_help_is_true(i: int, j: int, n: int, mode: InputMode, pane: bool)
    requires
        is_entry(i, j),
        0 <= n < keymap()[i][j].len(),
        section_works(i, mode, pane),
    ensures
        binding(keymap()[i][j][n], mode, pane) matches Some(action) && describes(
            help()[i].1[j].1,
            action,
        ),
{
}

/// A Control key is written with its capital.
proof fn lemma_control_name(c: char)
    requires
        'a' <= c && c <= 'z',
    ensures
        key_name(control_key(c)) == seq!['C', 't', 'r', 'l', '+', capital(c)],
        keys_written(seq![control_key(c)]) == seq!['C', 't', 'r', 'l', '+', capital(c)],
{
    reveal_strlit("Ctrl+");
    assert(key_name(control_key(c)) =~= seq!['C', 't', 'r', 'l', '+', capital(c)]);
}

proof fn lemma_function_name(n: u8)
    requires
        n < 10,
    ensures
        keys_written(seq![plain_key(KeyCode::F(n))]) == seq!['F', digit(n as nat)],
{
    reveal_strlit("F");
    assert("F"@ + digits(n as nat) =~= seq!['F', digit(n as nat)]);
}

proof fn lemma_letter_name(c: char)
    ensures
        keys_written(seq![plain_key(KeyCode::Char(c))]) == seq![c],
{
}

proof fn lemma_list_names(j: int)
    requires
        is_entry(0, j),
    ensures
        help()[0].1[j].0 == keys_written(keymap()[0][j]),
{
    reveal_strlit("j / k   ↑ / ↓");
    reveal_strlit(" / ");
    reveal_strlit("   ");
    reveal_strlit("↑");
    reveal_strlit("↓");
    reveal_strlit("i");
    reveal_strlit("n");
    reveal_strlit("r");
    reveal_strlit("d");
    reveal_strlit("A");
    reveal_strlit("a");
    reveal_strlit("q");
    assert(keymap()[0][0].len() == 4);
    assert("j / k   ↑ / ↓"@ =~= keys_written(keymap()[0][0]));
    assert("i"@ =~= seq!['i']);
    assert("n"@ =~= seq!['n']);
    assert("r"@ =~= seq!['r']);
    assert("d"@ =~= seq!['d']);
    assert("A"@ =~= seq!['A']);
    assert("a"@ =~= seq!['a']);
    assert("q"@ =~= seq!['q']);
}

proof fn lemma_composer_names(j: int)
    requires
        is_entry(1, j),
    ensures
        help()[1].1[j].0 == keys_written(keymap()[1][j]),
{
    reveal_strlit("Shift+Enter / Ctrl+J");
    reveal_strlit(" / ");
    reveal_strlit("Shift+");
    reveal_strlit("Enter");
    lemma_control_name('j');
    assert("Shift+Enter / Ctrl+J"@ =~= keys_written(keymap()[1][1]));
}

proof fn lemma_scroll_names(j: int)
    requires
        is_entry(2, j),
    ensures
        help()[2].1[j].0 == keys_written(keymap()[2][j]),
{
    reveal_strlit("Ctrl+U / Ctrl+D");
    reveal_strlit("Ctrl+E");
    reveal_strlit(" / ");
    lemma_control_name('u');
    lemma_control_name('d');
    assert("Ctrl+U / Ctrl+D"@ =~= keys_written(keymap()[2][0]));
    lemma_control_name('e');
    assert("Ctrl+E"@ =~= seq!['C', 't', 'r', 'l', '+', 'E']);
}

proof fn lemma_view_names(j: int)
    requires
        is_entry(3, j),
    ensures
        help()[3].1[j].0 == keys_written(keymap()[3][j]),
{
    reveal_strlit("Ctrl+B");
    reveal_strlit("Ctrl+T");
    reveal_strlit("Ctrl+O");
    reveal_strlit("Ctrl+P");
    lemma_control_name('b');
    assert("Ctrl+B"@ =~= seq!['C', 't', 'r', 'l', '+', 'B']);
    lemma_control_name('t');
    assert("Ctrl+T"@ =~= seq!['C', 't', 'r', 'l', '+', 'T']);
    lemma_control_name('o');
    assert("Ctrl+O"@ =~= seq!['C', 't', 'r', 'l', '+', 'O']);
    lemma_control_name('p');
    assert("Ctrl+P"@ =~= seq!['C', 't', 'r', 'l', '+', 'P']);
}

proof fn lemma_open_names(j: int)
    requires
        is_entry(4, j),
    ensures
        help()[4].1[j].0 == keys_written(keymap()[4][j]),
{
    reveal_strlit("F2");
    reveal_strlit("F3");
    reveal_strlit("F4");
    reveal_strlit("F5");
    reveal_strlit("Ctrl+K");
    reveal_strlit("Ctrl+M");
    reveal_strlit("Ctrl+R");
    lemma_function_name(2);
    assert("F2"@ =~= seq!['F', '2']);
    lemma_function_name(3);
    assert("F3"@ =~= seq!['F', '3']);
    lemma_function_name(4);
    assert("F4"@ =~= seq!['F', '4']);
    lemma_function_name(5);
    assert("F5"@ =~= seq!['F', '5']);
    lemma_control_name('k');
    assert("Ctrl+K"@ =~= seq!['C', 't', 'r', 'l', '+', 'K']);
    lemma_control_name('m');
    assert("Ctrl+M"@ =~= seq!['C', 't', 'r', 'l', '+', 'M']);
    lemma_control_name('r');
    assert("Ctrl+R"@ =~= seq!['C', 't', 'r', 'l', '+', 'R']);
}

proof fn lemma_voice_names(j: int)
    requires
        is_entry(5, j),
    ensures
        help()[5].1[j].0 == keys_written(keymap()[5][j]),
{
    reveal_strlit("Ctrl+G");
    reveal_strlit("Ctrl+S");
    reveal_strlit("Ctrl+V");
    lemma_control_name('g');
    assert("Ctrl+G"@ =~= seq!['C', 't', 'r', 'l', '+', 'G']);
    lemma_control_name('s');
    assert("Ctrl+S"@ =~= seq!['C', 't', 'r', 'l', '+', 'S']);
    lemma_control_name('v');
    assert("Ctrl+V"@ =~= seq!['C', 't', 'r', 'l', '+', 'V']);
}

proof fn lemma_pane_names(j: int)
    requires
        is_entry(6, j),
    ensures
        help()[6].1[j].0 == keys_written(keymap()[6][j]),
{
    reveal_strlit("j / k");
    reveal_strlit(" / ");
    reveal_strlit("c");
    assert("j / k"@ =~= keys_written(keymap()[6][0]));
    assert("c"@ =~= seq!['c']);
}

/// The keys of each entry are written as the help shows them.
pub proof fn law_help_names_its_keys(i: int, j: int)
    requires
        is_entry(i, j),
    ensures
        keymap()[i][j].len() > 0,
        help()[i].1[j].0 == keys_written(keymap()[i][j]),
{
    if i == 0 {
        lemma_list_names(j);
    } else if i == 1 {
        lemma_composer_names(j);
    } else if i == 2 {
        lemma_scroll_names(j);
    } else if i == 3 {
        lemma_view_names(j);
    } else if i == 4 {
        lemma_open_names(j);
    } else if i == 5 {
        lemma_voice_names(j);
    } else {
        lemma_pane_names(j);
    }
}

/// The help names a key in this entry.
pub open spec fn names(i: int, j: int, key: KeyEvent) -> bool {
    is_entry(i, j) && keymap()[i][j].contains(key)
}

/// The section and entry of a shortcut.
spec fn home(key: KeyEvent) -> (int, int) {
    match key.code {
        KeyCode::F(n) => (4, n - 2),
        KeyCode::Char(c) => match c {
            'j' => (1, 1),
            'u' => (2, 0),
            'd' => (2, 0),
            'e' => (2, 1),
            'b' => (3, 0),
            't' => (3, 1),
            'o' => (3, 2),
            'p' => (3, 3),
            'k' => (4, 4),
            'm' => (4, 5),
            'r' => (4, 6),
            'g' => (5, 0),
            's' => (5, 1),
            _ => (5, 2),
        },
        _ => (0, 0),
    }
}

/// A shortcut: a Control combination of the list or the composer, or a function key
/// other than the one that opens the help.
pub open spec fn is_shortcut(key: KeyEvent) -> bool {
    ||| key.code matches KeyCode::Char(c) && key == control_key(c) && (control_binding(
        InputMode::Normal,
        c,
    ) is Some || control_binding(InputMode::Editing, c) is Some)
    ||| key.code matches KeyCode::F(n) && key == plain_key(KeyCode::F(n)) && n != 1
        && function_binding(n) is Some
}

#[verifier::rlimit(60)]
proof fn lemma_only_home(key: KeyEvent, i: int, j: int)
    requires
        is_shortcut(key),
        names(i, j, key),
    ensures
        (i, j) == home(key),
{
    let n = choose|n: int| 0 <= n < keymap()[i][j].len() && keymap()[i][j][n] == key;
    assert(keymap()[i][j][n] == key);
}

#[verifier::rlimit(60)]
proof fn lemma_home(key: KeyEvent)
    requires
        is_shortcut(key),
    ensures
        names(home(key).0, home(key).1, key),
{
    let (i, j) = home(key);
    let keys = keymap()[i][j];
    assert(keys[0] == key || keys[1] == key);
    if keys[0] == key {
        assert(keys.contains(key));
    } else {
        assert(keys.len() > 1);
        assert(keys.contains(key));
    }
}

/// The help names every shortcut, each in one entry.
pub proof fn law_help_names_shortcuts_once(key: KeyEvent)
    requires
        is_shortcut(key),
    ensures
        exists|i: int, j: int| names(i, j, key),
        forall|i: int, j: int, k: int, l: int|
            #[trigger] names(i, j, key) && #[trigger] names(k, l, key) ==> i == k && j == l,
{
    lemma_home(key);
    assert forall|i: int, j: int, k: int, l: int|
        #[trigger] names(i, j, key) && #[trigger] names(k, l, key) implies i == k && j == l by {
        lemma_only_home(key, i, j);
        lemma_only_home(key, k, l);
    }
}

/// In the list, each key does what it is for: J, K and the arrows go through the
/// conversations, Enter opens one, N makes one, D asks to delete one, R renames one, A
/// shows the archived ones and a capital A archives one; I goes to the composer and Q
/// quits. Alt and Meta combinations do nothing.
pub proof fn law_list_bindings(key: KeyEvent)
    requires
        !key.modifiers.control,
    ensures
        ({
            let action = binding(key, InputMode::Normal, false);
            let held = key.modifiers.alt || key.modifiers.meta;
            &&& held && !is_function_binding(key) ==> action is None
            &&& !held ==> {
                &&& key.code == KeyCode::Enter ==> action == Some(Action::OpenConversation)
                &&& key.code == KeyCode::Down || key.code == KeyCode::Char('j') ==> action == Some(
                    Action::NextConversation,
                )
                &&& key.code == KeyCode::Up || key.code == KeyCode::Char('k') ==> action == Some(
                    Action::PreviousConversation,
                )
                &&& key.code == KeyCode::PageUp ==> action == Some(Action::ScrollUp)
                &&& key.code == KeyCode::PageDown ==> action == Some(Action::ScrollDown)
                &&& key.code == KeyCode::End ==> action == Some(Action::ScrollToBottom)
                &&& key.code == KeyCode::Char('q') ==> action == Some(Action::Quit)
                &&& key.code == KeyCode::Char('d') ==> action == Some(
                    Action::BeginDeleteConversation,
                )
                &&& key.code == KeyCode::Char('n') ==> action == Some(Action::NewConversation)
                &&& key.code == KeyCode::Char('a') ==> action == Some(Action::ToggleShowArchived)
                &&& key.code == KeyCode::Char('A') ==> action == Some(Action::ArchiveConversation)
                &&& key.code == KeyCode::Char('r') ==> action == Some(Action::BeginRename)
                &&& key.code == KeyCode::Char('i') ==> action == Some(Action::EnterEditMode)
                &&& key.code == KeyCode::Char('?') ==> action == Some(Action::ToggleHelp)
            }
        }),
{
}

/// In the composer, Enter hands the prompt in, with Shift it breaks the line, Escape
/// leaves, the page keys scroll, and every other key without Control is typed.
pub proof fn law_composer_bindings(key: KeyEvent)
    requires
        !key.modifiers.control,
    ensures
        ({
            let action = binding(key, InputMode::Editing, false);
            &&& key.code == KeyCode::Enter && key.modifiers.shift ==> action == Some(
                Action::InsertNewline,
            )
            &&& key.code == KeyCode::Enter && key.modifiers.none() ==> action == Some(
                Action::SubmitPrompt,
            )
            &&& action == Some(Action::SubmitPrompt) ==> key.code == KeyCode::Enter
                && key.modifiers.none()
            &&& key.code == KeyCode::Esc ==> action == Some(Action::ExitEditMode)
            &&& key.code == KeyCode::PageUp ==> action == Some(Action::ScrollUp)
            &&& key.code == KeyCode::PageDown ==> action == Some(Action::ScrollDown)
            &&& key.code == KeyCode::End ==> (action is Some <==> key.modifiers.shift)
            &&& key.code matches KeyCode::Char(c) ==> (action is Some <==> c == '\n' || c == '\r')
            &&& key.code == KeyCode::Backspace || key.code == KeyCode::Left || key.code
                == KeyCode::Right || key.code == KeyCode::Up || key.code == KeyCode::Down
                ==> action is None
        }),
{
}

/// While the tasks pane is open, J, K and the arrows go through the tasks, C cancels one
/// and Enter opens its conversation.
pub proof fn law_pane_bindings(key: KeyEvent, mode: InputMode)
    requires
        key.modifiers.none(),
    ensures
        ({
            let action = binding(key, mode, true);
            &&& key.code == KeyCode::Down || key.code == KeyCode::Char('j') ==> action == Some(
                Action::NextTask,
            )
            &&& key.code == KeyCode::Up || key.code == KeyCode::Char('k') ==> action == Some(
                Action::PreviousTask,
            )
            &&& key.code == KeyCode::Char('c') ==> action == Some(Action::CancelSelectedTask)
            &&& key.code == KeyCode::Enter ==> action == Some(Action::OpenSelectedTaskConversation)
        }),
{
}

/// In the rename input, Enter takes the title and Escape leaves it.
pub proof fn law_rename_bindings(key: KeyEvent)
    ensures
        key.code == KeyCode::Enter ==> binding(key, InputMode::Renaming, false) == Some(
            Action::SubmitRename,
        ),
        key.code == KeyCode::Esc ==> binding(key, InputMode::Renaming, false) == Some(
            Action::CancelRename,
        ),
{
}

/// A letter with Control means the same in the list and in the composer, whatever else
/// is shown; only Control+J is the composer's alone.
pub proof fn law_control_bindings(key: KeyEvent, mode: InputMode, pane: bool)
    requires
        key.modifiers.control,
        mode != InputMode::Renaming,
    ensures
        ({
            let action = binding(key, mode, pane);
            &&& key.code == KeyCode::Char('j') ==> action == (if mode == InputMode::Editing {
                Some(Action::InsertNewline)
            } else {
                None::<Action>
            })
            &&& key.code == KeyCode::Char('u') ==> action == Some(Action::ScrollUp)
            &&& key.code == KeyCode::Char('d') ==> action == Some(Action::ScrollDown)
            &&& key.code == KeyCode::Char('e') ==> action == Some(Action::ScrollToBottom)
            &&& key.code == KeyCode::Char('t') ==> action == Some(Action::ToggleDebug)
            &&& key.code == KeyCode::Char('b') ==> action == Some(Action::ToggleSidebar)
            &&& key.code == KeyCode::Char('o') ==> action == Some(Action::ToggleShareContext)
            &&& key.code == KeyCode::Char('k') ==> action == Some(Action::OpenKnowledgeBase)
            &&& key.code == KeyCode::Char('m') ==> action == Some(Action::OpenModelPicker)
            &&& key.code == KeyCode::Char('r') ==> action == Some(Action::OpenPersonalityPicker)
            &&& key.code == KeyCode::Char('p') ==> action == Some(Action::ToggleTasksPane)
            &&& key.code == KeyCode::Char('g') ==> action == Some(Action::Dictate)
            &&& key.code == KeyCode::Char('s') ==> action == Some(Action::CycleAdeleOutput)
            &&& key.code == KeyCode::Char('v') ==> action == Some(Action::ToggleVoiceIn)
            &&& action != Some(Action::Quit)
        }),
{
}

/// The function keys open their screens, from wherever they are pressed.
pub proof fn law_function_keys_open_their_screens(key: KeyEvent, mode: InputMode, pane: bool)
    requires
        key.modifiers.none(),
    ensures
        key.code == KeyCode::F(1) ==> binding(key, mode, pane) == Some(Action::ToggleHelp),
        key.code == KeyCode::F(2) ==> binding(key, mode, pane) == Some(Action::SwitchConnection),
        key.code == KeyCode::F(3) ==> binding(key, mode, pane) == Some(Action::OpenConnections),
        key.code == KeyCode::F(4) ==> binding(key, mode, pane) == Some(Action::OpenPurposes),
        key.code == KeyCode::F(5) ==> binding(key, mode, pane) == Some(Action::OpenMcpServers),
{
}

} // verus!
