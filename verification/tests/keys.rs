use adele::app::InputMode;
use adele::keys::{
    handle_key_event, help_sections, Action, KeyCode, KeyEvent, KeyEventKind, KeyModifiers,
};

const NONE: KeyModifiers = KeyModifiers {
    shift: false,
    control: false,
    alt: false,
    meta: false,
    super_key: false,
    hyper: false,
};

const CONTROL: KeyModifiers = KeyModifiers {
    control: true,
    ..NONE
};

const ALT: KeyModifiers = KeyModifiers { alt: true, ..NONE };

const SHIFT: KeyModifiers = KeyModifiers {
    shift: true,
    ..NONE
};

fn key_with_mod(code: KeyCode, modifiers: KeyModifiers) -> KeyEvent {
    KeyEvent {
        code,
        modifiers,
        kind: KeyEventKind::Press,
    }
}

fn key(code: KeyCode) -> KeyEvent {
    key_with_mod(code, NONE)
}

#[test]
fn normal_q_quits() {
    assert_eq!(
        handle_key_event(key(KeyCode::Char('q')), &InputMode::Normal, false),
        Some(Action::Quit)
    );
}

#[test]
fn normal_j_next() {
    assert_eq!(
        handle_key_event(key(KeyCode::Char('j')), &InputMode::Normal, false),
        Some(Action::NextConversation)
    );
}

#[test]
fn normal_down_next() {
    assert_eq!(
        handle_key_event(key(KeyCode::Down), &InputMode::Normal, false),
        Some(Action::NextConversation)
    );
}

#[test]
fn normal_k_previous() {
    assert_eq!(
        handle_key_event(key(KeyCode::Char('k')), &InputMode::Normal, false),
        Some(Action::PreviousConversation)
    );
}

#[test]
fn normal_up_previous() {
    assert_eq!(
        handle_key_event(key(KeyCode::Up), &InputMode::Normal, false),
        Some(Action::PreviousConversation)
    );
}

#[test]
fn normal_enter_opens() {
    assert_eq!(
        handle_key_event(key(KeyCode::Enter), &InputMode::Normal, false),
        Some(Action::OpenConversation)
    );
}

#[test]
fn normal_char_newline_is_ignored() {
    assert_eq!(
        handle_key_event(key(KeyCode::Char('\n')), &InputMode::Normal, false),
        None
    );
}

#[test]
fn normal_d_arms_delete_confirm() {
    assert_eq!(
        handle_key_event(key(KeyCode::Char('d')), &InputMode::Normal, false),
        Some(Action::BeginDeleteConversation)
    );
}

#[test]
fn normal_n_new_conversation() {
    assert_eq!(
        handle_key_event(key(KeyCode::Char('n')), &InputMode::Normal, false),
        Some(Action::NewConversation)
    );
}

#[test]
fn normal_i_enter_edit() {
    assert_eq!(
        handle_key_event(key(KeyCode::Char('i')), &InputMode::Normal, false),
        Some(Action::EnterEditMode)
    );
}

#[test]
fn normal_unknown_key_ignored() {
    assert_eq!(
        handle_key_event(key(KeyCode::Char('x')), &InputMode::Normal, false),
        None
    );
}

#[test]
fn normal_ctrl_modifier_ignored() {
    assert_eq!(
        handle_key_event(
            key_with_mod(KeyCode::Char('q'), CONTROL),
            &InputMode::Normal,
            false
        ),
        None
    );
}

#[test]
fn normal_alt_modifier_ignored() {
    assert_eq!(
        handle_key_event(
            key_with_mod(KeyCode::Char('j'), ALT),
            &InputMode::Normal,
            false
        ),
        None
    );
}

#[test]
fn editing_escape_exits() {
    assert_eq!(
        handle_key_event(key(KeyCode::Esc), &InputMode::Editing, false),
        Some(Action::ExitEditMode)
    );
}

#[test]
fn editing_enter_submits_prompt() {
    assert_eq!(
        handle_key_event(key(KeyCode::Enter), &InputMode::Editing, false),
        Some(Action::SubmitPrompt)
    );
}

#[test]
fn editing_shift_enter_inserts_newline() {
    assert_eq!(
        handle_key_event(
            key_with_mod(KeyCode::Enter, SHIFT),
            &InputMode::Editing,
            false
        ),
        Some(Action::InsertNewline)
    );
}

#[test]
fn editing_newline_char_is_forwarded_to_textarea() {
    assert_eq!(
        handle_key_event(
            key_with_mod(KeyCode::Char('\n'), NONE),
            &InputMode::Editing,
            false
        ),
        Some(Action::InsertNewline)
    );
}

#[test]
fn editing_carriage_return_char_is_forwarded_to_textarea() {
    assert_eq!(
        handle_key_event(
            key_with_mod(KeyCode::Char('\r'), NONE),
            &InputMode::Editing,
            false
        ),
        Some(Action::InsertNewline)
    );
}

#[test]
fn editing_ctrl_j_inserts_newline() {
    assert_eq!(
        handle_key_event(
            key_with_mod(KeyCode::Char('j'), CONTROL),
            &InputMode::Editing,
            false
        ),
        Some(Action::InsertNewline)
    );
}

#[test]
fn editing_alt_enter_is_forwarded_to_textarea() {
    assert_eq!(
        handle_key_event(
            key_with_mod(KeyCode::Enter, ALT),
            &InputMode::Editing,
            false
        ),
        None
    );
}

#[test]
fn editing_char_forwarded_to_textarea() {
    assert_eq!(
        handle_key_event(key(KeyCode::Char('a')), &InputMode::Editing, false),
        None
    );
}

#[test]
fn editing_backspace_forwarded_to_textarea() {
    assert_eq!(
        handle_key_event(key(KeyCode::Backspace), &InputMode::Editing, false),
        None
    );
}

#[test]
fn editing_arrows_forwarded_to_textarea() {
    assert_eq!(
        handle_key_event(key(KeyCode::Left), &InputMode::Editing, false),
        None
    );
    assert_eq!(
        handle_key_event(key(KeyCode::Right), &InputMode::Editing, false),
        None
    );
    assert_eq!(
        handle_key_event(key(KeyCode::Up), &InputMode::Editing, false),
        None
    );
    assert_eq!(
        handle_key_event(key(KeyCode::Down), &InputMode::Editing, false),
        None
    );
}

#[test]
fn ctrl_u_scrolls_up() {
    assert_eq!(
        handle_key_event(
            key_with_mod(KeyCode::Char('u'), CONTROL),
            &InputMode::Normal,
            false
        ),
        Some(Action::ScrollUp)
    );
}

#[test]
fn ctrl_d_scrolls_down() {
    assert_eq!(
        handle_key_event(
            key_with_mod(KeyCode::Char('d'), CONTROL),
            &InputMode::Normal,
            false
        ),
        Some(Action::ScrollDown)
    );
}

#[test]
fn ctrl_e_scrolls_to_bottom() {
    assert_eq!(
        handle_key_event(
            key_with_mod(KeyCode::Char('e'), CONTROL),
            &InputMode::Normal,
            false
        ),
        Some(Action::ScrollToBottom)
    );
}

#[test]
fn ctrl_u_works_in_editing_mode() {
    assert_eq!(
        handle_key_event(
            key_with_mod(KeyCode::Char('u'), CONTROL),
            &InputMode::Editing,
            false
        ),
        Some(Action::ScrollUp)
    );
}

#[test]
fn ctrl_d_works_in_editing_mode() {
    assert_eq!(
        handle_key_event(
            key_with_mod(KeyCode::Char('d'), CONTROL),
            &InputMode::Editing,
            false
        ),
        Some(Action::ScrollDown)
    );
}

#[test]
fn normal_pageup_scrolls_up() {
    assert_eq!(
        handle_key_event(key(KeyCode::PageUp), &InputMode::Normal, false),
        Some(Action::ScrollUp)
    );
}

#[test]
fn normal_pagedown_scrolls_down() {
    assert_eq!(
        handle_key_event(key(KeyCode::PageDown), &InputMode::Normal, false),
        Some(Action::ScrollDown)
    );
}

#[test]
fn normal_r_begins_rename() {
    assert_eq!(
        handle_key_event(key(KeyCode::Char('r')), &InputMode::Normal, false),
        Some(Action::BeginRename)
    );
}

#[test]
fn renaming_enter_submits() {
    assert_eq!(
        handle_key_event(key(KeyCode::Enter), &InputMode::Renaming, false),
        Some(Action::SubmitRename)
    );
}

#[test]
fn renaming_esc_cancels() {
    assert_eq!(
        handle_key_event(key(KeyCode::Esc), &InputMode::Renaming, false),
        Some(Action::CancelRename)
    );
}

#[test]
fn renaming_chars_forwarded_to_textarea() {
    assert_eq!(
        handle_key_event(key(KeyCode::Char('a')), &InputMode::Renaming, false),
        None
    );
    assert_eq!(
        handle_key_event(key(KeyCode::Backspace), &InputMode::Renaming, false),
        None
    );
}

#[test]
fn renaming_ctrl_combos_forwarded_to_textarea() {
    assert_eq!(
        handle_key_event(
            key_with_mod(KeyCode::Char('u'), CONTROL),
            &InputMode::Renaming,
            false
        ),
        None
    );
    assert_eq!(
        handle_key_event(
            key_with_mod(KeyCode::Char('a'), CONTROL),
            &InputMode::Renaming,
            false
        ),
        None
    );
}

#[test]
fn ctrl_t_toggles_debug_in_normal() {
    assert_eq!(
        handle_key_event(
            key_with_mod(KeyCode::Char('t'), CONTROL),
            &InputMode::Normal,
            false
        ),
        Some(Action::ToggleDebug)
    );
}

#[test]
fn ctrl_t_toggles_debug_in_editing() {
    assert_eq!(
        handle_key_event(
            key_with_mod(KeyCode::Char('t'), CONTROL),
            &InputMode::Editing,
            false
        ),
        Some(Action::ToggleDebug)
    );
}

#[test]
fn ctrl_b_toggles_sidebar_in_normal() {
    assert_eq!(
        handle_key_event(
            key_with_mod(KeyCode::Char('b'), CONTROL),
            &InputMode::Normal,
            false
        ),
        Some(Action::ToggleSidebar)
    );
}

#[test]
fn ctrl_b_toggles_sidebar_in_editing() {
    assert_eq!(
        handle_key_event(
            key_with_mod(KeyCode::Char('b'), CONTROL),
            &InputMode::Editing,
            false
        ),
        Some(Action::ToggleSidebar)
    );
}

#[test]
fn f2_triggers_switch_in_normal() {
    assert_eq!(
        handle_key_event(key(KeyCode::F(2)), &InputMode::Normal, false),
        Some(Action::SwitchConnection)
    );
}

#[test]
fn f2_triggers_switch_in_editing() {
    assert_eq!(
        handle_key_event(key(KeyCode::F(2)), &InputMode::Editing, false),
        Some(Action::SwitchConnection)
    );
}

#[test]
fn ctrl_k_opens_kb_in_normal() {
    assert_eq!(
        handle_key_event(
            key_with_mod(KeyCode::Char('k'), CONTROL),
            &InputMode::Normal,
            false
        ),
        Some(Action::OpenKnowledgeBase)
    );
}

#[test]
fn ctrl_k_opens_kb_in_editing() {
    assert_eq!(
        handle_key_event(
            key_with_mod(KeyCode::Char('k'), CONTROL),
            &InputMode::Editing,
            false
        ),
        Some(Action::OpenKnowledgeBase)
    );
}

#[test]
fn f3_opens_connections_in_normal() {
    assert_eq!(
        handle_key_event(key(KeyCode::F(3)), &InputMode::Normal, false),
        Some(Action::OpenConnections)
    );
}

#[test]
fn f3_opens_connections_in_editing() {
    assert_eq!(
        handle_key_event(key(KeyCode::F(3)), &InputMode::Editing, false),
        Some(Action::OpenConnections)
    );
}

#[test]
fn f4_opens_purposes_in_normal() {
    assert_eq!(
        handle_key_event(key(KeyCode::F(4)), &InputMode::Normal, false),
        Some(Action::OpenPurposes)
    );
}

#[test]
fn f4_opens_purposes_in_editing() {
    assert_eq!(
        handle_key_event(key(KeyCode::F(4)), &InputMode::Editing, false),
        Some(Action::OpenPurposes)
    );
}

#[test]
fn ctrl_m_opens_model_picker_in_normal() {
    assert_eq!(
        handle_key_event(
            key_with_mod(KeyCode::Char('m'), CONTROL),
            &InputMode::Normal,
            false
        ),
        Some(Action::OpenModelPicker)
    );
}

#[test]
fn ctrl_m_opens_model_picker_in_editing() {
    assert_eq!(
        handle_key_event(
            key_with_mod(KeyCode::Char('m'), CONTROL),
            &InputMode::Editing,
            false
        ),
        Some(Action::OpenModelPicker)
    );
}

#[test]
fn ctrl_p_toggles_tasks_pane_in_normal() {
    assert_eq!(
        handle_key_event(
            key_with_mod(KeyCode::Char('p'), CONTROL),
            &InputMode::Normal,
            false
        ),
        Some(Action::ToggleTasksPane)
    );
}

#[test]
fn ctrl_p_toggles_tasks_pane_in_editing() {
    assert_eq!(
        handle_key_event(
            key_with_mod(KeyCode::Char('p'), CONTROL),
            &InputMode::Editing,
            false
        ),
        Some(Action::ToggleTasksPane)
    );
}

#[test]
fn ctrl_g_dictates_in_normal() {
    assert_eq!(
        handle_key_event(
            key_with_mod(KeyCode::Char('g'), CONTROL),
            &InputMode::Normal,
            false
        ),
        Some(Action::Dictate)
    );
}

#[test]
fn ctrl_g_dictates_in_editing() {
    assert_eq!(
        handle_key_event(
            key_with_mod(KeyCode::Char('g'), CONTROL),
            &InputMode::Editing,
            false
        ),
        Some(Action::Dictate)
    );
}

#[test]
fn ctrl_s_cycles_adele_output_in_normal() {
    assert_eq!(
        handle_key_event(
            key_with_mod(KeyCode::Char('s'), CONTROL),
            &InputMode::Normal,
            false
        ),
        Some(Action::CycleAdeleOutput)
    );
}

#[test]
fn ctrl_s_cycles_adele_output_in_editing() {
    assert_eq!(
        handle_key_event(
            key_with_mod(KeyCode::Char('s'), CONTROL),
            &InputMode::Editing,
            false
        ),
        Some(Action::CycleAdeleOutput)
    );
}

#[test]
fn ctrl_s_is_not_intercepted_in_renaming() {
    assert_eq!(
        handle_key_event(
            key_with_mod(KeyCode::Char('s'), CONTROL),
            &InputMode::Renaming,
            false
        ),
        None
    );
}

#[test]
fn ctrl_g_is_not_intercepted_in_renaming() {
    assert_eq!(
        handle_key_event(
            key_with_mod(KeyCode::Char('g'), CONTROL),
            &InputMode::Renaming,
            false
        ),
        None
    );
}

#[test]
fn ctrl_v_toggles_voice_in_in_normal() {
    assert_eq!(
        handle_key_event(
            key_with_mod(KeyCode::Char('v'), CONTROL),
            &InputMode::Normal,
            false
        ),
        Some(Action::ToggleVoiceIn)
    );
}

#[test]
fn ctrl_v_toggles_voice_in_in_editing() {
    assert_eq!(
        handle_key_event(
            key_with_mod(KeyCode::Char('v'), CONTROL),
            &InputMode::Editing,
            false
        ),
        Some(Action::ToggleVoiceIn)
    );
}

#[test]
fn ctrl_v_is_not_intercepted_in_renaming() {
    assert_eq!(
        handle_key_event(
            key_with_mod(KeyCode::Char('v'), CONTROL),
            &InputMode::Renaming,
            false
        ),
        None
    );
}

#[test]
fn ctrl_p_also_closes_pane_when_open() {
    assert_eq!(
        handle_key_event(
            key_with_mod(KeyCode::Char('p'), CONTROL),
            &InputMode::Normal,
            true
        ),
        Some(Action::ToggleTasksPane)
    );
}

#[test]
fn tasks_pane_visible_routes_j_to_next_task() {
    assert_eq!(
        handle_key_event(key(KeyCode::Char('j')), &InputMode::Normal, true),
        Some(Action::NextTask)
    );
}

#[test]
fn tasks_pane_visible_routes_k_to_previous_task() {
    assert_eq!(
        handle_key_event(key(KeyCode::Char('k')), &InputMode::Normal, true),
        Some(Action::PreviousTask)
    );
}

#[test]
fn tasks_pane_visible_routes_down_to_next_task() {
    assert_eq!(
        handle_key_event(key(KeyCode::Down), &InputMode::Normal, true),
        Some(Action::NextTask)
    );
}

#[test]
fn tasks_pane_visible_routes_up_to_previous_task() {
    assert_eq!(
        handle_key_event(key(KeyCode::Up), &InputMode::Normal, true),
        Some(Action::PreviousTask)
    );
}

#[test]
fn tasks_pane_visible_routes_c_to_cancel_task() {
    assert_eq!(
        handle_key_event(key(KeyCode::Char('c')), &InputMode::Normal, true),
        Some(Action::CancelSelectedTask)
    );
}

#[test]
fn tasks_pane_visible_routes_enter_to_open_conversation() {
    assert_eq!(
        handle_key_event(key(KeyCode::Enter), &InputMode::Normal, true),
        Some(Action::OpenSelectedTaskConversation)
    );
}

#[test]
fn tasks_pane_visible_routes_esc_to_close_pane() {
    assert_eq!(
        handle_key_event(key(KeyCode::Esc), &InputMode::Normal, true),
        Some(Action::ToggleTasksPane)
    );
}

#[test]
fn tasks_pane_visible_swallows_unmapped_keys_in_editing_mode() {
    assert_eq!(
        handle_key_event(key(KeyCode::Char('x')), &InputMode::Editing, true),
        None
    );
}

#[test]
fn tasks_pane_visible_still_lets_f2_through() {
    assert_eq!(
        handle_key_event(key(KeyCode::F(2)), &InputMode::Normal, true),
        Some(Action::SwitchConnection)
    );
}

#[test]
fn no_key_deletes_without_asking() {
    for c in 'a'..='z' {
        for modifiers in [NONE, CONTROL, ALT, SHIFT] {
            for mode in [InputMode::Normal, InputMode::Editing, InputMode::Renaming] {
                for pane in [false, true] {
                    assert_ne!(
                        handle_key_event(key_with_mod(KeyCode::Char(c), modifiers), &mode, pane),
                        Some(Action::DeleteConversation)
                    );
                }
            }
        }
    }
}

#[test]
fn help_names_every_section() {
    let sections = help_sections();
    assert!(!sections.is_empty());
    assert!(sections.iter().all(|s| !s.1.is_empty()));
}

#[test]
fn each_shortcut_stands_in_the_help_once() {
    let sections = help_sections();
    let keys: Vec<&str> = sections
        .iter()
        .flat_map(|s| s.1.iter())
        .flat_map(|entry| entry.0.split(" / "))
        .collect();
    let shortcuts = [
        "F2", "F3", "F4", "F5", "Ctrl+K", "Ctrl+M", "Ctrl+R", "Ctrl+B", "Ctrl+T", "Ctrl+P",
        "Ctrl+O", "Ctrl+G", "Ctrl+S", "Ctrl+V", "Ctrl+U", "Ctrl+D", "Ctrl+E", "Ctrl+J",
    ];
    for shortcut in shortcuts {
        assert_eq!(keys.iter().filter(|k| **k == shortcut).count(), 1, "{shortcut}");
    }
}

#[test]
fn every_bound_shortcut_stands_in_the_help() {
    let sections = help_sections();
    let listed = |name: &str| {
        sections
            .iter()
            .flat_map(|s| s.1.iter())
            .any(|entry| entry.0.split(" / ").any(|k| k == name))
    };
    for c in 'a'..='z' {
        let event = key_with_mod(KeyCode::Char(c), CONTROL);
        for mode in [InputMode::Normal, InputMode::Editing] {
            if handle_key_event(event, &mode, false).is_some() {
                assert!(listed(&format!("Ctrl+{}", c.to_ascii_uppercase())), "{c}");
            }
        }
    }
    for n in 2..=12 {
        if handle_key_event(key(KeyCode::F(n)), &InputMode::Normal, false).is_some() {
            assert!(listed(&format!("F{n}")), "{n}");
        }
    }
}
