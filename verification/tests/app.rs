use adele::api::{
    ChatMessage, ConversationDetail, ConversationSummary, MessageKind, SendPromptOverride,
    TaskStatus, TaskView,
};
use adele::app::{
    recall_next_action, recall_prev_index, App, ContextUsageView, CoreReply, Effect, InputMode,
    RecallNext, ScreenRequest,
};
use adele::area::{new_textarea, press_key, Area};
use adele::chat::{handle_signal, SignalEvent};
use adele::keys::{KeyCode, KeyEvent, KeyEventKind, KeyModifiers};
use adele::tasks::running_badge;
use adele::voice::AdeleOutput;
use adele::wrap::{char_display_width, map_cursor_col_to_wrapped_segments, wrap_line_for_width};

fn key(code: KeyCode) -> KeyEvent {
    KeyEvent {
        code,
        modifiers: KeyModifiers {
            shift: false,
            control: false,
            alt: false,
            meta: false,
            super_key: false,
            hyper: false,
        },
        kind: KeyEventKind::Press,
    }
}

fn usage(used: u64, budget: u64, compaction: bool) -> ContextUsageView {
    ContextUsageView {
        used_tokens: used,
        budget_tokens: budget,
        compaction_active: compaction,
    }
}

fn detail(id: &str) -> ConversationDetail {
    ConversationDetail {
        id: id.into(),
        title: format!("Conv {id}"),
        messages: vec![],
        model_selection: None,
        conversation_personality: None,
    }
}

fn sample_conversations() -> Vec<ConversationSummary> {
    vec![
        ConversationSummary {
            id: "1".into(),
            title: "First".into(),
            message_count: 2,
            archived: false,
        },
        ConversationSummary {
            id: "2".into(),
            title: "Second".into(),
            message_count: 0,
            archived: false,
        },
        ConversationSummary {
            id: "3".into(),
            title: "Third".into(),
            message_count: 5,
            archived: false,
        },
    ]
}

fn app_with_conversations() -> App {
    let mut app = App::new();
    app.set_conversations(sample_conversations());
    app
}

fn app_with_open_conversation(id: &str) -> App {
    let mut app = App::new();
    app.load_conversation(ConversationDetail {
        id: id.into(),
        title: "Chat".into(),
        messages: vec![],
        model_selection: None,
        conversation_personality: None,
    });
    app
}

fn standalone_view(id: &str, conv_id: &str, title: &str) -> TaskView {
    TaskView {
        id: id.into(),
        title: title.into(),
        conversation_id: Some(conv_id.into()),
        status: TaskStatus::Running,
        progress_hint: None,
    }
}

#[test]
fn context_usage_signal_updates_the_indicator_only_for_the_open_conversation() {
    let mut app = App::new();
    app.load_conversation(detail("c1"));

    handle_signal(&mut app, SignalEvent::ContextUsage {
        conversation_id: "c2".into(),
        used_tokens: 10_000,
        budget_tokens: 32_000,
        compaction_active: false,
    });
    assert_eq!(
        app.context_usage, None,
        "a background reading must not paint"
    );

    handle_signal(&mut app, SignalEvent::ContextUsage {
        conversation_id: "c1".into(),
        used_tokens: 10_000,
        budget_tokens: 32_000,
        compaction_active: false,
    });
    assert_eq!(app.context_usage, Some(usage(10_000, 32_000, false)));
}

#[test]
fn switching_conversation_clears_stale_context_usage() {
    let mut app = App::new();
    app.load_conversation(detail("c1"));
    handle_signal(&mut app, SignalEvent::ContextUsage {
        conversation_id: "c1".into(),
        used_tokens: 10_000,
        budget_tokens: 32_000,
        compaction_active: false,
    });
    assert!(app.context_usage.is_some());
    app.load_conversation(detail("c2"));
    assert_eq!(
        app.context_usage, None,
        "stale reading must not bleed across"
    );
}

#[test]
fn composer_draft_is_saved_and_restored_across_a_switch() {
    let mut app = App::new();
    app.load_conversation(detail("c1"));
    app.textarea.insert_str("half-written c1 message");

    app.load_conversation(detail("c2"));
    assert_eq!(
        app.textarea_content(),
        "",
        "a fresh conversation opens with an empty composer"
    );
    app.textarea.insert_str("c2 thoughts");

    app.load_conversation(detail("c1"));
    assert_eq!(
        app.textarea_content(),
        "half-written c1 message",
        "switching back restores c1's saved draft"
    );

    app.load_conversation(detail("c2"));
    assert_eq!(
        app.textarea_content(),
        "c2 thoughts",
        "and c2's draft is preserved independently"
    );
}

#[test]
fn reopening_the_same_conversation_keeps_the_in_progress_draft() {
    let mut app = App::new();
    app.load_conversation(detail("c1"));
    app.textarea.insert_str("still typing");
    app.load_conversation(detail("c1"));
    assert_eq!(app.textarea_content(), "still typing");
}

#[test]
fn next_on_empty_list_does_nothing() {
    let mut app = App::new();
    app.next_conversation();
    assert_eq!(app.selected_conversation, None);
}

#[test]
fn next_from_none_selects_first() {
    let mut app = app_with_conversations();
    app.next_conversation();
    assert_eq!(app.selected_conversation, Some(0));
}

#[test]
fn next_wraps_around() {
    let mut app = app_with_conversations();
    app.selected_conversation = Some(2);
    app.next_conversation();
    assert_eq!(app.selected_conversation, Some(0));
}

#[test]
fn next_advances() {
    let mut app = app_with_conversations();
    app.selected_conversation = Some(0);
    app.next_conversation();
    assert_eq!(app.selected_conversation, Some(1));
}

#[test]
fn previous_on_empty_list_does_nothing() {
    let mut app = App::new();
    app.previous_conversation();
    assert_eq!(app.selected_conversation, None);
}

#[test]
fn previous_from_none_selects_last() {
    let mut app = app_with_conversations();
    app.previous_conversation();
    assert_eq!(app.selected_conversation, Some(2));
}

#[test]
fn previous_wraps_around() {
    let mut app = app_with_conversations();
    app.selected_conversation = Some(0);
    app.previous_conversation();
    assert_eq!(app.selected_conversation, Some(2));
}

#[test]
fn previous_goes_back() {
    let mut app = app_with_conversations();
    app.selected_conversation = Some(2);
    app.previous_conversation();
    assert_eq!(app.selected_conversation, Some(1));
}

#[test]
fn single_item_next_stays() {
    let mut app = App::new();
    app.set_conversations(vec![ConversationSummary {
        id: "1".into(),
        title: "Only".into(),
        message_count: 0,
        archived: false,
    }]);
    app.selected_conversation = Some(0);
    app.next_conversation();
    assert_eq!(app.selected_conversation, Some(0));
}

#[test]
fn textarea_insert_and_content() {
    let mut app = App::new();
    press_key(&mut app.textarea, key(KeyCode::Char('h')));
    press_key(&mut app.textarea, key(KeyCode::Char('i')));
    assert_eq!(app.textarea_content(), "hi");
    press_key(&mut app.textarea, key(KeyCode::Backspace));
    assert_eq!(app.textarea_content(), "h");
    press_key(&mut app.textarea, key(KeyCode::Backspace));
    assert_eq!(app.textarea_content(), "");
    press_key(&mut app.textarea, key(KeyCode::Backspace));
    assert_eq!(app.textarea_content(), "");
}

#[test]
fn textarea_input_newline_char_creates_new_line() {
    let mut app = App::new();
    app.textarea.insert_str("alpha");

    press_key(&mut app.textarea, key(KeyCode::Char('\n')));
    app.textarea.insert_str("beta");

    assert_eq!(app.textarea.lines(), ["alpha", "beta"]);
    assert_eq!(app.textarea_content(), "alpha\nbeta");
}

#[test]
fn textarea_input_carriage_return_char_creates_new_line() {
    let mut app = App::new();
    app.textarea.insert_str("alpha");

    press_key(&mut app.textarea, key(KeyCode::Char('\r')));
    app.textarea.insert_str("beta");

    assert_eq!(app.textarea.lines(), ["alpha", "beta"]);
    assert_eq!(app.textarea_content(), "alpha\nbeta");
}

#[test]
fn wrapped_display_textarea_wraps_long_lines_on_word_boundaries() {
    let mut app = App::new();
    app.textarea.insert_str("hello world again");

    let display = app.wrapped_display_textarea(8);

    assert_eq!(display.lines(), ["hello ", "world ", "again"]);
}

#[test]
fn wrapped_display_textarea_preserves_explicit_newlines() {
    let mut app = App::new();
    app.textarea.insert_str("alpha beta\ngamma delta");

    let display = app.wrapped_display_textarea(7);

    assert_eq!(display.lines(), ["alpha ", "beta", "gamma ", "delta"]);
}

#[test]
fn display_wrap_does_not_inject_newlines_into_sent_prompt() {
    let mut app = App::new();
    let typed = "the quick brown fox jumps over the lazy dog again and again";
    app.textarea.insert_str(typed);

    let _ = app.wrapped_display_textarea(8);
    let _ = app.wrapped_display_textarea(8);

    assert_eq!(app.textarea_content(), typed);
    assert!(!app.textarea_content().contains('\n'));
}

#[test]
fn display_wrap_shrink_then_grow_preserves_logical_content() {
    let mut app = App::new();
    let typed = "one two three four five six seven eight nine ten";
    app.textarea.insert_str(typed);

    let _ = app.wrapped_display_textarea(60); // wide: no wrap
    let _ = app.wrapped_display_textarea(8); // narrow: wraps for display
    let _ = app.wrapped_display_textarea(60); // wide again

    assert_eq!(app.textarea_content(), typed);
}

#[test]
fn wrapped_display_textarea_measures_wide_glyphs_by_display_width() {
    let mut app = App::new();
    app.textarea.insert_str("一二三四五");

    let display = app.wrapped_display_textarea(6);

    assert_eq!(display.lines(), ["一二三", "四五"]);
    assert_eq!(app.textarea_content(), "一二三四五");
}

#[test]
fn recall_prev_index_walks_backward_and_stops_at_the_front() {
    assert_eq!(
        recall_prev_index(0, None),
        None,
        "empty queue: nothing to recall"
    );
    assert_eq!(
        recall_prev_index(3, None),
        Some(2),
        "fresh compose -> newest"
    );
    assert_eq!(recall_prev_index(2, Some(2)), Some(1));
    assert_eq!(recall_prev_index(2, Some(1)), Some(0));
    assert_eq!(recall_prev_index(2, Some(0)), None, "at the front -> no-op");
}

#[test]
fn recall_next_action_steps_forward_then_cancels_at_the_end() {
    assert_eq!(recall_next_action(2, None), RecallNext::Stay, "not editing");
    assert_eq!(recall_next_action(2, Some(0)), RecallNext::Edit(1));
    assert_eq!(recall_next_action(2, Some(1)), RecallNext::Edit(2));
    assert_eq!(
        recall_next_action(2, Some(2)),
        RecallNext::Cancel,
        "past newest"
    );
}

#[test]
fn paste_in_editing_inserts_multiline_text_verbatim() {
    let mut app = App::new();
    app.enter_editing_mode();
    app.apply_paste("line one\nline two\nline three");
    assert_eq!(app.textarea_content(), "line one\nline two\nline three");
}

#[test]
fn paste_in_editing_normalizes_crlf_to_lf() {
    let mut app = App::new();
    app.enter_editing_mode();
    app.apply_paste("alpha\r\nbeta");
    assert_eq!(app.textarea_content(), "alpha\nbeta");
}

#[test]
fn paste_in_renaming_collapses_newlines_to_spaces() {
    let mut app = app_with_conversations();
    app.selected_conversation = Some(0);
    app.begin_rename();
    app.rename_textarea = new_textarea();
    app.apply_paste("New\nTitle");
    assert_eq!(app.rename_textarea.lines().join(""), "New Title");
}

#[test]
fn paste_in_normal_mode_is_ignored() {
    let mut app = App::new();
    app.apply_paste("stray paste");
    assert_eq!(app.textarea_content(), "");
}

#[test]
fn select_conversation_by_id_moves_selection() {
    let mut app = app_with_conversations();
    assert!(app.select_conversation_by_id("3"));
    assert_eq!(app.selected_conversation, Some(2));
}

#[test]
fn select_conversation_by_id_missing_keeps_selection() {
    let mut app = app_with_conversations();
    app.selected_conversation = Some(1);
    assert!(!app.select_conversation_by_id("nope"));
    assert_eq!(app.selected_conversation, Some(1));
}

#[test]
fn prompt_ack_shows_thinking_status() {
    let mut app = App::new();
    app.load_conversation(ConversationDetail {
        id: "c1".into(),
        title: "Test".into(),
        messages: vec![],
        model_selection: None,
        conversation_personality: None,
    });
    app.apply_prompt_ack("t-1".into(), "c1".into());
    assert_eq!(app.assistant_status.as_deref(), Some("Adele is thinking…"));
}

#[test]
fn assistant_status_empty_string_clears() {
    let mut app = App::new();
    app.set_assistant_status("something");
    app.set_assistant_status("");
    assert!(app.assistant_status.is_none());
}

#[test]
fn mode_transitions() {
    let mut app = App::new();
    assert_eq!(app.mode, InputMode::Normal);

    app.enter_editing_mode();
    assert_eq!(app.mode, InputMode::Editing);

    app.enter_normal_mode();
    assert_eq!(app.mode, InputMode::Normal);
}

#[test]
fn set_conversations_fixes_out_of_bounds_selection() {
    let mut app = app_with_conversations();
    app.selected_conversation = Some(2);
    app.set_conversations(vec![ConversationSummary {
        id: "1".into(),
        title: "Only".into(),
        message_count: 0,
        archived: false,
    }]);
    assert_eq!(app.selected_conversation, Some(0));
}

#[test]
fn set_empty_conversations_clears_selection() {
    let mut app = app_with_conversations();
    app.selected_conversation = Some(1);
    app.set_conversations(vec![]);
    assert_eq!(app.selected_conversation, None);
}

#[test]
fn list_refetch_replaces_sidebar_without_disturbing_open_conversation() {
    let mut app = app_with_conversations();
    app.selected_conversation = Some(1);
    app.load_conversation(ConversationDetail {
        id: "2".into(),
        title: "Second".into(),
        messages: vec![
            ChatMessage {
                id: "m1".into(),
                role: "user".into(),
                content: "hello".into(),
                kind: MessageKind::Normal,
            },
            ChatMessage {
                id: "m2".into(),
                role: "assistant".into(),
                content: "hi there".into(),
                kind: MessageKind::Normal,
            },
        ],
        model_selection: None,
        conversation_personality: None,
    });

    let refetched = vec![
        ConversationSummary {
            id: "1".into(),
            title: "First (renamed elsewhere)".into(),
            message_count: 3,
            archived: false,
        },
        ConversationSummary {
            id: "2".into(),
            title: "Second".into(),
            message_count: 2,
            archived: false,
        },
    ];
    let reply = CoreReply {
        current: app.core.current.take(),
        stream: None,
        queued: Vec::new(),
        editing_queued: None,
        effects: vec![
            Effect::SetConversations(refetched),
            Effect::EnsureActiveConversation,
        ],
    };
    let effects = app.apply_core(reply);
    assert!(
        effects.is_empty(),
        "a list refetch must emit only view-effects: {effects:?}"
    );

    assert_eq!(app.conversations().len(), 2);
    assert_eq!(app.conversations()[0].title, "First (renamed elsewhere)");
    let open = app.current_conversation().expect("still open");
    assert_eq!(open.id, "2");
    assert_eq!(open.messages.len(), 2);
    assert_eq!(open.messages[1].content, "hi there");
}

#[test]
fn selected_conversation_id() {
    let mut app = app_with_conversations();
    assert_eq!(app.selected_conversation_id(), None);

    app.selected_conversation = Some(1);
    assert_eq!(app.selected_conversation_id(), Some("2"));
}

#[test]
fn delete_selected_conversation() {
    let mut app = app_with_conversations();
    app.selected_conversation = Some(1);
    app.load_conversation(ConversationDetail {
        id: "2".into(),
        title: "Second".into(),
        messages: vec![],
        model_selection: None,
        conversation_personality: None,
    });

    let deleted = app.delete_selected_conversation();
    assert_eq!(deleted, Some("2".to_string()));
    assert_eq!(app.conversations().len(), 2);
    assert!(
        app.current_conversation().is_none(),
        "deleting the active conversation clears the open chat"
    );
    assert_eq!(app.selected_conversation, Some(1)); // stays at 1 (now "Third")
}

#[test]
fn begin_delete_confirm_arms_overlay_with_selected_title() {
    let mut app = app_with_conversations();
    assert!(!app.delete_confirm_pending(), "starts disarmed");
    app.selected_conversation = Some(1); // "Second"
    app.begin_delete_confirm();
    assert!(app.delete_confirm_pending());
    assert_eq!(app.pending_delete_conversation.as_deref(), Some("Second"));
}

#[test]
fn begin_delete_confirm_without_selection_is_noop() {
    let mut app = app_with_conversations();
    assert!(app.selected_conversation.is_none());
    app.begin_delete_confirm();
    assert!(
        !app.delete_confirm_pending(),
        "a stray `d` on nothing selected does not arm the overlay"
    );
}

#[test]
fn confirm_delete_then_delete_removes_the_row() {
    let mut app = app_with_conversations();
    app.selected_conversation = Some(1); // "Second"
    app.begin_delete_confirm();
    assert!(app.confirm_delete(), "reports the overlay was up");
    assert!(!app.delete_confirm_pending(), "overlay cleared on confirm");
    let deleted = app.delete_selected_conversation();
    assert_eq!(deleted, Some("2".to_string()));
    assert_eq!(app.conversations().len(), 2);
    assert!(app.conversations().iter().all(|c| c.id != "2"));
}

#[test]
fn confirm_delete_returns_false_when_not_armed() {
    let mut app = app_with_conversations();
    assert!(!app.confirm_delete());
}

#[test]
fn cancel_delete_confirm_dismisses_without_deleting() {
    let mut app = app_with_conversations();
    app.selected_conversation = Some(1); // "Second"
    app.begin_delete_confirm();
    app.cancel_delete_confirm();
    assert!(!app.delete_confirm_pending());
    assert_eq!(app.conversations().len(), 3, "nothing was deleted");
    assert!(app.conversations().iter().any(|c| c.id == "2"));
}

#[test]
fn deleting_a_conversation_prunes_its_per_conversation_voice_state() {
    let mut app = app_with_conversations();
    app.set_adele_output("2", AdeleOutput::Always);
    app.set_voice_in("2", true);
    assert!(app.narrate_for("2"), "precondition: voice state is set");

    app.selected_conversation = Some(1); // id "2"
    app.delete_selected_conversation();

    assert!(
        !app.narrate_for("2"),
        "voice state must be pruned on delete"
    );
    assert_eq!(app.adele_output_for("2"), AdeleOutput::Disabled);
    assert!(!app.voice_in_for("2"));
}

#[test]
fn rename_routes_through_core_and_refreshes_the_open_title() {
    let mut app = app_with_conversations();
    app.load_conversation(ConversationDetail {
        id: "2".into(),
        title: "Second".into(),
        messages: vec![],
        model_selection: None,
        conversation_personality: None,
    });

    app.apply_rename("2", "Renamed Second");

    let row = app.conversations().iter().find(|c| c.id == "2").unwrap();
    assert_eq!(row.title, "Renamed Second");
    assert_eq!(app.current_conversation().unwrap().title, "Renamed Second");
}

#[test]
fn delete_last_item_adjusts_selection() {
    let mut app = app_with_conversations();
    app.selected_conversation = Some(2);

    let deleted = app.delete_selected_conversation();
    assert_eq!(deleted, Some("3".to_string()));
    assert_eq!(app.selected_conversation, Some(1));
}

#[test]
fn delete_only_item_clears_selection() {
    let mut app = App::new();
    app.set_conversations(vec![ConversationSummary {
        id: "1".into(),
        title: "Only".into(),
        message_count: 0,
        archived: false,
    }]);
    app.selected_conversation = Some(0);

    let deleted = app.delete_selected_conversation();
    assert_eq!(deleted, Some("1".to_string()));
    assert_eq!(app.selected_conversation, None);
}

#[test]
fn delete_with_no_selection_returns_none() {
    let mut app = app_with_conversations();
    assert!(app.delete_selected_conversation().is_none());
}

#[test]
fn quit_sets_flag() {
    let mut app = App::new();
    assert!(!app.should_quit);
    app.quit();
    assert!(app.should_quit);
}

#[test]
fn begin_rename_without_selection_is_noop() {
    let mut app = app_with_conversations();
    assert!(app.selected_conversation.is_none());
    app.begin_rename();
    assert_eq!(app.mode, InputMode::Normal);
    assert!(app.renaming_id.is_none());
}

#[test]
fn begin_rename_prepopulates_buffer_and_enters_mode() {
    let mut app = app_with_conversations();
    app.selected_conversation = Some(1); // "Second"
    app.begin_rename();
    assert_eq!(app.mode, InputMode::Renaming);
    assert_eq!(app.renaming_id.as_deref(), Some("2"));
    assert_eq!(app.rename_textarea.lines(), ["Second"]);
}

#[test]
fn submit_rename_returns_id_and_trimmed_title() {
    let mut app = app_with_conversations();
    app.selected_conversation = Some(0);
    app.begin_rename();
    app.rename_textarea = Area::from_lines(vec!["  Renamed Chat  ".to_string()]);

    let result = app.submit_rename();
    assert_eq!(result, Some(("1".to_string(), "Renamed Chat".to_string())));
    assert_eq!(app.mode, InputMode::Normal);
    assert!(app.renaming_id.is_none());
}

#[test]
fn submit_rename_with_unchanged_title_returns_none() {
    let mut app = app_with_conversations();
    app.selected_conversation = Some(0); // "First"
    app.begin_rename();
    let result = app.submit_rename();
    assert_eq!(result, None);
    assert_eq!(app.mode, InputMode::Normal);
}

#[test]
fn submit_rename_with_empty_title_returns_none() {
    let mut app = app_with_conversations();
    app.selected_conversation = Some(0);
    app.begin_rename();
    app.rename_textarea = Area::from_lines(vec!["   ".to_string()]);

    let result = app.submit_rename();
    assert_eq!(result, None);
    assert_eq!(app.mode, InputMode::Normal);
}

#[test]
fn cancel_rename_clears_state() {
    let mut app = app_with_conversations();
    app.selected_conversation = Some(0);
    app.begin_rename();
    app.rename_textarea = Area::from_lines(vec!["scratch".to_string()]);

    app.cancel_rename();
    assert_eq!(app.mode, InputMode::Normal);
    assert!(app.renaming_id.is_none());
}

#[test]
fn apply_rename_updates_sidebar_and_current() {
    let mut app = app_with_conversations();
    app.load_conversation(ConversationDetail {
        id: "2".into(),
        title: "Second".into(),
        messages: vec![],
        model_selection: None,
        conversation_personality: None,
    });
    app.apply_rename("2", "Renamed");
    assert_eq!(app.conversations()[1].title, "Renamed");
    assert_eq!(app.current_conversation().unwrap().title, "Renamed");
}

#[test]
fn switch_requested_default_false() {
    assert!(!App::new().switch_requested);
}

#[test]
fn pending_screen_request_round_trips_and_is_taken_once() {
    let mut app = App::new();
    assert_eq!(app.take_pending_screen(), None, "none pending by default");

    app.request_screen(ScreenRequest::KnowledgeBase);
    assert_eq!(
        app.take_pending_screen(),
        Some(ScreenRequest::KnowledgeBase)
    );
    assert_eq!(
        app.take_pending_screen(),
        None,
        "taking clears it so the loop services it exactly once"
    );
}

#[test]
fn requesting_a_screen_supersedes_an_unserviced_one() {
    let mut app = App::new();
    app.request_screen(ScreenRequest::Connections);
    app.request_screen(ScreenRequest::Purposes);
    assert_eq!(app.take_pending_screen(), Some(ScreenRequest::Purposes));
    assert_eq!(app.take_pending_screen(), None);
}

#[test]
fn apply_model_override_updates_current_conversation_and_stages_pending() {
    let mut app = App::new();
    app.load_conversation(ConversationDetail {
        id: "c1".into(),
        title: "Chat".into(),
        messages: vec![],
        model_selection: None,
        conversation_personality: None,
    });
    let ovr = SendPromptOverride {
        connection_id: "work".into(),
        model_id: "model-3-5".into(),
        effort: None,
    };
    app.apply_model_override(ovr.clone());
    assert!(app.pending_model_override.is_some());
    let sel = app
        .current_conversation()
        .unwrap()
        .model_selection
        .as_ref()
        .unwrap();
    assert_eq!(sel.connection_id, "work");
    assert_eq!(sel.model_id, "model-3-5");
}

#[test]
fn take_pending_override_clears_after_first_take() {
    let mut app = App::new();
    let ovr = SendPromptOverride {
        connection_id: "a".into(),
        model_id: "b".into(),
        effort: None,
    };
    app.pending_model_override = Some(ovr);
    assert!(app.take_pending_override().is_some());
    assert!(app.take_pending_override().is_none());
}

#[test]
fn scroll_up_and_down() {
    let mut app = App::new();
    assert_eq!(app.scroll_offset, 0);
    app.scroll_up(5);
    assert_eq!(app.scroll_offset, 5);
    app.scroll_up(3);
    assert_eq!(app.scroll_offset, 8);
    app.scroll_down(3);
    assert_eq!(app.scroll_offset, 5);
    app.scroll_down(100);
    assert_eq!(app.scroll_offset, 0);
}

#[test]
fn scroll_to_bottom_resets() {
    let mut app = App::new();
    app.scroll_up(10);
    app.scroll_to_bottom();
    assert_eq!(app.scroll_offset, 0);
}

#[test]
fn keybind_toggles_pane_visibility() {
    let mut app = App::new();
    assert!(!app.tasks.visible);
    app.toggle_tasks_pane();
    assert!(app.tasks.visible);
    app.toggle_tasks_pane();
    assert!(!app.tasks.visible);
}

#[test]
fn pressing_enter_on_selection_switches_to_linked_conversation() {
    let mut app = App::new();
    app.set_conversations(vec![
        ConversationSummary {
            id: "conv-1".into(),
            title: "Other".into(),
            message_count: 0,
            archived: false,
        },
        ConversationSummary {
            id: "conv-x".into(),
            title: "Linked".into(),
            message_count: 0,
            archived: false,
        },
    ]);
    app.tasks
        .apply_task_started(standalone_view("t-1", "conv-x", "Researcher"));
    app.tasks.visible = true;
    app.tasks.selected = Some("t-1".to_string());

    let conv = app.jump_to_selected_task_conversation();
    assert_eq!(conv.as_deref(), Some("conv-x"));
    assert_eq!(app.selected_conversation, Some(1));
    assert!(!app.tasks.visible);
}

#[test]
fn jump_to_selected_task_conversation_returns_id_even_when_not_in_sidebar() {
    let mut app = App::new();
    app.tasks
        .apply_task_started(standalone_view("t-1", "archived-conv", "Researcher"));
    app.tasks.selected = Some("t-1".to_string());

    let conv = app.jump_to_selected_task_conversation();
    assert_eq!(conv.as_deref(), Some("archived-conv"));
    assert_eq!(app.selected_conversation, None);
}

#[test]
fn pressing_c_on_selection_requests_cancel_command() {
    let mut app = App::new();
    app.tasks
        .apply_task_started(standalone_view("t-1", "conv-x", "Researcher"));
    app.tasks.selected = Some("t-1".to_string());

    let id = app.request_cancel_selected_task();
    assert_eq!(id, Some("t-1".to_string()));
    assert_eq!(
        app.pending_task_cancel,
        Some("t-1".to_string())
    );
    assert!(app.status_message.starts_with("Cancelling"));
}

#[test]
fn cancelling_after_task_completes_finds_nothing_because_row_was_evicted() {
    let mut app = App::new();
    app.tasks
        .apply_task_started(standalone_view("t-1", "conv-x", "Researcher"));
    app.tasks.selected = Some("t-1".to_string());
    app.tasks.apply_task_completed("t-1");

    assert!(!app.tasks.rows.iter().any(|row| row.id == "t-1"));
    let id = app.request_cancel_selected_task();
    assert!(id.is_none());
    assert!(app.pending_task_cancel.is_none());
}

#[test]
fn cancel_with_no_selection_is_a_noop() {
    let mut app = App::new();
    let id = app.request_cancel_selected_task();
    assert!(id.is_none());
}

#[test]
fn adele_output_next_cycles_disabled_on_demand_always() {
    assert_eq!(AdeleOutput::Disabled.next(), AdeleOutput::OnDemand);
    assert_eq!(AdeleOutput::OnDemand.next(), AdeleOutput::Always);
    assert_eq!(AdeleOutput::Always.next(), AdeleOutput::Disabled);
}

#[test]
fn defaults_are_you_disabled_and_adele_disabled_silent() {
    let app = app_with_open_conversation("c1");
    assert!(!app.current_voice_in(), "You defaults Disabled");
    assert_eq!(
        app.current_adele_output(),
        AdeleOutput::Disabled,
        "Adele defaults Disabled"
    );
    assert!(
        !app.narrate_for("c1"),
        "default gate is closed (no narration)"
    );
    assert!(
        !app.say_this_spoken_for("c1"),
        "default say_this is not spoken (Disabled)"
    );
    assert!(!app.narrate_for("never-seen"));
}

#[test]
fn toggle_current_voice_in_flips_and_returns_new_state() {
    let mut app = app_with_open_conversation("c1");
    assert_eq!(app.toggle_current_voice_in(), Some(true));
    assert!(app.current_voice_in());
    assert_eq!(app.toggle_current_voice_in(), Some(false));
    assert!(!app.current_voice_in());
}

#[test]
fn toggle_current_voice_in_without_conversation_is_none() {
    let mut app = App::new();
    assert_eq!(app.toggle_current_voice_in(), None);
    assert!(!app.current_voice_in());
}

#[test]
fn cycle_current_adele_output_advances_and_returns_new_level() {
    let mut app = app_with_open_conversation("c1");
    assert_eq!(
        app.cycle_current_adele_output(),
        Some(AdeleOutput::OnDemand)
    );
    assert_eq!(app.current_adele_output(), AdeleOutput::OnDemand);
    assert_eq!(app.cycle_current_adele_output(), Some(AdeleOutput::Always));
    assert_eq!(
        app.cycle_current_adele_output(),
        Some(AdeleOutput::Disabled)
    );
}

#[test]
fn cycle_current_adele_output_without_conversation_is_none() {
    let mut app = App::new();
    assert_eq!(app.cycle_current_adele_output(), None);
    assert_eq!(app.current_adele_output(), AdeleOutput::Disabled);
}

#[test]
fn adele_always_narrates_regardless_of_you() {
    for you in [false, true] {
        let mut app = app_with_open_conversation("c1");
        app.set_voice_in("c1", you);
        app.set_adele_output("c1", AdeleOutput::Always);
        assert!(app.narrate_for("c1"), "Always must narrate (You={you})");
        assert!(
            !app.say_this_spoken_for("c1"),
            "Always does not separately speak say_this (You={you})"
        );
    }
}

#[test]
fn adele_on_demand_never_narrates_but_say_this_speaks() {
    let mut app = app_with_open_conversation("c1");
    app.set_adele_output("c1", AdeleOutput::OnDemand);
    for you in [false, true] {
        app.set_voice_in("c1", you);
        assert!(
            !app.narrate_for("c1"),
            "OnDemand must not auto-narrate (You={you})"
        );
        assert!(
            app.say_this_spoken_for("c1"),
            "OnDemand say_this aside is spoken (You={you})"
        );
    }
}

#[test]
fn adele_disabled_never_narrates_and_say_this_goes_inline() {
    let mut app = app_with_open_conversation("c1");
    app.set_adele_output("c1", AdeleOutput::Disabled);
    for you in [false, true] {
        app.set_voice_in("c1", you);
        assert!(
            !app.narrate_for("c1"),
            "Disabled never narrates (You={you})"
        );
        assert!(
            !app.say_this_spoken_for("c1"),
            "Disabled never speaks say_this (You={you})"
        );
    }
}

#[test]
fn set_voice_in_targets_an_explicit_conversation() {
    let mut app = app_with_open_conversation("c1");
    app.set_voice_in("c2", true);
    assert!(app.voice_in_for("c2"));
    assert!(!app.voice_in_for("c1")); // open conversation untouched
}

#[test]
fn set_adele_output_targets_an_explicit_conversation() {
    let mut app = app_with_open_conversation("c1");
    app.set_adele_output("c2", AdeleOutput::OnDemand);
    assert_eq!(app.adele_output_for("c2"), AdeleOutput::OnDemand);
    assert_eq!(app.adele_output_for("c1"), AdeleOutput::Disabled);
}

#[test]
fn voice_controls_are_per_conversation_isolated() {
    let mut app = app_with_open_conversation("c1");
    assert_eq!(app.toggle_current_voice_in(), Some(true)); // c1 You ON
    app.set_adele_output("c1", AdeleOutput::Always);
    assert!(app.voice_in_for("c1"));
    assert_eq!(app.adele_output_for("c1"), AdeleOutput::Always);
    assert!(!app.voice_in_for("c2"));
    assert_eq!(app.adele_output_for("c2"), AdeleOutput::Disabled);
    assert!(!app.narrate_for("c2"));
}

#[test]
fn push_speech_disabled_note_appends_inline_to_open_conversation() {
    let mut app = app_with_open_conversation("c1");
    assert!(app.push_speech_disabled_note("c1", "the kettle is on"));
    let msgs = &app.current_conversation().unwrap().messages;
    assert_eq!(msgs.len(), 1);
    assert_eq!(msgs[0].role, "assistant");
    assert_eq!(msgs[0].content, "the kettle is on");
    assert_eq!(msgs[0].kind, MessageKind::SpeechDisabled);
}

#[test]
fn push_spoken_note_tags_the_line_spoken() {
    let mut app = app_with_open_conversation("c1");
    assert!(app.push_spoken_note("c1", "the kettle is on"));
    let msgs = &app.current_conversation().unwrap().messages;
    assert_eq!(msgs.len(), 1);
    assert_eq!(msgs[0].role, "assistant");
    assert_eq!(msgs[0].content, "the kettle is on");
    assert_eq!(msgs[0].kind, MessageKind::Spoken);
}

#[test]
fn push_speech_disabled_note_ignores_other_conversation() {
    let mut app = app_with_open_conversation("c1");
    assert!(!app.push_speech_disabled_note("c2", "wrong conversation"));
    assert!(app.current_conversation().unwrap().messages.is_empty());
}

#[test]
fn push_speech_disabled_note_with_no_conversation_is_noop() {
    let mut app = App::new();
    assert!(!app.push_speech_disabled_note("c1", "anything"));
}

#[test]
fn business_outcome_user_sees_their_spawned_standalone_agent_in_the_list_with_correct_title() {
    let mut app = App::new();
    let view = standalone_view("t-42", "spawned-conv", "Researcher: pricing data");
    app.tasks.apply_task_started(view);

    let row = app
        .tasks
        .rows
        .iter()
        .find(|row| row.id == "t-42")
        .expect("row should be present after TaskStarted");
    assert_eq!(row.title, "Researcher: pricing data");
    assert_eq!(row.conversation_id.as_deref(), Some("spawned-conv"));
    assert!(matches!(row.status, TaskStatus::Running));
    // The running badge should now reflect the count.
    assert_eq!(running_badge(&app.tasks), "(1 running)");
}

#[test]
fn display_rows_are_the_typed_line() {
    let line = "one two  three 一二三";
    for width in 1..12 {
        let rows = wrap_line_for_width(line, width);
        assert_eq!(rows.concat(), line);
        for row in &rows {
            let columns: usize = row.chars().map(char_display_width).sum();
            assert!(columns <= width || row.chars().count() == 1);
        }
    }
    assert_eq!(
        map_cursor_col_to_wrapped_segments(&vec!["ab ".into(), "cd".into()], 4),
        (1, 1)
    );
}

#[test]
fn selection_stays_in_the_list() {
    let mut app = app_with_conversations();
    app.selected_conversation = Some(2);
    app.next_conversation();
    app.previous_conversation();
    assert_eq!(app.selected_conversation, Some(2));
    app.set_conversations(Vec::new());
    app.next_conversation();
    assert_eq!(app.selected_conversation, None);
}

#[test]
fn scrolling_stops_at_the_ends() {
    let mut app = App::new();
    app.scroll_up(u16::MAX);
    app.scroll_up(5);
    assert_eq!(app.scroll_offset, u16::MAX);
}
