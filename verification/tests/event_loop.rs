use adele::actions::{handle_action, settings_saved, submit_prompt, Request, Setting};
use adele::api::{
    Command, ConversationDetail, ConversationPersonalityView, ConversationSummary, MessageKind,
    SendPromptOverride, TaskStatus, TaskView,
};
use adele::app::{App, CoreReply, Effect, InputMode, ScreenRequest, UiMessage};
use adele::chat::{
    handle_client_tool_call, handle_key, handle_signal, prompt_replied, prompt_sent,
    run_stream_controller_effects, send_failed, signal_replied, tool_result_submitted, KeyStep,
    Sent, SignalAction, SignalEvent,
};
use adele::client_tools::ClientToolCall;
use adele::headless::{headless_title, Headless, HeadlessFailure, HeadlessStep};
use adele::keys::{Action, KeyCode, KeyEvent, KeyEventKind, KeyModifiers};
use adele::rpc::{advance, apply_rpc_outcome, command_of, Rpc, RpcOutcome, RpcReply, RpcStep};
use adele::run::{
    apply_sub_screen_disconnect, begin_turn, connection_failed, conversations_loaded,
    dictation_ended, disconnected, insert_dictated_text, model_picked, personality_saved, push_to_talk_answered,
    reconnect_failed, reconnecting, resync, resynced, screen_failed, start_dictation,
    sub_screen_signal, subscribe_to_open_conversation, tasks_loaded, voice_loaded, voice_loading,
    DictationOutcome, ReconnectState, TasksReply, Turn,
};
use adele::tasks::running_badge;
use adele::voice::AdeleOutput;

fn press(code: KeyCode) -> KeyEvent {
    KeyEvent {
        code,
        modifiers: KeyModifiers {
            shift: false,
            control: false,
            alt: false,
            meta: false,
            super_key: false,
            hyper: false,
        },
        kind: KeyEventKind::Press,
    }
}

fn detail(id: &str) -> ConversationDetail {
    ConversationDetail {
        id: id.into(),
        title: format!("Conv {id}"),
        messages: vec![],
        model_selection: None,
        conversation_personality: None,
    }
}

fn row(id: &str) -> ConversationSummary {
    ConversationSummary {
        id: id.into(),
        title: format!("Row {id}"),
        message_count: 1,
        archived: false,
    }
}

fn listed() -> App {
    let mut app = App::new();
    app.set_conversations(vec![row("1"), row("2")]);
    app.selected_conversation = Some(0);
    app
}

fn reply(app: &mut App, effects: Vec<Effect>) -> CoreReply {
    CoreReply {
        current: app.core.current.take(),
        stream: None,
        queued: Vec::new(),
        editing_queued: None,
        effects,
    }
}

#[test]
fn releasing_a_key_does_nothing() {
    let mut app = listed();
    let mut key = press(KeyCode::Char('q'));
    key.kind = KeyEventKind::Release;
    assert!(matches!(handle_key(&mut app, key), KeyStep::Done));
    assert!(matches!(
        handle_key(&mut app, press(KeyCode::Char('q'))),
        KeyStep::Act(Action::Quit)
    ));
}

#[test]
fn any_key_closes_the_help() {
    let mut app = App::new();
    app.toggle_help();
    assert!(matches!(
        handle_key(&mut app, press(KeyCode::Char('q'))),
        KeyStep::Done
    ));
    assert!(!app.show_help);
}

#[test]
fn a_deletion_is_answered_by_yes_or_no() {
    let mut app = listed();
    handle_action(&mut app, true, true, Action::BeginDeleteConversation);
    assert!(matches!(
        handle_key(&mut app, press(KeyCode::Char('x'))),
        KeyStep::Done
    ));
    assert!(app.delete_confirm_pending());
    assert!(matches!(
        handle_key(&mut app, press(KeyCode::Char('y'))),
        KeyStep::Act(Action::DeleteConversation)
    ));
    match handle_action(&mut app, true, true, Action::DeleteConversation) {
        Request::Call(Rpc::Delete { id, .. }) => assert_eq!(id, "1"),
        _ => panic!("nothing is deleted"),
    }
    assert_eq!(app.conversations().len(), 1);
}

#[test]
fn typed_keys_reach_the_composer() {
    let mut app = App::new();
    app.enter_editing_mode();
    handle_key(&mut app, press(KeyCode::Char('h')));
    handle_key(&mut app, press(KeyCode::Char('i')));
    assert_eq!(app.textarea_content(), "hi");
}

#[test]
fn nothing_is_sent_without_a_connection() {
    let mut app = listed();
    app.textarea.insert_str("hello");
    assert!(matches!(submit_prompt(&mut app, false), Request::Nothing));
    assert_eq!(
        app.status_message,
        "Not connected — message not sent (your text is preserved)"
    );
    assert_eq!(app.textarea_content(), "hello");
    for action in [
        Action::OpenConversation,
        Action::NewConversation,
        Action::ArchiveConversation,
        Action::ToggleShowArchived,
    ] {
        assert!(!matches!(
            handle_action(&mut app, false, false, action),
            Request::Call(_)
        ));
    }
    match submit_prompt(&mut app, true) {
        Request::Reduce(UiMessage::SubmitPrompt { prompt }) => assert_eq!(prompt, "hello"),
        _ => panic!("nothing is handed in"),
    }
}

#[test]
fn screens_open_where_the_daemon_can_be_reached() {
    let mut app = App::new();
    handle_action(&mut app, false, false, Action::OpenKnowledgeBase);
    assert_eq!(
        app.status_message,
        "Not connected — knowledge base unavailable"
    );
    handle_action(&mut app, true, true, Action::OpenMcpServers);
    assert_eq!(app.take_pending_screen(), Some(ScreenRequest::McpServers));
    handle_action(&mut app, true, true, Action::OpenPersonalityPicker);
    assert_eq!(app.take_pending_screen(), None);
    screen_failed(&mut app, ScreenRequest::KnowledgeBase, "down");
    assert_eq!(app.status_message, "KB error: down");
}

#[test]
fn settings_are_saved_when_toggled() {
    let mut app = App::new();
    match handle_action(&mut app, true, true, Action::ToggleDebug) {
        Request::SaveSettings { show_debug, changed, .. } => {
            assert_eq!(show_debug, app.show_debug);
            assert_eq!(changed, Setting::Debug);
        }
        _ => panic!("nothing is saved"),
    }
    settings_saved(&mut app, Setting::Debug, Err("full".into()));
    assert_eq!(app.status_message, "Settings save failed: full");
}

#[test]
fn a_new_conversation_is_created_listed_and_opened() {
    let mut app = listed();
    let mut rpc = match handle_action(&mut app, true, true, Action::NewConversation) {
        Request::Call(rpc) => rpc,
        _ => panic!("nothing is created"),
    };
    let replies = vec![
        RpcReply::Created(Ok("9".into())),
        RpcReply::Listed(Ok(vec![row("9"), row("1")])),
        RpcReply::Opened(Ok(detail("9"))),
    ];
    let mut outcome = None;
    for reply in replies {
        let _ = command_of(&rpc);
        match advance(rpc, reply) {
            RpcStep::Next(next) => rpc = next,
            RpcStep::Done(done) => {
                outcome = Some(done);
                break;
            }
        }
    }
    apply_rpc_outcome(&mut app, outcome.expect("the request ends"));
    assert_eq!(app.selected_conversation, Some(0));
    assert_eq!(app.current_conversation().unwrap().id, "9");
    assert_eq!(app.mode, InputMode::Editing);
}

#[test]
fn a_failed_deletion_brings_the_list_back() {
    let mut app = listed();
    app.delete_selected_conversation();
    let step = advance(
        Rpc::Delete {
            id: "1".into(),
            show_archived: false,
        },
        RpcReply::Done(Err("locked".into())),
    );
    let rpc = match step {
        RpcStep::Next(rpc) => rpc,
        RpcStep::Done(_) => panic!("no list is fetched"),
    };
    assert!(matches!(
        command_of(&rpc),
        Command::ListConversations {
            include_archived: false
        }
    ));
    match advance(rpc, RpcReply::Listed(Ok(vec![row("1"), row("2")]))) {
        RpcStep::Done(outcome) => {
            apply_rpc_outcome(&mut app, outcome);
        }
        RpcStep::Next(_) => panic!("no end"),
    }
    assert_eq!(app.conversations().len(), 2);
    assert!(app.status_message.contains("locked"));
}

#[test]
fn archiving_refreshes_the_list() {
    let rpc = Rpc::Archive {
        id: "1".into(),
        archived: true,
        show_archived: true,
    };
    assert!(matches!(
        command_of(&rpc),
        Command::UnarchiveConversation { .. }
    ));
    match advance(rpc, RpcReply::Done(Ok(()))) {
        RpcStep::Next(Rpc::Refresh { show_archived, on_success }) => {
            assert!(show_archived);
            assert_eq!(on_success.as_deref(), Some("Conversation unarchived"));
        }
        _ => panic!("no refresh"),
    }
}

#[test]
fn refreshing_keeps_the_open_chat() {
    let mut app = listed();
    app.load_conversation(detail("2"));
    apply_rpc_outcome(
        &mut app,
        RpcOutcome::ConversationsRefreshed {
            list: Ok(vec![row("2")]),
            on_success: Some("ok".into()),
        },
    );
    assert_eq!(app.conversations().len(), 1);
    assert_eq!(app.current_conversation().unwrap().id, "2");
    assert_eq!(app.status_message, "ok");
    apply_rpc_outcome(
        &mut app,
        RpcOutcome::ConversationRenamed {
            id: "2".into(),
            title: "New".into(),
            result: Ok(()),
        },
    );
    assert_eq!(app.conversations()[0].title, "New");
}

#[test]
fn an_accepted_prompt_is_sent_once() {
    let mut app = App::new();
    app.load_conversation(detail("c1"));
    app.textarea.insert_str("hello");
    app.scroll_up(4);
    app.pending_model_override = Some(SendPromptOverride {
        connection_id: "a".into(),
        model_id: "b".into(),
        effort: None,
    });
    let effects = vec![Effect::SendPrompt {
        conversation_id: "c1".into(),
        prompt: "hello".into(),
        system_refinement: None,
    }];
    let r = reply(&mut app, effects);
    let out = prompt_replied(&mut app, r, true).expect("the prompt is sent");
    assert_eq!(out.prompt, "hello");
    assert_eq!(out.override_selection.as_ref().unwrap().model_id, "b");
    assert_eq!(app.textarea_content(), "");
    assert_eq!(app.scroll_offset, 0);
    assert!(app.take_pending_override().is_none());
    match prompt_sent(&mut app, out, Err("down".into())) {
        Sent::Failed { prompt, error, .. } => {
            let r = reply(&mut app, Vec::new());
            send_failed(&mut app, r, prompt, error);
        }
        Sent::Accepted => panic!("accepted"),
    }
    assert_eq!(app.textarea_content(), "hello");
    assert_eq!(app.status_message, "Send error: down (your text is preserved)");
}

#[test]
fn a_transport_without_commands_drops_the_model() {
    let mut app = App::new();
    app.load_conversation(detail("c1"));
    app.pending_model_override = Some(SendPromptOverride {
        connection_id: "a".into(),
        model_id: "b".into(),
        effort: None,
    });
    let effects = vec![Effect::SendPrompt {
        conversation_id: "c1".into(),
        prompt: "hello".into(),
        system_refinement: Some("be brief".into()),
    }];
    let r = reply(&mut app, effects);
    let out = prompt_replied(&mut app, r, false).expect("the prompt is sent");
    assert_eq!(out.override_selection, None);
    assert_eq!(out.refinement, "be brief");
    assert_eq!(
        app.status_message,
        "Model override isn't supported over D-Bus — sent without override"
    );
    assert!(matches!(
        prompt_sent(&mut app, out, Ok("t1".into())),
        Sent::Accepted
    ));
    assert!(app.is_streaming());
}

#[test]
fn signals_reach_the_reducer_or_the_window() {
    let mut app = App::new();
    assert!(matches!(
        handle_signal(
            &mut app,
            SignalEvent::Chunk {
                request_id: "r".into(),
                chunk: "x".into(),
            }
        ),
        SignalAction::Reduce {
            message: UiMessage::StreamChunk { .. },
            error: None,
        }
    ));
    match handle_signal(
        &mut app,
        SignalEvent::Error {
            request_id: "r".into(),
            error: "bad".into(),
        },
    ) {
        SignalAction::Reduce { error, .. } => {
            let r = reply(&mut app, vec![Effect::Speak("hi".into())]);
            assert_eq!(signal_replied(&mut app, r, error), vec!["hi"]);
        }
        _ => panic!("not reduced"),
    }
    assert_eq!(app.status_message, "Error: bad");
    assert!(matches!(
        handle_signal(&mut app, SignalEvent::ConversationListChanged),
        SignalAction::RefreshConversations
    ));
    handle_signal(
        &mut app,
        SignalEvent::ConversationWarning {
            warning: "gone".into(),
        },
    );
    assert_eq!(app.status_message, "Warning: gone");
    assert_eq!(
        run_stream_controller_effects(&vec![
            Effect::ClearChatStatus,
            Effect::Speak("a".into()),
            Effect::Speak("b".into()),
        ]),
        vec!["a", "b"]
    );
}

#[test]
fn finished_tasks_leave_the_pane() {
    let mut app = App::new();
    handle_signal(
        &mut app,
        SignalEvent::TaskStarted {
            task: TaskView {
                id: "t".into(),
                title: "T".into(),
                conversation_id: None,
                status: TaskStatus::Running,
                progress_hint: None,
            },
        },
    );
    handle_signal(
        &mut app,
        SignalEvent::TaskProgress {
            id: "t".into(),
            progress_hint: Some("half".into()),
        },
    );
    assert_eq!(app.tasks.rows[0].progress_hint.as_deref(), Some("half"));
    handle_signal(&mut app, SignalEvent::TaskCompleted { id: "t".into() });
    assert!(app.tasks.rows.is_empty());
    tasks_loaded(&mut app, TasksReply::Unexpected("Ack".into()));
    assert!(app.status_message.contains("Ack"));
}

fn call(tool: &str, conversation: &str) -> ClientToolCall {
    ClientToolCall {
        task_id: "t".into(),
        conversation_id: conversation.into(),
        tool_call_id: "k".into(),
        tool_name: tool.into(),
        arguments: serde_json::from_str("{\"text\":\"hi\"}").unwrap(),
    }
}

#[test]
fn tools_speak_only_in_their_conversation() {
    let mut app = App::new();
    app.load_conversation(detail("c1"));
    let answer = handle_client_tool_call(&mut app, &call("say_this", "c1"), true);
    assert_eq!(answer.speak, None);
    assert_eq!(
        app.current_conversation().unwrap().messages[0].kind,
        MessageKind::SpeechDisabled
    );
    handle_client_tool_call(&mut app, &call("request_voice", "c1"), true);
    assert_eq!(app.adele_output_for("c1"), AdeleOutput::OnDemand);
    let answer = handle_client_tool_call(&mut app, &call("say_this", "c1"), true);
    assert_eq!(answer.speak.as_deref(), Some("hi"));
    let answer = handle_client_tool_call(&mut app, &call("say_this", "c1"), false);
    assert_eq!(answer.speak, None);
    let answer = handle_client_tool_call(&mut app, &call("other", "c1"), true);
    assert!(answer.result.is_err());
    tool_result_submitted(&mut app, true, Err("late".into()));
    assert_eq!(app.status_message, "Client tool result submit failed: late");
    tool_result_submitted(&mut app, false, Ok(()));
    assert_eq!(
        app.status_message,
        "Client tool call arrived while disconnected"
    );
}

#[test]
fn delays_grow_while_reconnecting_fails() {
    let mut app = App::new();
    let mut state = disconnected(&mut app, "closed");
    let mut delays = Vec::new();
    for _ in 0..6 {
        reconnecting(&mut app);
        if let ReconnectState::Pending { delay_secs } = state {
            delays.push(delay_secs);
        }
        state = reconnect_failed(&mut app, state, "refused");
    }
    assert_eq!(delays, vec![2, 4, 8, 16, 30, 30]);
    assert!(app.status_message.contains("refused"));
    assert!(matches!(
        connection_failed(&mut app, "no"),
        ReconnectState::Pending { delay_secs: 2 }
    ));
}

#[test]
fn a_lost_connection_ends_the_stream() {
    let mut app = App::new();
    app.load_conversation(detail("c1"));
    app.apply_prompt_ack("t".into(), "c1".into());
    disconnected(&mut app, "closed");
    assert!(!app.is_streaming());
    assert_eq!(app.assistant_status, None);
    let mut lost = None;
    sub_screen_signal(
        &mut app,
        &mut lost,
        &SignalAction::Disconnected {
            reason: "gone".into(),
        },
    );
    assert_eq!(lost.as_deref(), Some("gone"));
    assert!(apply_sub_screen_disconnect(&mut app, &lost).is_some());
    assert!(apply_sub_screen_disconnect(&mut app, &None).is_none());
}

#[test]
fn reconnecting_fetches_the_open_chat_again() {
    let mut app = App::new();
    app.load_conversation(detail("c1"));
    assert_eq!(resync(&mut app).as_deref(), Some("c1"));
    resynced(&mut app, Err("missing".into()));
    assert!(app.status_message.contains("missing"));
    conversations_loaded(&mut app, Ok(vec![row("c1")]));
    assert_eq!(app.conversations().len(), 1);
    match subscribe_to_open_conversation(&app) {
        Command::SubscribeConversations { conversation_ids } => {
            assert_eq!(conversation_ids, vec!["c1"]);
        }
        _ => panic!("not a subscription"),
    }
}

#[test]
fn a_turn_serves_what_was_asked_for() {
    let mut app = App::new();
    app.pending_conversation_refresh = true;
    app.request_screen(ScreenRequest::Connections);
    match begin_turn(&mut app, true) {
        Turn::Go { refresh, screen } => {
            assert!(matches!(refresh, Some(Rpc::Refresh { .. })));
            assert_eq!(screen, Some(ScreenRequest::Connections));
        }
        _ => panic!("no turn"),
    }
    assert!(!app.pending_conversation_refresh);
    app.switch_requested = true;
    assert!(matches!(begin_turn(&mut app, true), Turn::Switch));
    app.quit();
    assert!(matches!(begin_turn(&mut app, true), Turn::Quit));
}

#[test]
fn dictated_text_is_handed_in() {
    let mut app = App::new();
    app.textarea.insert_str("hello");
    assert!(!start_dictation(&mut app, true, true, true));
    assert_eq!(app.status_message, "Already listening…");
    assert!(start_dictation(&mut app, true, false, true));
    match dictation_ended(
        &mut app,
        true,
        DictationOutcome::Transcribed("world".into()),
    ) {
        Request::Reduce(UiMessage::SubmitPrompt { prompt }) => assert_eq!(prompt, "hello world"),
        _ => panic!("nothing is handed in"),
    }
    dictation_ended(&mut app, true, DictationOutcome::NoSpeech);
    assert_eq!(app.status_message, "No speech detected");
    dictation_ended(&mut app, true, DictationOutcome::Failed("mic".into()));
    assert_eq!(app.status_message, "Dictation failed: mic");
    push_to_talk_answered(&mut app, Ok(()));
    assert_eq!(app.status_message, "Listening… (voice daemon)");
    voice_loaded(&mut app, Err("no model".into()));
    assert_eq!(app.status_message, "Voice unavailable: no model");
    voice_loading(&mut app);
    assert_eq!(app.status_message, "Voice: loading models… (Ctrl+G to dictate)");
    voice_loaded(&mut app, Ok(()));
    assert_eq!(app.status_message, "Voice ready (Ctrl+G to dictate)");
}

#[test]
fn picks_are_told_in_the_status_line() {
    let mut app = App::new();
    app.load_conversation(detail("c1"));
    model_picked(
        &mut app,
        SendPromptOverride {
            connection_id: "work".into(),
            model_id: "m".into(),
            effort: None,
        },
    );
    assert_eq!(
        app.status_message,
        "Model: work · m (applies to next message)"
    );
    personality_saved(
        &mut app,
        ConversationPersonalityView {
            professionalism: None,
            warmth: None,
            directness: None,
            enthusiasm: None,
            humor: None,
            sarcasm: None,
            pretentiousness: None,
        },
    );
    assert_eq!(app.status_message, "Personality cleared (using global)");
}

#[test]
fn a_prompt_runs_without_the_window() {
    let mut h = Headless::new("r".into());
    assert!(matches!(
        h.handle(
            SignalEvent::Chunk {
                request_id: "other".into(),
                chunk: "x".into(),
            },
            false
        ),
        HeadlessStep::Wait
    ));
    match h.handle(
        SignalEvent::Chunk {
            request_id: "r".into(),
            chunk: "part".into(),
        },
        false,
    ) {
        HeadlessStep::Print(text) => assert_eq!(text, "part"),
        _ => panic!("nothing is printed"),
    }
    match h.handle(
        SignalEvent::Complete {
            request_id: "r".into(),
            full_response: "part".into(),
        },
        false,
    ) {
        HeadlessStep::Finish(text) => assert_eq!(text, "\n"),
        _ => panic!("not finished"),
    }
    match Headless::new("r".into()).handle(
        SignalEvent::Complete {
            request_id: "r".into(),
            full_response: "whole".into(),
        },
        false,
    ) {
        HeadlessStep::Finish(text) => assert_eq!(text, "whole\n"),
        _ => panic!("not finished"),
    }
    assert!(matches!(
        h.handle(
            SignalEvent::Error {
                request_id: "r".into(),
                error: "bad".into(),
            },
            false
        ),
        HeadlessStep::Fail(_)
    ));
    assert!(matches!(
        h.handle(SignalEvent::ClientToolCall(call("x", "c")), true),
        HeadlessStep::CallHost(_)
    ));
    match h.handle(SignalEvent::ClientToolCall(call("say_this", "c")), false) {
        HeadlessStep::Answer { result, .. } => assert!(result.is_ok()),
        _ => panic!("not answered"),
    }
    assert_eq!(headless_title(), "adele --prompt");
    assert_eq!(
        HeadlessFailure::Connect.text("refused"),
        "connection failed: refused"
    );
    assert_eq!(
        HeadlessFailure::CreateConversation.text("x"),
        "could not create conversation: x"
    );
    assert_eq!(
        HeadlessFailure::SendPrompt.text("x"),
        "could not send prompt: x"
    );
}

#[test]
fn leaving_edit_mode_asks_for_nothing_without_a_message_in_hand() {
    for connected in [false, true] {
        let mut app = App::new();
        app.mode = InputMode::Editing;
        let request = handle_action(&mut app, connected, connected, Action::ExitEditMode);
        assert!(matches!(request, Request::Nothing));
        app.mode = InputMode::Editing;
        app.core.editing_queued = Some(0);
        let request = handle_action(&mut app, connected, connected, Action::ExitEditMode);
        assert!(matches!(request, Request::Reduce(UiMessage::CancelQueuedEdit)));
        assert!(app.mode == InputMode::Normal);
    }
}

#[test]
fn the_badge_counts_running_tasks_only() {
    let mut app = App::new();
    assert_eq!(running_badge(&app.tasks), "");
    for n in 0..12 {
        let status = match n {
            0 => TaskStatus::Other("queued".into()),
            _ => TaskStatus::Running,
        };
        app.tasks.apply_task_started(TaskView {
            id: format!("t{n}"),
            title: "T".into(),
            conversation_id: None,
            status,
            progress_hint: None,
        });
        if n == 0 {
            assert_eq!(running_badge(&app.tasks), "");
        }
    }
    assert_eq!(running_badge(&app.tasks), "(11 running)");
    app.tasks.apply_task_completed("t1");
    assert_eq!(running_badge(&app.tasks), "(10 running)");
}

#[test]
fn an_open_tasks_pane_lets_nothing_be_typed() {
    for mode in [InputMode::Editing, InputMode::Renaming, InputMode::Normal] {
        let mut app = App::new();
        app.mode = mode;
        app.toggle_tasks_pane();
        let mut held = press(KeyCode::Char('w'));
        held.modifiers.control = true;
        for key in [press(KeyCode::Char('x')), press(KeyCode::Backspace), held] {
            assert!(matches!(handle_key(&mut app, key), KeyStep::Done));
        }
        assert_eq!(app.textarea_content(), "");
        assert_eq!(app.rename_textarea.lines(), vec![String::new()]);
        assert!(app.tasks.visible);
    }
}

#[test]
fn dictated_and_pasted_text_takes_the_place_of_the_selection() {
    let mut app = App::new();
    app.mode = InputMode::Editing;
    app.apply_paste("one two");
    let mut back = press(KeyCode::Left);
    back.modifiers.shift = true;
    for _ in 0..3 {
        handle_key(&mut app, back);
    }
    app.apply_paste("2");
    assert_eq!(app.textarea_content(), "one 2");
    handle_key(&mut app, back);
    handle_action(&mut app, false, false, Action::InsertNewline);
    assert_eq!(app.textarea_content(), "one \n");
    handle_key(&mut app, back);
    insert_dictated_text(&mut app, "three");
    assert_eq!(app.textarea_content(), "one three");
}
