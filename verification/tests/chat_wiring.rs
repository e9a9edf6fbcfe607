use adele::actions::{handle_action, Request};
use adele::api::{ChatMessage, ConversationDetail, MessageKind};
use adele::app::{App, CoreReply, Effect, InputMode, Stream, UiMessage};
use adele::chat::{handle_key, KeyStep};
use adele::keys::{KeyCode, KeyEvent, KeyEventKind, KeyModifiers};
use adele::voice::AdeleOutput;
use std::ops::{Deref, DerefMut};

/// The window with a simple reducer behind it.
struct Window {
    app: App,
    request: Option<String>,
    external: bool,
    in_hand: Option<String>,
}

impl Deref for Window {
    type Target = App;

    fn deref(&self) -> &App {
        &self.app
    }
}

impl DerefMut for Window {
    fn deref_mut(&mut self) -> &mut App {
        &mut self.app
    }
}

fn message(role: &str, content: &str) -> ChatMessage {
    ChatMessage {
        id: String::new(),
        role: role.into(),
        content: content.into(),
        kind: MessageKind::Normal,
    }
}

impl Window {
    fn new() -> Window {
        Window {
            app: App::new(),
            request: None,
            external: false,
            in_hand: None,
        }
    }

    fn claims(&mut self, request_id: &str) -> bool {
        if self.app.core.stream.is_none() {
            self.request = None;
            self.external = false;
            return false;
        }
        let ours = self.request.as_deref().is_none_or(|r| r == request_id);
        if ours {
            self.request = Some(request_id.to_string());
        }
        ours
    }

    fn apply_core(&mut self, told: UiMessage) -> Vec<Effect> {
        let claimed = match &told {
            UiMessage::StreamChunk { request_id, .. }
            | UiMessage::StreamComplete { request_id, .. }
            | UiMessage::StreamError { request_id, .. }
            | UiMessage::AssistantStatus { request_id, .. } => self.claims(&request_id.clone()),
            _ => false,
        };
        let mut current = self.app.core.current.take();
        let mut stream = self.app.core.stream.take();
        let mut queued = std::mem::take(&mut self.app.core.queued);
        let mut editing = self.app.core.editing_queued.take();
        let mut effects = Vec::new();
        let open = current.as_ref().map(|c| c.id.clone());
        match told {
            UiMessage::StreamChunk { chunk, .. } => {
                if let (true, Some(s)) = (claimed, stream.as_mut()) {
                    s.buffer.push_str(&chunk);
                    effects.push(Effect::ReceiveChunk(chunk));
                }
            }
            UiMessage::StreamComplete { full_response, .. } => {
                if let (true, Some(s)) = (claimed, stream.take()) {
                    if open.as_deref() == Some(s.conversation_id.as_str()) {
                        if let Some(c) = current.as_mut() {
                            c.messages.push(message("assistant", &full_response));
                        }
                        effects.push(Effect::ClearChatStatus);
                        effects.push(Effect::CompleteStreaming(full_response.clone()));
                        if !self.external && self.app.narrate_for(&s.conversation_id) {
                            effects.push(Effect::Speak(full_response));
                        }
                        if !queued.is_empty() {
                            let prompt = queued.join("\n");
                            queued.clear();
                            effects.push(Effect::SetQueuedMessages);
                            effects.push(Effect::SendPrompt {
                                conversation_id: s.conversation_id,
                                prompt,
                                system_refinement: None,
                            });
                        }
                    }
                    self.request = None;
                    self.external = false;
                }
            }
            UiMessage::StreamError { error, .. } => {
                if claimed {
                    stream = None;
                    effects.push(Effect::ClearChatStatus);
                    effects.push(Effect::SetStatusText(format!("Error: {error}")));
                }
            }
            UiMessage::AssistantStatus { message, .. } => {
                if claimed {
                    effects.push(Effect::SetChatStatus(message));
                }
            }
            UiMessage::UserMessageAdded {
                conversation_id,
                request_id,
                content,
            } => {
                if open.as_deref() == Some(conversation_id.as_str()) && stream.is_none() {
                    if let Some(c) = current.as_mut() {
                        c.messages.push(message("user", &content));
                    }
                    effects.push(Effect::AddUserMessage(content));
                    stream = Some(Stream {
                        conversation_id,
                        buffer: String::new(),
                    });
                    self.request = Some(request_id);
                    self.external = true;
                }
            }
            UiMessage::SubmitPrompt { prompt } => {
                if let (Some(c), false) = (current.as_mut(), prompt.trim().is_empty()) {
                    if stream.is_some() {
                        match editing.take() {
                            Some(i) => queued.insert(i, prompt),
                            None => queued.push(prompt),
                        }
                        self.in_hand = None;
                        effects.push(Effect::SetComposerText(String::new()));
                        effects.push(Effect::SetQueuedMessages);
                    } else {
                        c.messages.push(message("user", &prompt));
                        effects.push(Effect::AddUserMessage(prompt.clone()));
                        effects.push(Effect::SendPrompt {
                            conversation_id: c.id.clone(),
                            prompt,
                            system_refinement: None,
                        });
                    }
                }
            }
            UiMessage::EditQueued { index } => {
                if let (Some(i), Some(text)) = (editing, self.in_hand.take()) {
                    queued.insert(i, text);
                }
                let text = queued.remove(index);
                self.in_hand = Some(text.clone());
                editing = Some(index);
                effects.push(Effect::SetQueuedMessages);
                effects.push(Effect::SetComposerText(text));
            }
            UiMessage::CancelQueuedEdit => {
                if let (Some(i), Some(text)) = (editing.take(), self.in_hand.take()) {
                    queued.insert(i, text);
                }
                effects.push(Effect::SetQueuedMessages);
                effects.push(Effect::SetComposerText(String::new()));
            }
            UiMessage::SendFailed { .. } => {}
        }
        self.app.apply_core(CoreReply {
            current,
            stream,
            queued,
            editing_queued: editing,
            effects,
        })
    }

    fn recall_prev_queued(&mut self) {
        if let Some(told) = self.app.recall_prev_queued() {
            self.apply_core(told);
        }
    }

    fn recall_next_queued(&mut self) {
        if let Some(told) = self.app.recall_next_queued() {
            self.apply_core(told);
        }
    }

    fn cancel_queued_edit_if_active(&mut self) {
        if let Some(told) = self.app.cancel_queued_edit_if_active() {
            self.apply_core(told);
        }
    }
}

fn detail(id: &str) -> ConversationDetail {
    ConversationDetail {
        id: id.into(),
        title: format!("Conv {id}"),
        messages: vec![],
        model_selection: None,
        conversation_personality: None,
    }
}

fn app_with_open_conversation(id: &str) -> Window {
    let mut app = Window::new();
    app.load_conversation(detail(id));
    app
}

fn app_streaming_on_c1() -> Window {
    let mut app = Window::new();
    app.load_conversation(detail("c1"));
    app.apply_prompt_ack("task-1".into(), "c1".into());
    app
}

fn submit(app: &mut Window, text: &str) -> Vec<Effect> {
    app.textarea.insert_str(text);
    let prompt = app.textarea_content();
    app.apply_core(UiMessage::SubmitPrompt { prompt })
}

fn sent_prompt(effects: &[Effect]) -> Option<String> {
    effects.iter().find_map(|e| match e {
        Effect::SendPrompt { prompt, .. } => Some(prompt.clone()),
        _ => None,
    })
}

#[test]
fn submit_prompt_sends_unwrapped_text_after_display_wrap() {
    let mut app = Window::new();
    app.load_conversation(ConversationDetail {
        id: "c1".into(),
        title: "t".into(),
        messages: vec![],
        model_selection: None,
        conversation_personality: None,
    });
    let typed = "alpha beta gamma delta epsilon zeta eta theta iota kappa";
    app.textarea.insert_str(typed);

    let _ = app.wrapped_display_textarea(10);

    let prompt = app.textarea_content();
    let effects = app.apply_core(UiMessage::SubmitPrompt { prompt });
    let sent = sent_prompt(&effects).expect("an accepted send emits SendPrompt");
    assert_eq!(sent, typed);
    assert!(!sent.contains('\n'));
}

#[test]
fn submit_prompt_preserves_explicit_user_newlines() {
    let mut app = Window::new();
    app.load_conversation(ConversationDetail {
        id: "c1".into(),
        title: "t".into(),
        messages: vec![],
        model_selection: None,
        conversation_personality: None,
    });
    let typed = "first paragraph here\nsecond paragraph here";
    app.textarea.insert_str(typed);

    let _ = app.wrapped_display_textarea(8);

    let prompt = app.textarea_content();
    let effects = app.apply_core(UiMessage::SubmitPrompt { prompt });
    assert_eq!(
        sent_prompt(&effects).expect("an accepted send emits SendPrompt"),
        typed
    );
}

#[test]
fn submitting_while_streaming_queues_and_clears_the_composer() {
    let mut app = app_streaming_on_c1();
    let effects = submit(&mut app, "hello while busy");

    assert!(
        sent_prompt(&effects).is_none(),
        "a busy submit must not send"
    );
    assert_eq!(
        app.queued_messages_for_view(),
        &["hello while busy".to_string()]
    );
    assert!(
        app.textarea_content().is_empty(),
        "composer clears when a message is queued"
    );
}

#[test]
fn queued_messages_flush_as_one_combined_send_on_stream_complete() {
    let mut app = app_streaming_on_c1();
    submit(&mut app, "first");
    submit(&mut app, "second");
    assert_eq!(app.queued_messages_for_view().len(), 2);

    let effects = app.apply_core(UiMessage::StreamComplete {
        request_id: "srv-1".into(),
        full_response: "reply".into(),
    });
    assert_eq!(
        sent_prompt(&effects).expect("stream completion flushes the queue as a send"),
        "first\nsecond",
        "the queued burst flushes as ONE combined turn joined with \\n"
    );
    assert!(
        app.queued_messages_for_view().is_empty(),
        "the queue drains on flush"
    );
}

#[test]
fn recall_prev_loads_the_newest_queued_message_then_walks_to_the_front() {
    let mut app = app_streaming_on_c1();
    submit(&mut app, "alpha");
    submit(&mut app, "bravo");

    app.recall_prev_queued(); // Up -> newest
    assert_eq!(app.textarea_content(), "bravo");
    assert_eq!(app.editing_queued_index(), Some(1));
    assert_eq!(app.queued_messages_for_view(), &["alpha".to_string()]);

    app.recall_prev_queued(); // Up -> older
    assert_eq!(app.textarea_content(), "alpha");
    assert_eq!(app.editing_queued_index(), Some(0));

    app.recall_prev_queued(); // Up at the front -> no-op, stays on alpha
    assert_eq!(app.textarea_content(), "alpha");
    assert_eq!(app.editing_queued_index(), Some(0));
}

#[test]
fn recall_next_steps_forward_then_cancels_past_the_newest() {
    let mut app = app_streaming_on_c1();
    submit(&mut app, "alpha");
    submit(&mut app, "bravo");
    app.recall_prev_queued(); // bravo
    app.recall_prev_queued(); // alpha
    assert_eq!(app.textarea_content(), "alpha");

    app.recall_next_queued(); // Down -> bravo
    assert_eq!(app.textarea_content(), "bravo");
    assert_eq!(app.editing_queued_index(), Some(1));

    app.recall_next_queued(); // Down past newest -> cancel, restore + clear
    assert!(app.textarea_content().is_empty());
    assert_eq!(app.editing_queued_index(), None);
    assert_eq!(
        app.queued_messages_for_view(),
        &["alpha".to_string(), "bravo".to_string()]
    );
}

#[test]
fn editing_a_recalled_message_reinserts_it_in_place_on_submit() {
    let mut app = app_streaming_on_c1();
    submit(&mut app, "alpha");
    submit(&mut app, "bravo");
    app.recall_prev_queued(); // check out bravo (slot 1)
    app.clear_composer();
    let effects = submit(&mut app, "bravo-edited");

    assert!(
        sent_prompt(&effects).is_none(),
        "still streaming: the edited message re-queues, not sends"
    );
    assert!(app.textarea_content().is_empty());
    assert_eq!(
        app.queued_messages_for_view(),
        &["alpha".to_string(), "bravo-edited".to_string()]
    );
    assert_eq!(app.editing_queued_index(), None);
}

#[test]
fn cancelling_a_recalled_edit_returns_the_message_and_clears_composer() {
    let mut app = app_streaming_on_c1();
    submit(&mut app, "solo");
    app.recall_prev_queued();
    assert_eq!(app.textarea_content(), "solo");
    assert_eq!(app.editing_queued_index(), Some(0));

    app.cancel_queued_edit_if_active(); // Esc while editing a queued item
    assert!(app.textarea_content().is_empty());
    assert_eq!(app.editing_queued_index(), None);
    assert_eq!(app.queued_messages_for_view(), &["solo".to_string()]);
}

#[test]
fn cancel_queued_edit_is_a_no_op_when_not_editing() {
    let mut app = app_streaming_on_c1();
    submit(&mut app, "queued");
    app.cancel_queued_edit_if_active();
    assert_eq!(app.queued_messages_for_view(), &["queued".to_string()]);
    assert_eq!(app.editing_queued_index(), None);
}

#[test]
fn idle_send_emits_send_without_a_composer_effect() {
    let mut app = Window::new();
    app.load_conversation(detail("c1"));
    let effects = submit(&mut app, "just send it");
    assert_eq!(sent_prompt(&effects).as_deref(), Some("just send it"));
    assert_eq!(
        app.textarea_content(),
        "just send it",
        "apply_core does not clear the composer on the idle-send path"
    );
}

#[test]
fn paste_then_submit_sends_one_prompt_containing_the_newlines() {
    let mut app = Window::new();
    app.load_conversation(ConversationDetail {
        id: "c1".into(),
        title: "Test".into(),
        messages: vec![],
        model_selection: None,
        conversation_personality: None,
    });
    app.enter_editing_mode();
    app.apply_paste("first\nsecond\nthird");
    let prompt = app.textarea_content();
    let effects = app.apply_core(UiMessage::SubmitPrompt { prompt });
    assert_eq!(
        sent_prompt(&effects).expect("an accepted send emits SendPrompt"),
        "first\nsecond\nthird"
    );
    let msgs = &app.current_conversation().unwrap().messages;
    assert_eq!(msgs.len(), 1, "exactly one user message appended");
}

#[test]
fn apply_core_finalizes_an_open_streams_reply_into_the_transcript() {
    let mut app = Window::new();
    app.load_conversation(detail("c1"));
    app.apply_prompt_ack("task-abc".into(), "c1".into());

    app.apply_core(UiMessage::StreamChunk {
        request_id: "server-xyz".into(),
        chunk: "Hello ".into(),
    });
    app.apply_core(UiMessage::StreamChunk {
        request_id: "server-xyz".into(),
        chunk: "world!".into(),
    });
    assert_eq!(
        app.streaming_buffer(),
        "Hello world!",
        "the partial buffers live"
    );

    app.apply_core(UiMessage::StreamComplete {
        request_id: "server-xyz".into(),
        full_response: "Hello world!".into(),
    });

    assert!(!app.is_streaming(), "the slot clears on completion");
    assert_eq!(app.streaming_buffer(), "", "the live partial is gone");
    let msgs = &app.current_conversation().unwrap().messages;
    assert_eq!(msgs.len(), 1);
    assert_eq!(msgs[0].role, "assistant");
    assert_eq!(msgs[0].content, "Hello world!");
}

#[test]
fn apply_core_does_not_bleed_a_backgrounded_completion_into_the_open_chat() {
    let mut app = Window::new();
    app.load_conversation(detail("c1"));
    app.apply_prompt_ack("task-1".into(), "c1".into());
    app.apply_core(UiMessage::StreamChunk {
        request_id: "req-1".into(),
        chunk: "partial ".into(),
    });

    app.load_conversation(detail("c2")); // switch away mid-stream

    let controller = app.apply_core(UiMessage::StreamComplete {
        request_id: "req-1".into(),
        full_response: "done".into(),
    });
    assert!(
        controller.is_empty(),
        "a backgrounded completion emits no controller effect (no narration)"
    );
    assert!(
        app.current_conversation().unwrap().messages.is_empty(),
        "the reply must not bleed into the switched-to conversation"
    );
    assert!(!app.is_streaming(), "the slot still clears");
}

#[test]
fn backgrounded_stream_chunks_do_not_reset_the_open_conversations_scroll() {
    let mut app = Window::new();
    app.load_conversation(detail("c1"));
    app.apply_prompt_ack("task-1".into(), "c1".into());
    app.load_conversation(detail("c2"));
    app.scroll_up(7);

    app.apply_core(UiMessage::StreamChunk {
        request_id: "req-1".into(),
        chunk: "background chunk".into(),
    });

    assert_eq!(
        app.scroll_offset, 7,
        "scroll is untouched by a backgrounded chunk"
    );
    assert!(
        !app.streaming_is_active_for_view(),
        "and it is not painted into the open chat"
    );
}

#[test]
fn clear_streaming_state_resets_everything_on_disconnect() {
    let mut app = Window::new();
    app.load_conversation(detail("c1"));
    app.apply_prompt_ack("task-1".into(), "c1".into());
    app.apply_core(UiMessage::StreamChunk {
        request_id: "req-1".into(),
        chunk: "now-dead partial".into(),
    });
    app.set_assistant_status("Calling tool…");

    app.clear_streaming_state();

    assert!(!app.is_streaming());
    assert_eq!(app.streaming_buffer(), "");
    assert!(app.assistant_status.is_none());
}

#[test]
fn cleared_sentinel_cannot_misclaim_the_next_stream() {
    let mut app = Window::new();
    app.load_conversation(detail("c1"));
    app.apply_prompt_ack("task-1".into(), "c1".into()); // sentinel armed
    app.clear_streaming_state();

    app.apply_core(UiMessage::StreamChunk {
        request_id: "post-reconnect-req".into(),
        chunk: "someone else's chunk".into(),
    });
    assert_eq!(app.streaming_buffer(), "", "chunk must be ignored");
    assert!(!app.is_streaming());
}

#[test]
fn streaming_error_surfaces_in_the_status_line() {
    let mut app = Window::new();
    app.load_conversation(detail("c1"));
    app.apply_prompt_ack("task-1".into(), "c1".into());
    app.apply_core(UiMessage::StreamChunk {
        request_id: "req1".into(),
        chunk: "half a thought".into(),
    });
    app.set_assistant_status("Calling tool…");

    app.apply_core(UiMessage::StreamError {
        request_id: "req1".into(),
        error: "LLM timeout".into(),
    });

    assert_eq!(app.status_message, "Error: LLM timeout");
    assert!(
        app.assistant_status.is_none(),
        "the transient status clears"
    );
    assert!(!app.is_streaming());
    assert_eq!(app.streaming_buffer(), "");
}

#[test]
fn external_user_message_renders_and_adopts_into_the_open_conversation() {
    let mut app = app_with_open_conversation("c1");

    let controller = app.apply_core(UiMessage::UserMessageAdded {
        conversation_id: "c1".into(),
        request_id: "voice-req".into(),
        content: "what's the weather?".into(),
    });
    assert!(
        controller.is_empty(),
        "rendering the bubble needs no controller effect"
    );

    let msgs = &app.current_conversation().unwrap().messages;
    assert_eq!(msgs.len(), 1, "the external user message must be rendered");
    assert_eq!(msgs[0].role, "user");
    assert_eq!(msgs[0].content, "what's the weather?");

    app.apply_core(UiMessage::StreamChunk {
        request_id: "voice-req".into(),
        chunk: "Sunny.".into(),
    });
    assert_eq!(app.streaming_buffer(), "Sunny.");
    assert!(app.streaming_is_active_for_view());
}

#[test]
fn adopted_external_turn_is_not_narrated_by_this_client() {
    let mut app = app_with_open_conversation("c1");
    app.set_adele_output("c1", AdeleOutput::Always);
    assert!(
        app.narrate_for("c1"),
        "precondition: the level alone would narrate"
    );

    app.apply_core(UiMessage::UserMessageAdded {
        conversation_id: "c1".into(),
        request_id: "voice-req".into(),
        content: "a question".into(),
    });
    let controller = app.apply_core(UiMessage::StreamComplete {
        request_id: "voice-req".into(),
        full_response: "the spoken answer".into(),
    });

    assert!(
        !controller.iter().any(|e| matches!(e, Effect::Speak(_))),
        "an external turn must not be narrated here: {controller:?}"
    );
}

#[test]
fn own_narrating_turn_completion_returns_a_speak_effect() {
    let mut app = app_with_open_conversation("c1");
    app.set_adele_output("c1", AdeleOutput::Always);
    app.apply_prompt_ack("task-1".into(), "c1".into());
    app.apply_core(UiMessage::StreamChunk {
        request_id: "req1".into(),
        chunk: "hi".into(),
    });

    let controller = app.apply_core(UiMessage::StreamComplete {
        request_id: "req1".into(),
        full_response: "the spoken answer".into(),
    });

    assert!(
        controller
            .iter()
            .any(|e| matches!(e, Effect::Speak(text) if text == "the spoken answer")),
        "an own narrating turn must bubble up a Speak effect: {controller:?}"
    );
}

#[test]
fn assistant_status_set_and_cleared_through_apply_core() {
    let mut app = Window::new();
    app.load_conversation(detail("c1"));
    app.apply_prompt_ack("task-1".into(), "c1".into());
    app.apply_core(UiMessage::AssistantStatus {
        request_id: "req1".into(),
        message: "Searching knowledge base...".into(),
    });
    assert_eq!(
        app.assistant_status.as_deref(),
        Some("Searching knowledge base...")
    );

    app.apply_core(UiMessage::StreamComplete {
        request_id: "req1".into(),
        full_response: "done".into(),
    });
    assert!(app.assistant_status.is_none());
}

#[test]
fn receive_chunk_at_bottom_keeps_following() {
    let mut app = Window::new();
    app.load_conversation(detail("c1"));
    app.apply_prompt_ack("task1".into(), "c1".into());
    app.apply_core(UiMessage::StreamChunk {
        request_id: "req1".into(),
        chunk: "data".into(),
    });
    assert_eq!(app.scroll_offset, 0);
}

#[test]
fn receive_chunk_while_scrolled_up_preserves_position() {
    let mut app = Window::new();
    app.load_conversation(detail("c1"));
    app.apply_prompt_ack("task1".into(), "c1".into());
    app.scroll_up(10);
    app.apply_core(UiMessage::StreamChunk {
        request_id: "req1".into(),
        chunk: "data".into(),
    });
    assert_eq!(app.scroll_offset, 10);
    assert_eq!(app.streaming_buffer(), "data", "chunk still buffered");
}

#[test]
fn backgrounded_turn_completion_is_not_narrated_into_the_open_conversation() {
    let mut app = app_with_open_conversation("c1");
    app.set_adele_output("c1", AdeleOutput::Always);
    app.apply_prompt_ack("task-1".into(), "c1".into());
    app.apply_core(UiMessage::StreamChunk {
        request_id: "req-1".into(),
        chunk: "partial".into(),
    });
    app.load_conversation(detail("c2")); // switch away mid-stream

    let controller = app.apply_core(UiMessage::StreamComplete {
        request_id: "req-1".into(),
        full_response: "spoken reply".into(),
    });

    assert!(
        !controller.iter().any(|e| matches!(e, Effect::Speak(_))),
        "a backgrounded turn must not be narrated into the open chat: {controller:?}"
    );
    assert!(
        app.current_conversation().unwrap().messages.is_empty(),
        "and it must not append to the open (c2) transcript"
    );
    assert!(app.narrate_for("c1"), "origin's gate still holds");
    assert!(!app.narrate_for("c2"), "open conversation stays silent");
}

fn press(code: KeyCode) -> KeyEvent {
    KeyEvent {
        code,
        modifiers: KeyModifiers {
            shift: false,
            control: false,
            alt: false,
            meta: false,
            super_key: false,
            hyper: false,
        },
        kind: KeyEventKind::Press,
    }
}

fn strike(app: &mut Window, code: KeyCode) {
    match handle_key(&mut app.app, press(code)) {
        KeyStep::Tell(told) => {
            app.apply_core(told);
        }
        KeyStep::Act(action) => {
            if let Request::Reduce(told) = handle_action(&mut app.app, false, false, action) {
                app.apply_core(told);
            }
        }
        _ => {}
    }
}

#[test]
fn up_and_down_walk_the_queue_from_an_empty_composer() {
    let mut app = app_streaming_on_c1();
    submit(&mut app, "alpha");
    submit(&mut app, "bravo");
    app.enter_editing_mode();
    strike(&mut app, KeyCode::Down);
    assert_eq!(app.editing_queued_index(), None);
    strike(&mut app, KeyCode::Up);
    assert_eq!(app.textarea_content(), "bravo");
    strike(&mut app, KeyCode::Up);
    assert_eq!(app.textarea_content(), "alpha");
    strike(&mut app, KeyCode::Up);
    assert_eq!(app.textarea_content(), "alpha");
    strike(&mut app, KeyCode::Down);
    assert_eq!(app.textarea_content(), "bravo");
    strike(&mut app, KeyCode::Down);
    assert_eq!(app.textarea_content(), "");
    assert_eq!(app.editing_queued_index(), None);
    assert_eq!(app.queued_messages_for_view(), &["alpha".to_string(), "bravo".to_string()]);
}

#[test]
fn up_stays_in_a_composer_that_holds_text() {
    let mut app = app_streaming_on_c1();
    submit(&mut app, "alpha");
    app.enter_editing_mode();
    app.textarea.insert_str("one\ntwo");
    assert!(!app.recalls_queued());
    strike(&mut app, KeyCode::Up);
    assert_eq!(app.textarea_content(), "one\ntwo");
    assert_eq!(app.textarea.cursor().0, 0);
    assert_eq!(app.editing_queued_index(), None);
}

#[test]
fn leaving_edit_mode_puts_the_message_in_hand_back() {
    let mut app = app_streaming_on_c1();
    submit(&mut app, "alpha");
    submit(&mut app, "bravo");
    app.enter_editing_mode();
    strike(&mut app, KeyCode::Up);
    assert_eq!(app.queued_messages_for_view().len(), 1);
    strike(&mut app, KeyCode::Esc);
    assert!(app.mode == InputMode::Normal);
    assert_eq!(app.editing_queued_index(), None);
    assert_eq!(app.textarea_content(), "");
    assert_eq!(app.queued_messages_for_view(), &["alpha".to_string(), "bravo".to_string()]);
}

#[test]
fn leaving_edit_mode_keeps_an_unsent_text() {
    let mut app = app_with_open_conversation("c1");
    app.enter_editing_mode();
    app.textarea.insert_str("draft");
    strike(&mut app, KeyCode::Esc);
    assert!(app.mode == InputMode::Normal);
    assert_eq!(app.textarea_content(), "draft");
}
