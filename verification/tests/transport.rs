use adele::api::{Command, CommandResult, ConversationModelSelectionView, SendPromptOverride};
use adele::connections::ConnectionConfigView;
use adele::credentials::{
    account_key, delete, deleted, keyring_disabled, retrieve, store, CredentialKind, DeleteReply,
};
use adele::transport::{
    connect_transport, routed, transport_label, ConnectionConfig, TransportMode,
};
use adele::ws_client::{
    authorization, closed, command_outcome, deliver, disconnect_error, expect_ack,
    expect_connections, expect_conversation, expect_conversation_id, expect_conversations,
    expect_models, expect_purposes, expect_sent, list_conversations,
    list_conversations_with_archived, map_event_to_signal, send_prompt, uses_tls, Config,
    ConversationWarning, Delivery, EmbeddingsSettingsView, Event, Pending,
    PersistenceSettingsView, SignalEvent, Waited, WsFrame, archive_conversation,
    create_connection, create_conversation, delete_connection, delete_conversation,
    get_conversation, get_purposes, list_available_models, list_connections,
    rename_conversation, set_purpose, unarchive_conversation, update_connection,
};

#[test]
fn account_key_includes_kind_and_profile_id() {
    let k = account_key("abc-123", CredentialKind::Password);
    assert_eq!(k, "password::abc-123");
    let k = account_key("abc-123", CredentialKind::Jwt);
    assert_eq!(k, "jwt::abc-123");
    let k = account_key("abc-123", CredentialKind::OauthRefresh);
    assert_eq!(k, "oauth_refresh::abc-123");
}

#[test]
fn keyring_disabled_returns_true_when_env_set() {
    assert!(keyring_disabled(Some("1")));
    assert!(keyring_disabled(Some("true")));
    assert!(keyring_disabled(Some("yes")));
    assert!(!keyring_disabled(Some("0")));
    assert!(!keyring_disabled(None));
}

#[test]
fn store_returns_error_when_disabled() {
    assert!(store(Some("1"), "test-id", CredentialKind::Password).is_err());
    assert!(retrieve(Some("1"), "test-id", CredentialKind::Password).is_err());
    let entry = store(None, "test-id", CredentialKind::Password).unwrap();
    assert_eq!(entry.service, "adele-tui");
    assert_eq!(entry.account, "password::test-id");
    assert_eq!(
        retrieve(None, "test-id", CredentialKind::Password).unwrap(),
        entry
    );
}

#[test]
fn delete_is_noop_when_disabled() {
    assert!(delete(Some("1"), "test-id", CredentialKind::Password).is_none());
    assert!(delete(None, "test-id", CredentialKind::Password).is_some());
}

#[test]
fn a_missing_entry_counts_as_deleted() {
    assert!(deleted(DeleteReply::Missing).is_ok());
    assert!(deleted(DeleteReply::Deleted).is_ok());
    assert_eq!(
        deleted(DeleteReply::Failed("locked".into())),
        Err("locked".to_string())
    );
}

fn over(mode: TransportMode) -> ConnectionConfig {
    ConnectionConfig {
        transport_mode: mode,
        ws_url: "wss://host/ws".into(),
        tls_ca_cert: None,
    }
}

#[test]
fn labels_name_the_transport() {
    assert_eq!(transport_label(&over(TransportMode::Dbus)), "Connected via D-Bus");
    assert_eq!(
        transport_label(&over(TransportMode::Ws)),
        "Connected to wss://host/ws"
    );
    assert!(connect_transport(&over(TransportMode::Dbus), false).is_err());
    assert_eq!(
        connect_transport(&over(TransportMode::Dbus), true),
        Ok(TransportMode::Dbus)
    );
    assert_eq!(
        connect_transport(&over(TransportMode::Ws), false),
        Ok(TransportMode::Ws)
    );
}

fn pinned() -> Command {
    Command::SendMessage {
        conversation_id: "c1".into(),
        content: "hi".into(),
        override_selection: Some(SendPromptOverride {
            connection_id: "work".into(),
            model_id: "gpt-5".into(),
            effort: None,
        }),
    }
}

#[test]
fn dbus_carries_no_connections_and_no_pinned_model() {
    match routed(TransportMode::Dbus, Command::ListConnections) {
        Err(e) => assert_eq!(
            e,
            "list_connections is not supported over D-Bus — connect with --transport=ws to manage connections"
        ),
        Ok(_) => panic!("carried"),
    }
    assert!(routed(TransportMode::Ws, Command::ListConnections).is_ok());
    assert!(routed(TransportMode::Dbus, Command::GetPurposes).is_err());
    match routed(TransportMode::Dbus, pinned()) {
        Ok(Command::SendMessage { override_selection, content, .. }) => {
            assert_eq!(override_selection, None);
            assert_eq!(content, "hi");
        }
        _ => panic!("not carried"),
    }
    match routed(TransportMode::Ws, pinned()) {
        Ok(Command::SendMessage { override_selection, .. }) => {
            assert!(override_selection.is_some());
        }
        _ => panic!("not carried"),
    }
}

#[test]
fn maps_stream_events_to_signal_events() {
    let delta = map_event_to_signal(Event::AssistantDelta {
        conversation_id: "c1".to_string(),
        request_id: "r1".to_string(),
        chunk: "he".to_string(),
    });
    assert!(matches!(delta, Some(SignalEvent::Chunk { .. })));

    let complete = map_event_to_signal(Event::AssistantCompleted {
        conversation_id: "c1".to_string(),
        request_id: "r1".to_string(),
        full_response: "hello".to_string(),
    });
    assert!(matches!(complete, Some(SignalEvent::Complete { .. })));

    let error = map_event_to_signal(Event::AssistantError {
        conversation_id: "c1".to_string(),
        request_id: "r1".to_string(),
        error: "oops".to_string(),
    });
    assert!(matches!(error, Some(SignalEvent::Error { .. })));
}

#[test]
fn maps_title_changed_event() {
    let event = map_event_to_signal(Event::ConversationTitleChanged {
        conversation_id: "c1".to_string(),
        title: "New Title".to_string(),
    });
    assert!(matches!(event, Some(SignalEvent::TitleChanged { .. })));
}

#[test]
fn maps_conversation_warning_event() {
    let event = map_event_to_signal(Event::ConversationWarningEmitted {
        conversation_id: "c1".to_string(),
        warning: ConversationWarning::DanglingModelSelection {
            previous_selection: ConversationModelSelectionView {
                connection_id: "old".into(),
                model_id: "gone".into(),
                effort: None,
            },
            fallback_to: ConversationModelSelectionView {
                connection_id: "work".into(),
                model_id: "gpt-5".into(),
                effort: None,
            },
        },
    });
    assert!(matches!(event, Some(SignalEvent::ConversationWarning { .. })));
}

#[test]
fn ignores_config_changed_event() {
    let event = map_event_to_signal(Event::ConfigChanged {
        config: Config {
            embeddings: EmbeddingsSettingsView {
                connector: "openai".to_string(),
                model: "text-embedding-3-small".to_string(),
                base_url: "https://api.openai.com/v1".to_string(),
                has_api_key: true,
                available: true,
                is_default: true,
            },
            persistence: PersistenceSettingsView {
                enabled: false,
                remote_url: String::new(),
                remote_name: "origin".to_string(),
                push_on_update: true,
            },
        },
    });
    assert!(event.is_none());
}

#[test]
fn status_events_are_passed_on() {
    assert_eq!(
        map_event_to_signal(Event::AssistantStatus {
            conversation_id: "c1".into(),
            request_id: "r1".into(),
            message: "thinking".into(),
        }),
        Some(SignalEvent::Status {
            request_id: "r1".into(),
            message: "thinking".into(),
        })
    );
}

#[test]
fn replies_reach_the_one_who_waits() {
    let mut pending: Pending<u32> = Pending::new();
    pending.insert("one".into(), 1);
    pending.insert("two".into(), 2);
    match deliver(
        &mut pending,
        WsFrame::Result {
            id: "two".into(),
            result: CommandResult::Ack,
        },
    ) {
        Delivery::Answer { to, answer } => {
            assert_eq!(to, 2);
            assert!(answer.is_ok());
        }
        _ => panic!("dropped"),
    }
    assert!(matches!(
        deliver(
            &mut pending,
            WsFrame::Error {
                id: "two".into(),
                error: "late".into(),
            }
        ),
        Delivery::Dropped
    ));
    pending.insert("three".into(), 3);
    let (signal, waiting) = closed(&mut pending);
    assert_eq!(
        signal,
        SignalEvent::Disconnected {
            reason: "WebSocket connection closed".into(),
        }
    );
    assert_eq!(waiting, vec![1, 3]);
    assert!(pending.remove("one").is_none());
    assert_eq!(disconnect_error(), "websocket disconnected");
}

#[test]
fn events_are_signals() {
    let mut pending: Pending<u32> = Pending::new();
    let event = Event::ConversationTitleChanged {
        conversation_id: "c1".into(),
        title: "T".into(),
    };
    assert!(matches!(
        deliver(&mut pending, WsFrame::Event { event }),
        Delivery::Signal(SignalEvent::TitleChanged { .. })
    ));
}

#[test]
fn waiting_ends_in_a_reply_or_an_error() {
    assert_eq!(
        command_outcome(Waited::NotSent).err().unwrap(),
        "failed to send websocket request"
    );
    assert_eq!(
        command_outcome(Waited::Closed).err().unwrap(),
        "websocket response channel closed"
    );
    assert!(command_outcome(Waited::Answered(Ok(CommandResult::Ack))).is_ok());
}

#[test]
fn replies_of_the_wrong_kind_are_errors() {
    assert!(expect_ack(CommandResult::Ack, "archive_conversation").is_ok());
    assert_eq!(
        expect_ack(CommandResult::Models(Vec::new()), "archive_conversation"),
        Err("unexpected websocket response for archive_conversation".to_string())
    );
    assert_eq!(expect_sent(CommandResult::Ack), Ok(String::new()));
    assert_eq!(
        expect_sent(CommandResult::Purposes("{}".into())),
        Err("unexpected websocket response for send_prompt".to_string())
    );
    assert_eq!(
        expect_conversations(CommandResult::Ack),
        Err("unexpected websocket response for list_conversations".to_string())
    );
    assert_eq!(
        expect_conversation(CommandResult::Ack),
        Err("unexpected websocket response for get_conversation".to_string())
    );
    assert_eq!(
        expect_conversation_id(CommandResult::ConversationId { id: "c9".into() }),
        Ok("c9".to_string())
    );
    assert!(expect_conversation_id(CommandResult::Ack).is_err());
    assert!(expect_connections(CommandResult::Ack).is_err());
    assert!(expect_models(CommandResult::Ack).is_err());
    assert!(expect_purposes(CommandResult::Ack).is_err());
}

#[test]
fn requests_say_what_they_ask_for() {
    assert!(matches!(
        list_conversations(),
        Command::ListConversations {
            include_archived: false
        }
    ));
    assert!(matches!(
        list_conversations_with_archived(),
        Command::ListConversations {
            include_archived: true
        }
    ));
    match send_prompt("c1", "hello") {
        Command::SendMessage { conversation_id, content, override_selection } => {
            assert_eq!(conversation_id, "c1");
            assert_eq!(content, "hello");
            assert_eq!(override_selection, None);
        }
        _ => panic!("not a prompt"),
    }
    assert!(uses_tls("wss://127.0.0.1:11339/ws"));
    assert!(!uses_tls("ws://127.0.0.1/ws"));
    assert!(!uses_tls("ws"));
    assert_eq!(authorization("tok"), "Bearer tok");
}

fn ollama(url: &str) -> ConnectionConfigView {
    ConnectionConfigView::Ollama {
        base_url: Some(url.to_string()),
        connect_timeout_secs: None,
        stream_timeout_secs: None,
        keep_warm: None,
        max_context_tokens: None,
    }
}

#[test]
fn requests_carry_their_arguments() {
    assert!(matches!(get_conversation("c1"), Command::GetConversation { id } if id == "c1"));
    assert!(matches!(
        create_conversation("t"),
        Command::CreateConversation { title } if title == "t"
    ));
    assert!(matches!(delete_conversation("c1"), Command::DeleteConversation { id } if id == "c1"));
    assert!(matches!(
        rename_conversation("c1", "new"),
        Command::RenameConversation { id, title } if id == "c1" && title == "new"
    ));
    assert!(matches!(archive_conversation("c1"), Command::ArchiveConversation { id } if id == "c1"));
    assert!(matches!(
        unarchive_conversation("c1"),
        Command::UnarchiveConversation { id } if id == "c1"
    ));
    assert!(matches!(list_connections(), Command::ListConnections));
    assert!(matches!(
        create_connection("local", ollama("u")),
        Command::CreateConnection { id, config } if id == "local" && config == ollama("u")
    ));
    assert!(matches!(
        update_connection("local", ollama("v")),
        Command::UpdateConnection { id, config } if id == "local" && config == ollama("v")
    ));
    assert!(matches!(
        delete_connection("local", true),
        Command::DeleteConnection { id, force: true } if id == "local"
    ));
    assert!(matches!(
        list_available_models(Some("local"), true),
        Command::ListAvailableModels { connection_id: Some(id), refresh: true } if id == "local"
    ));
    assert!(matches!(
        list_available_models(None, false),
        Command::ListAvailableModels { connection_id: None, refresh: false }
    ));
    assert!(matches!(get_purposes(), Command::GetPurposes));
    assert!(matches!(
        set_purpose("chat", "{}"),
        Command::SetPurpose { purpose, config_json } if purpose == "chat" && config_json == "{}"
    ));
}
