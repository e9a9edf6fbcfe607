use adele::api::ConversationDetail;
use adele::app::App;
use adele::builtins::{builtin_dtos, builtin_servers, disabled_reason, BuiltinSet, BuiltinStatus};
use adele::cli::{
    any_explicit_connection_arg, choose_logging, connection_args, exec_prompt, first_connection,
    log_filter, CliTransportMode, ConnectionConfig, FirstConnection, Global, Logging,
    TransportMode, ValueSource, DEFAULT_WS_SUBJECT, DEFAULT_WS_URL,
};
use adele::mcp_screen::{draw_list, FormState, Mode, State};
use adele::run::{
    next_backoff, open_conversation_ids, schedule_reconnect, ReconnectState,
    RECONNECT_INITIAL_SECS, RECONNECT_MAX_SECS,
};

fn no_flags() -> Global {
    Global {
        transport: CliTransportMode::Local,
        socket: None,
        ws: None,
        ws_url: DEFAULT_WS_URL.into(),
        ws_subject: DEFAULT_WS_SUBJECT.into(),
        ws_jwt: None,
        ws_login_username: None,
        ws_login_password: None,
    }
}

#[test]
fn log_filter_scales_level_with_verbosity_and_quiets_third_party() {
    assert!(
        log_filter(0).contains("adele=warn"),
        "no -v => our crates stay at warn"
    );
    assert!(log_filter(1).contains("adele=info"), "one -v => info");
    assert!(log_filter(2).contains("adele=debug"), "two -v => debug");
    assert!(log_filter(3).contains("adele=trace"), "three -v => trace");
    assert!(log_filter(9).contains("adele=trace"), "saturates at trace");
    assert!(log_filter(2).contains("desktop_assistant_client_common=debug"));
    assert!(
        log_filter(3).starts_with("warn,"),
        "base directive keeps third-party at warn"
    );
}

#[test]
fn clap_default_with_no_flags_is_local_uds() {
    let config = ConnectionConfig::from(no_flags());
    assert_eq!(config.transport_mode, TransportMode::Uds);
    assert_eq!(config.socket_path, None);
    assert_eq!(config.ws_subject, DEFAULT_WS_SUBJECT);
    assert_eq!(config.ws_jwt, None);
    assert_eq!(config.ws_login_username, None);
    assert_eq!(config.ws_login_password, None);
}

#[test]
fn socket_flag_without_value_selects_uds_default_path() {
    let config = ConnectionConfig::from(Global {
        socket: Some(None),
        ..no_flags()
    });
    assert_eq!(config.transport_mode, TransportMode::Uds);
    assert_eq!(config.socket_path, None);
}

#[test]
fn socket_flag_with_path_sets_socket_path() {
    let config = ConnectionConfig::from(Global {
        socket: Some(Some("/tmp/custom.sock".into())),
        ..no_flags()
    });
    assert_eq!(config.transport_mode, TransportMode::Uds);
    assert_eq!(config.socket_path, Some("/tmp/custom.sock".to_string()));
}

#[test]
fn ws_flag_with_url_selects_websocket() {
    let config = ConnectionConfig::from(Global {
        ws: Some(Some("wss://host/ws".into())),
        ..no_flags()
    });
    assert_eq!(config.transport_mode, TransportMode::Ws);
    assert_eq!(config.ws_url, "wss://host/ws");
    assert_eq!(config.socket_path, None);
}

#[test]
fn ws_flag_without_value_falls_back_to_default_ws_url() {
    let config = ConnectionConfig::from(Global {
        ws: Some(None),
        ..no_flags()
    });
    assert_eq!(config.transport_mode, TransportMode::Ws);
    assert_eq!(config.ws_url, DEFAULT_WS_URL);
}

#[test]
fn dbus_transport_still_selectable() {
    let config = ConnectionConfig::from(Global {
        transport: CliTransportMode::Dbus,
        ..no_flags()
    });
    assert_eq!(config.transport_mode, TransportMode::Dbus);
}

#[test]
fn transport_ws_with_ws_url_still_works() {
    let config = ConnectionConfig::from(Global {
        transport: CliTransportMode::Ws,
        ws_url: "wss://h/ws".into(),
        ..no_flags()
    });
    assert_eq!(config.transport_mode, TransportMode::Ws);
    assert_eq!(config.ws_url, "wss://h/ws");
}

#[test]
fn blank_values_fall_back_to_the_defaults() {
    let config = ConnectionConfig::from(Global {
        ws: Some(Some("  ".into())),
        ws_url: " ".into(),
        ws_subject: "\t".into(),
        ..no_flags()
    });
    assert_eq!(config.ws_url, DEFAULT_WS_URL);
    assert_eq!(config.ws_subject, DEFAULT_WS_SUBJECT);
}

#[test]
fn exec_comes_before_the_prompt_flag() {
    assert_eq!(
        exec_prompt(Some("a".into()), Some("b".into())),
        Some("a".to_string())
    );
    assert_eq!(exec_prompt(None, Some("b".into())), Some("b".to_string()));
    assert_eq!(exec_prompt(None, None), None);
}

#[test]
fn explicit_flags_skip_the_picker() {
    assert_eq!(connection_args().len(), 5);
    assert!(!any_explicit_connection_arg(&vec![
        None,
        Some(ValueSource::DefaultValue)
    ]));
    assert!(any_explicit_connection_arg(&vec![
        None,
        Some(ValueSource::CommandLine)
    ]));
    assert_eq!(
        matches!(first_connection(false, true), FirstConnection::FromPicker),
        true
    );
    assert!(matches!(
        first_connection(true, true),
        FirstConnection::FromCommandLine
    ));
    assert!(matches!(
        first_connection(false, false),
        FirstConnection::FromCommandLine
    ));
}

#[test]
fn logging_is_silent_unless_asked_for() {
    assert!(matches!(choose_logging(0, false), Logging::Silent));
    assert!(matches!(choose_logging(2, true), Logging::FromEnvironment));
    match choose_logging(1, false) {
        Logging::Filter(filter) => assert_eq!(filter, log_filter(1)),
        _ => panic!("no filter"),
    }
}

#[test]
fn next_backoff_doubles_until_cap() {
    assert_eq!(next_backoff(2), 4);
    assert_eq!(next_backoff(4), 8);
    assert_eq!(next_backoff(8), 16);
    assert_eq!(next_backoff(16), 30);
}

#[test]
fn next_backoff_caps_at_30() {
    assert_eq!(next_backoff(30), 30);
    assert_eq!(next_backoff(60), 30);
    assert_eq!(next_backoff(u64::MAX), RECONNECT_MAX_SECS);
}

#[test]
fn schedule_reconnect_starts_at_initial_when_no_prev() {
    let s = schedule_reconnect(None);
    match s {
        ReconnectState::Pending { delay_secs } => {
            assert_eq!(delay_secs, RECONNECT_INITIAL_SECS);
        }
        _ => panic!("expected Pending"),
    }
}

#[test]
fn schedule_reconnect_doubles_from_prev() {
    let s = schedule_reconnect(Some(4));
    match s {
        ReconnectState::Pending { delay_secs } => assert_eq!(delay_secs, 8),
        _ => panic!("expected Pending"),
    }
}

fn detail(id: &str) -> ConversationDetail {
    ConversationDetail {
        id: id.into(),
        title: format!("Conv {id}"),
        messages: vec![],
        model_selection: None,
        conversation_personality: None,
    }
}

#[test]
fn open_conversation_ids_is_empty_with_nothing_open() {
    let app = App::new();
    assert!(app.current_conversation().is_none());
    assert!(open_conversation_ids(&app).is_empty());
}

#[test]
fn open_conversation_ids_is_the_single_open_conversation() {
    let mut app = App::new();
    app.load_conversation(detail("conv-42"));
    assert_eq!(open_conversation_ids(&app), vec!["conv-42".to_string()]);
}

#[test]
fn open_conversation_ids_follows_a_switch() {
    let mut app = App::new();
    app.load_conversation(detail("conv-1"));
    assert_eq!(open_conversation_ids(&app), vec!["conv-1".to_string()]);
    app.load_conversation(detail("conv-2"));
    assert_eq!(open_conversation_ids(&app), vec!["conv-2".to_string()]);
}

fn full_set() -> BuiltinSet {
    BuiltinSet {
        fileio: true,
        terminal: true,
        tasks: true,
        web: true,
        weather: true,
        internet_radio: true,
        openstreetmap: true,
        geocode: true,
        skills: true,
    }
}

#[test]
fn fileio_builtin_present_and_namespaced_in_full_set() {
    let servers = builtin_servers(full_set());
    let fileio = servers
        .iter()
        .find(|s| s.name == "fileio")
        .expect("fileio built-in must be present in the compiled set");
    assert_eq!(
        fileio.namespace, "fileio",
        "fileio built-in must be advertised under the 'fileio' namespace"
    );
}

#[test]
fn builtin_extras_present_and_namespaced_in_full_set() {
    let servers = builtin_servers(full_set());
    for name in [
        "weather-forecast",
        "internet-radio",
        "openstreetmap",
        "geocode",
        "skills",
    ] {
        let server = servers.iter().find(|s| s.name == name).unwrap_or_else(|| {
            panic!("broad-set built-in {name:?} must be present under the extras build")
        });
        assert_eq!(
            server.namespace, name,
            "broad-set built-in {name:?} must be advertised under the {name:?} namespace"
        );
    }
}

#[test]
fn servers_that_are_left_out_are_not_listed() {
    let none = BuiltinSet {
        fileio: false,
        terminal: true,
        tasks: false,
        web: false,
        weather: false,
        internet_radio: false,
        openstreetmap: false,
        geocode: false,
        skills: false,
    };
    let names: Vec<&str> = builtin_servers(none).iter().map(|s| s.name).collect();
    assert_eq!(names, vec!["terminal"]);
}

fn panel_rows(status: Vec<BuiltinStatus>) -> Vec<String> {
    let state = State {
        servers: Vec::new(),
        accounts: Vec::new(),
        builtins: builtin_dtos(status),
        selected: 0,
        mode: Mode::List,
        form: FormState::blank(),
        error: None,
        notice: None,
        busy: None,
        closing: false,
    };
    draw_list(&state)
        .items
        .iter()
        .map(|item| {
            item.iter()
                .flat_map(|line| line.iter().map(|span| span.text.as_str()))
                .collect()
        })
        .collect()
}

#[test]
fn builtin_dtos_map_to_active_and_overridden_rows() {
    let status = || {
        vec![
            BuiltinStatus {
                name: "fileio".into(),
                namespace: "fileio".into(),
                tool_count: 7,
                overridden_by: None,
                disabled_by_config: false,
            },
            BuiltinStatus {
                name: "web".into(),
                namespace: "web".into(),
                tool_count: 3,
                overridden_by: Some("web".into()),
                disabled_by_config: false,
            },
        ]
    };

    let dtos = builtin_dtos(status());
    assert_eq!(dtos.len(), 2, "each status maps to exactly one dto");
    let fileio_dto = dtos
        .iter()
        .find(|d| d.name == "fileio")
        .expect("fileio dto present");
    assert_eq!(fileio_dto.tool_count, 7, "usize tool_count widens to u32");
    assert_eq!(fileio_dto.overridden_by, None);

    assert_eq!(disabled_reason(false, None), None);
    let rows = panel_rows(status());
    let fileio = rows
        .iter()
        .find(|r| r.contains("fileio"))
        .expect("fileio row present");
    assert!(fileio.contains("built-in"), "built-in rows say so: {fileio}");
    assert!(!fileio.contains("overridden"));

    let web = rows
        .iter()
        .find(|r| r.contains("web"))
        .expect("web row present");
    assert!(web.contains("built-in"));
    assert!(
        web.contains("overridden"),
        "reason explains the override: {web}"
    );
    assert!(
        web.contains("overridden by client-MCP 'web'"),
        "reason names the overriding server: {web}"
    );
}

#[test]
fn config_disabled_builtin_maps_to_disabled_row() {
    let status = || {
        vec![BuiltinStatus {
            name: "web".into(),
            namespace: "web".into(),
            tool_count: 3,
            overridden_by: Some("web".into()),
            disabled_by_config: true,
        }]
    };

    let dtos = builtin_dtos(status());
    assert!(
        dtos[0].disabled_by_config,
        "the config-disabled flag carries into the DTO"
    );

    let rows = panel_rows(status());
    let web = rows.iter().find(|r| r.contains("web")).expect("web row");
    let reason = disabled_reason(true, Some("web"))
        .expect("a config-disabled built-in renders disabled with a reason");
    assert!(
        reason.contains("config"),
        "the config-disable reason wins the display: {reason}"
    );
    assert!(web.contains(&reason));
}
