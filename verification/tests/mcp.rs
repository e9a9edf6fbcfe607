use adele::api::{Command, ServiceAccountView};
use adele::builtins::BuiltinServerDto;
use adele::keys::{KeyCode, KeyEvent, KeyEventKind, KeyModifiers};
use adele::mcp::{
    bearer_secret_ref, parse_env, sanitize, split_args, split_scopes, status_display,
    transport_chip, validate_name, McpAuthKind, McpForm, McpServerView, McpTransport, StatusTone,
};
use adele::mcp_screen::{
    after_secret, apply_outcome, draw_chip_line, draw_edit_form, draw_field, draw_list,
    draw_panel_status, fields_for, handle_key,
    mcp_secret_command, remove_question, server_item, signin_command, Field, FieldInput, FormState,
    Mode, Request, RpcOutcome, State,
};
use adele::view::{Line, ListView};

fn stdio(name: &str) -> McpForm {
    McpForm {
        name: name.into(),
        command: "fileio-mcp".into(),
        ..McpForm::blank(McpTransport::Stdio)
    }
}

fn http(name: &str) -> McpForm {
    McpForm {
        name: name.into(),
        url: "https://x.example/mcp".into(),
        ..McpForm::blank(McpTransport::Http)
    }
}

fn line_text(line: &Line) -> String {
    line.iter().map(|span| span.text.as_str()).collect()
}

fn list_text(v: &ListView) -> String {
    let mut text = v.title.clone();
    for item in &v.items {
        for line in item {
            text.push_str(&line_text(line));
        }
    }
    text
}

fn press(code: KeyCode) -> KeyEvent {
    KeyEvent {
        code,
        modifiers: KeyModifiers {
            shift: false,
            control: false,
            alt: false,
            meta: false,
            super_key: false,
            hyper: false,
        },
        kind: KeyEventKind::Press,
    }
}

fn ctrl(code: KeyCode) -> KeyEvent {
    let mut key = press(code);
    key.modifiers.control = true;
    key
}

#[test]
fn status_display_covers_all_six_states() {
    assert_eq!(status_display("running"), (StatusTone::Good, "Running"));
    assert_eq!(status_display("stopped"), (StatusTone::Neutral, "Stopped"));
    assert_eq!(status_display("disabled"), (StatusTone::Neutral, "Disabled"));
    assert_eq!(status_display("needs_auth"), (StatusTone::Warn, "Sign in required"));
    assert_eq!(status_display("auth_expired"), (StatusTone::Warn, "Sign in expired"));
    assert_eq!(status_display("error"), (StatusTone::Error, "Error"));
}

#[test]
fn status_display_unknown_is_neutral() {
    assert_eq!(status_display("teleporting"), (StatusTone::Neutral, "Unknown"));
    assert_eq!(status_display(""), (StatusTone::Neutral, "Unknown"));
}

#[test]
fn transport_chip_http_is_remote_else_local() {
    assert_eq!(transport_chip("http"), "remote");
    assert_eq!(transport_chip("stdio"), "local");
    assert_eq!(transport_chip("something-new"), "local");
}

#[test]
fn parse_env_reads_key_value_lines_in_order() {
    assert_eq!(
        parse_env("TOKEN=abc\nDEBUG=1"),
        vec![
            ("TOKEN".to_string(), "abc".to_string()),
            ("DEBUG".to_string(), "1".to_string()),
        ]
    );
}

#[test]
fn parse_env_skips_blank_and_malformed_lines() {
    assert_eq!(
        parse_env("\n  \nNOVALUE\n=novalue\nOK=1\n"),
        vec![("OK".to_string(), "1".to_string())]
    );
}

#[test]
fn parse_env_value_may_contain_equals() {
    assert_eq!(
        parse_env("QUERY=a=b=c"),
        vec![("QUERY".to_string(), "a=b=c".to_string())]
    );
}

#[test]
fn parse_env_trims_key_and_value() {
    assert_eq!(
        parse_env("  KEY = val \n"),
        vec![("KEY".to_string(), "val".to_string())]
    );
}

#[test]
fn split_args_splits_on_whitespace_runs() {
    assert_eq!(
        split_args("serve   --root  /data"),
        vec!["serve", "--root", "/data"]
    );
}

#[test]
fn split_args_empty_is_empty() {
    assert!(split_args("   ").is_empty());
    assert!(split_args("").is_empty());
}

#[test]
fn split_scopes_splits_on_whitespace_and_commas() {
    assert_eq!(split_scopes("a b,c ,  d"), vec!["a", "b", "c", "d"]);
    assert!(split_scopes("").is_empty());
}

#[test]
fn bearer_secret_ref_appends_token_suffix() {
    assert_eq!(bearer_secret_ref("gmail"), "gmail_token");
}

#[test]
fn sanitize_replaces_control_chars_with_space() {
    assert_eq!(sanitize("a\x1b[2Jb\nc\td"), "a [2Jb c d");
    assert_eq!(sanitize("plain-name_1"), "plain-name_1");
}

#[test]
fn secret_command_carries_name_and_value() {
    match mcp_secret_command("gmail_token".into(), "ya29.tok".into()) {
        Command::SetMcpSecret { id, value } => {
            assert_eq!(id, "gmail_token");
            assert_eq!(value.0, "ya29.tok");
        }
        _ => panic!("not a secret"),
    }
}

#[test]
fn build_stdio_emits_exact_config_json() {
    let form = McpForm {
        args: "serve --root /data".into(),
        namespace: "files".into(),
        env: "TOKEN=abc\nDEBUG=1".into(),
        ..stdio("files")
    };
    let built = form.build().expect("builds");
    assert!(!built.editing);
    assert_eq!(built.name, "files");
    assert_eq!(built.secret, None);
    assert_eq!(
        built.config_json,
        r#"{"name":"files","enabled":true,"command":"fileio-mcp","args":["serve","--root","/data"],"namespace":"files","env":{"DEBUG":"1","TOKEN":"abc"}}"#
    );
}

#[test]
fn build_stdio_omits_empty_optionals() {
    let built = stdio("bare").build().expect("builds");
    assert_eq!(
        built.config_json,
        r#"{"name":"bare","enabled":true,"command":"fileio-mcp"}"#
    );
}

#[test]
fn build_carries_disabled_flag() {
    let form = McpForm {
        enabled: false,
        ..stdio("x")
    };
    let built = form.build().expect("builds");
    assert!(built.config_json.contains(r#""enabled":false"#));
}

#[test]
fn build_http_bearer_emits_config_and_secret() {
    let form = McpForm {
        url: "https://gmailmcp.googleapis.com/mcp/v1".into(),
        auth: McpAuthKind::Bearer,
        bearer_token: "  ya29.token \n".into(),
        ..http("gmail")
    };
    let built = form.build().expect("builds");
    assert_eq!(
        built.config_json,
        r#"{"name":"gmail","enabled":true,"http":{"url":"https://gmailmcp.googleapis.com/mcp/v1","auth_bearer_secret":"gmail_token"}}"#
    );
    assert_eq!(
        built.secret,
        Some(("gmail_token".to_string(), "ya29.token".to_string()))
    );
}

#[test]
fn build_http_bearer_blank_token_writes_no_secret() {
    let form = McpForm {
        auth: McpAuthKind::Bearer,
        bearer_token: "   ".into(),
        ..http("gmail")
    };
    let built = form.build().expect("builds");
    assert_eq!(built.secret, None);
    assert!(built
        .config_json
        .contains(r#""auth_bearer_secret":"gmail_token""#));
}

#[test]
fn build_http_oauth_emits_account_ref_and_scopes() {
    let form = McpForm {
        url: "https://cal.example/mcp".into(),
        auth: McpAuthKind::OAuth,
        oauth_account: "work-google".into(),
        scopes: "calendar.read, calendar.write".into(),
        ..http("cal")
    };
    let built = form.build().expect("builds");
    assert_eq!(built.secret, None);
    assert_eq!(
        built.config_json,
        r#"{"name":"cal","enabled":true,"http":{"url":"https://cal.example/mcp","oauth_account":"work-google","scopes":["calendar.read","calendar.write"]}}"#
    );
}

#[test]
fn build_requires_command_for_stdio() {
    let form = McpForm {
        command: "   ".into(),
        ..stdio("x")
    };
    assert!(form.build().is_err());
}

#[test]
fn build_requires_url_for_http() {
    let form = McpForm {
        url: "".into(),
        ..http("x")
    };
    assert!(form.build().is_err());
}

#[test]
fn build_requires_account_for_oauth() {
    let form = McpForm {
        auth: McpAuthKind::OAuth,
        oauth_account: "  ".into(),
        ..http("x")
    };
    assert!(form.build().is_err());
}

#[test]
fn build_requires_valid_name_on_create() {
    assert!(stdio("").build().is_err());
    assert!(stdio("has space").build().is_err());
    assert!(stdio("ok-name_1").build().is_ok());
}

#[test]
fn build_edit_does_not_revalidate_locked_name() {
    let form = McpForm {
        editing: true,
        name: "already.there".into(),
        ..stdio("already.there")
    };
    let built = form.build().expect("builds");
    assert!(built.editing);
    assert_eq!(built.name, "already.there");
}

#[test]
fn config_json_escapes_what_json_needs() {
    let form = McpForm {
        command: "say \"hi\"\\\u{1}é".into(),
        ..stdio("x")
    };
    assert_eq!(
        form.build().expect("builds").config_json,
        "{\"name\":\"x\",\"enabled\":true,\"command\":\"say \\\"hi\\\"\\\\\\u0001é\"}"
    );
}

#[test]
fn names_are_slugs() {
    assert!(validate_name("a").is_ok());
    assert!(validate_name("").is_err());
    assert!(validate_name("dot.ted").is_err());
}

#[test]
fn from_view_prefills_stdio_editor() {
    let view = McpServerView {
        name: "files".into(),
        command: "fileio-mcp".into(),
        args: vec!["serve".into(), "--root".into(), "/data".into()],
        namespace: Some("files".into()),
        enabled: true,
        status: "running".into(),
        transport: "stdio".into(),
        target: "fileio-mcp".into(),
        ..Default::default()
    };
    let f = McpForm::from_view(&view);
    assert!(f.editing);
    assert_eq!(f.transport, McpTransport::Stdio);
    assert_eq!(f.name, "files");
    assert_eq!(f.command, "fileio-mcp");
    assert_eq!(f.args, "serve --root /data");
    assert_eq!(f.namespace, "files");
    assert_eq!(f.env, "");
}

#[test]
fn from_view_prefills_http_bearer_editor() {
    let view = McpServerView {
        name: "gh".into(),
        enabled: true,
        status: "running".into(),
        transport: "http".into(),
        target: "https://gh.example/mcp".into(),
        auth_kind: Some("bearer".into()),
        ..Default::default()
    };
    let f = McpForm::from_view(&view);
    assert_eq!(f.transport, McpTransport::Http);
    assert_eq!(f.auth, McpAuthKind::Bearer);
    assert_eq!(f.url, "https://gh.example/mcp");
    assert_eq!(f.bearer_token, "");
}

#[test]
fn from_view_prefills_http_oauth_editor() {
    let view = McpServerView {
        name: "cal".into(),
        enabled: true,
        status: "needs_auth".into(),
        transport: "http".into(),
        target: "https://cal.example/mcp".into(),
        auth_kind: Some("oauth".into()),
        oauth_account_ref: Some("work-google".into()),
        oauth_scopes: vec!["calendar.read".into()],
        oauth_authorized: Some(false),
        ..Default::default()
    };
    let f = McpForm::from_view(&view);
    assert_eq!(f.transport, McpTransport::Http);
    assert_eq!(f.auth, McpAuthKind::OAuth);
    assert_eq!(f.url, "https://cal.example/mcp");
    assert_eq!(f.oauth_account, "work-google");
    assert_eq!(f.scopes, "calendar.read");
}

#[test]
fn transport_cycle_wraps_both_ways() {
    assert_eq!(McpTransport::Stdio.cycle(1), McpTransport::Http);
    assert_eq!(McpTransport::Http.cycle(1), McpTransport::Stdio);
    assert_eq!(McpTransport::Stdio.cycle(-1), McpTransport::Http);
}

#[test]
fn auth_cycle_wraps_three_ways() {
    assert_eq!(McpAuthKind::Anonymous.cycle(1), McpAuthKind::Bearer);
    assert_eq!(McpAuthKind::Bearer.cycle(1), McpAuthKind::OAuth);
    assert_eq!(McpAuthKind::OAuth.cycle(1), McpAuthKind::Anonymous);
    assert_eq!(McpAuthKind::Anonymous.cycle(-1), McpAuthKind::OAuth);
}

#[test]
fn fields_for_stdio_has_command_and_env_not_url() {
    let fields = fields_for(McpTransport::Stdio, McpAuthKind::Anonymous);
    assert!(fields.contains(&Field::Command));
    assert!(fields.contains(&Field::Env));
    assert!(!fields.contains(&Field::Url));
    assert!(!fields.contains(&Field::Auth));
}

#[test]
fn fields_for_http_bearer_has_token_not_account() {
    let fields = fields_for(McpTransport::Http, McpAuthKind::Bearer);
    assert!(fields.contains(&Field::Url));
    assert!(fields.contains(&Field::BearerToken));
    assert!(!fields.contains(&Field::OAuthAccount));
    assert!(!fields.contains(&Field::Command));
}

#[test]
fn fields_for_http_oauth_has_account_and_scopes() {
    let fields = fields_for(McpTransport::Http, McpAuthKind::OAuth);
    assert!(fields.contains(&Field::OAuthAccount));
    assert!(fields.contains(&Field::Scopes));
    assert!(!fields.contains(&Field::BearerToken));
}

#[test]
fn form_state_round_trips_stdio() {
    let pure = || McpForm {
        args: "serve --root /data".into(),
        namespace: "files".into(),
        env: "TOKEN=abc\nDEBUG=1".into(),
        ..stdio("files")
    };
    let round = FormState::from_pure(pure()).snapshot();
    assert_eq!(round, pure());
}

#[test]
fn form_state_round_trips_http_bearer_including_masked_token() {
    let pure = || McpForm {
        url: "https://gmail.example/mcp".into(),
        auth: McpAuthKind::Bearer,
        bearer_token: "ya29.secret".into(),
        ..http("gmail")
    };
    let round = FormState::from_pure(pure()).snapshot();
    assert_eq!(round, pure());
    assert_eq!(round.bearer_token, "ya29.secret");
}

#[test]
fn form_state_round_trips_http_oauth() {
    let pure = || McpForm {
        url: "https://cal.example/mcp".into(),
        auth: McpAuthKind::OAuth,
        oauth_account: "work-google".into(),
        scopes: "calendar.read calendar.write".into(),
        ..http("cal")
    };
    let round = FormState::from_pure(pure()).snapshot();
    assert_eq!(round, pure());
}

#[test]
fn form_state_blank_defaults_to_stdio_enabled() {
    let f = FormState::blank().snapshot();
    assert_eq!(f.transport, McpTransport::Stdio);
    assert!(f.enabled);
    assert!(!f.editing);
}

fn hostile_server() -> McpServerView {
    McpServerView {
        name: "evil\u{1b}[2Jbox".into(),
        enabled: true,
        status: "error".into(),
        transport: "http".into(),
        target: "https://h\u{1b}]0;x\u{07}/mcp".into(),
        detail: Some("kaboom\u{1b}c".into()),
        configure_command: vec![
            "adele-daemon".into(),
            "--mcp-oauth-login".into(),
            "cal".into(),
        ],
        ..Default::default()
    }
}

fn state_with(servers: Vec<McpServerView>, accounts: Vec<ServiceAccountView>) -> State {
    State {
        servers,
        accounts,
        builtins: Vec::new(),
        selected: 0,
        mode: Mode::List,
        form: FormState::blank(),
        error: None,
        notice: None,
        busy: None,
        closing: false,
    }
}

#[test]
fn draw_list_sanitizes_hostile_daemon_text() {
    let state = state_with(vec![hostile_server()], Vec::new());
    let text = list_text(&draw_list(&state));
    assert!(!text.contains('\u{1b}'), "ESC reached the buffer");
    assert!(!text.contains('\u{07}'), "BEL reached the buffer");
    assert!(text.contains("evil"), "server name missing: {text}");
}

#[test]
fn draw_all_modes_render_without_panicking() {
    let mut state = state_with(
        vec![hostile_server()],
        vec![ServiceAccountView {
            id: "work-google".into(),
            display_name: "Work Google".into(),
        }],
    );
    state.error = Some("something failed".into());
    let _ = draw_list(&state);
    state.mode = Mode::Edit;
    state.form = FormState::from_pure(McpForm {
        auth: McpAuthKind::OAuth,
        oauth_account: "work-google".into(),
        ..http("cal")
    });
    for (field, _, focused) in draw_edit_form(&state.form) {
        let _ = draw_field(&state, field, focused);
    }
    state.mode = Mode::RemoveConfirm;
    assert_eq!(remove_question(&state), "Remove \"evil [2Jbox\"?");
    state.mode = Mode::SignInInfo;
    let text = signin_command(&state).expect("a server is selected");
    assert!(
        text.contains("--mcp-oauth-login"),
        "sign-in command missing: {text}"
    );
}

#[test]
fn draw_empty_list_shows_add_hint() {
    let state = state_with(Vec::new(), Vec::new());
    let text = list_text(&draw_list(&state));
    assert!(text.contains("no MCP servers"), "empty hint missing: {text}");
}

#[test]
fn server_rows_hold_no_control_characters() {
    for line in server_item(&hostile_server()) {
        assert!(!line_text(&line).chars().any(|c| c.is_control()));
    }
}

#[test]
fn account_selector_shows_the_chosen_account() {
    let mut state = state_with(
        Vec::new(),
        vec![ServiceAccountView {
            id: "work-google".into(),
            display_name: "Work Google".into(),
        }],
    );
    state.form = FormState::from_pure(McpForm {
        auth: McpAuthKind::OAuth,
        oauth_account: "work-google".into(),
        ..http("cal")
    });
    match draw_field(&state, Field::OAuthAccount, true) {
        (label, FieldInput::Selector(line)) => {
            assert_eq!(label, "Service account");
            assert!(line_text(&line).contains("Work Google"));
        }
        _ => panic!("not a selector"),
    }
}

#[test]
fn chips_show_every_choice() {
    let line = draw_chip_line(&vec![("one", true), ("two", false)], false);
    let text = line_text(&line);
    assert!(text.contains("one") && text.contains("two"));
}

#[test]
fn saving_sends_the_secret_before_the_server() {
    let mut state = state_with(Vec::new(), Vec::new());
    state.mode = Mode::Edit;
    state.form = FormState::from_pure(McpForm {
        auth: McpAuthKind::Bearer,
        bearer_token: "ya29.token".into(),
        ..http("gmail")
    });
    match handle_key(&mut state, ctrl(KeyCode::Char('s'))) {
        Request::Save { secret, upsert } => {
            match secret {
                Some(Command::SetMcpSecret { id, value }) => {
                    assert_eq!(id, "gmail_token");
                    assert_eq!(value.0, "ya29.token");
                }
                _ => panic!("no secret"),
            }
            match upsert {
                Command::UpsertMcpServer { config_json } => {
                    assert!(config_json.starts_with(r#"{"name":"gmail""#));
                }
                _ => panic!("no upsert"),
            }
        }
        _ => panic!("nothing is saved"),
    }
}

#[test]
fn a_form_that_does_not_build_is_not_saved() {
    let mut state = state_with(Vec::new(), Vec::new());
    state.mode = Mode::Edit;
    state.form = FormState::from_pure(stdio(""));
    assert!(matches!(
        handle_key(&mut state, ctrl(KeyCode::Char('s'))),
        Request::Nothing
    ));
    assert!(state.error.is_some());
    assert_eq!(state.mode, Mode::Edit);
}

#[test]
fn removing_a_server_asks_first() {
    let mut state = state_with(vec![hostile_server()], Vec::new());
    assert!(matches!(
        handle_key(&mut state, press(KeyCode::Char('d'))),
        Request::Nothing
    ));
    assert_eq!(state.mode, Mode::RemoveConfirm);
    match handle_key(&mut state, press(KeyCode::Char('y'))) {
        Request::Remove(Command::RemoveMcpServer { name }) => {
            assert_eq!(name, "evil\u{1b}[2Jbox");
        }
        _ => panic!("nothing is removed"),
    }
}

#[test]
fn a_shorter_list_keeps_the_selection_in_it() {
    let mut state = state_with(vec![hostile_server()], Vec::new());
    state.builtins = vec![BuiltinServerDto {
        name: "fileio".into(),
        namespace: "fileio".into(),
        tool_count: 3,
        overridden_by: None,
        disabled_by_config: false,
    }];
    state.selected = 1;
    let text = list_text(&draw_list(&state));
    assert!(text.contains("fileio"));
    state.builtins = Vec::new();
    apply_outcome(
        &mut state,
        RpcOutcome::Refreshed {
            servers: Ok(vec![hostile_server()]),
            accounts: Ok(Vec::new()),
        },
    );
    assert_eq!(state.selected, 0);
}

#[test]
fn any_white_space_parts_scopes() {
    assert_eq!(split_scopes("a\u{c}b\u{a0}c\u{2003},d\u{b}"), vec!["a", "b", "c", "d"]);
    assert!(split_scopes(" ,\u{3000}, ").is_empty());
}

#[test]
fn the_server_is_sent_only_behind_its_token() {
    let upsert = || Command::UpsertMcpServer { config_json: "{}".into() };
    match after_secret(Ok(()), upsert()) {
        Ok(Command::UpsertMcpServer { config_json }) => assert_eq!(config_json, "{}"),
        _ => panic!("the server was held back"),
    }
    match after_secret(Err("denied".into()), upsert()) {
        Err(RpcOutcome::Saved(Err(e))) => assert_eq!(e, "Saving the token failed: denied"),
        _ => panic!("the server was sent"),
    }
}

#[test]
fn only_the_token_is_masked() {
    let mut form = FormState::from_pure(McpForm {
        bearer_token: "s3cret".into(),
        ..http("cal")
    });
    form.focus = Field::BearerToken;
    form.press(press(KeyCode::Char('!')));
    let fields = [
        Field::Name,
        Field::Transport,
        Field::Enabled,
        Field::Command,
        Field::Args,
        Field::Namespace,
        Field::Env,
        Field::Url,
        Field::Auth,
        Field::BearerToken,
        Field::OAuthAccount,
        Field::Scopes,
    ];
    for field in fields {
        let mask = form.input_of(field).and_then(|area| area.mask());
        let expected = if field == Field::BearerToken { Some('●') } else { None };
        assert_eq!(mask, expected, "{field:?}");
    }
    assert!(form.input_of(Field::Auth).is_none());
    assert_eq!(form.snapshot().bearer_token, "s3cret!");
}

#[test]
fn a_notice_shows_while_nothing_else_does() {
    let mut state = state_with(Vec::new(), Vec::new());
    assert!(draw_panel_status(&state).is_none());
    state.notice = Some("told".into());
    let shown = draw_panel_status(&state).expect("a status line");
    assert_eq!(shown.text, "told");
    state.error = Some("broken".into());
    assert_eq!(draw_panel_status(&state).expect("a status line").text, " • broken");
    state.busy = Some("working".into());
    assert_eq!(draw_panel_status(&state).expect("a status line").text, " ● working");
}

#[test]
fn cycling_a_selector_keeps_what_was_typed() {
    let mut state = state_with(Vec::new(), Vec::new());
    state.mode = Mode::Edit;
    state.error = Some("earlier".into());
    state.form = FormState::from_pure(McpForm {
        auth: McpAuthKind::Bearer,
        bearer_token: "tok".into(),
        ..http("cal")
    });
    let before = state.form.snapshot();
    state.form.focus = Field::Auth;
    handle_key(&mut state, press(KeyCode::Right));
    let after = state.form.snapshot();
    assert_eq!(after.auth, McpAuthKind::OAuth);
    assert_eq!(after.name, before.name);
    assert_eq!(after.url, before.url);
    assert_eq!(after.bearer_token, "tok");
    assert!(state.form.focus == Field::Auth);
    state.form.focus = Field::OAuthAccount;
    handle_key(&mut state, press(KeyCode::Left));
    assert_eq!(state.form.snapshot().oauth_account, before.oauth_account);
    assert_eq!(state.error.as_deref(), Some("earlier"));
    assert!(state.busy.is_none());
}

#[test]
fn an_opened_form_takes_the_next_key_behind_its_text() {
    let mut form = FormState::from_pure(http("cal"));
    form.press(press(KeyCode::Char('x')));
    assert_eq!(form.snapshot().name, "calx");
    let mut blank = FormState::blank();
    blank.press(press(KeyCode::Char('n')));
    assert_eq!(blank.snapshot().name, "n");
}
