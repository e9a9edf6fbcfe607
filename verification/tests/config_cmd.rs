use adele::client_config::{lists_name, ClientMcpConfig};
use adele::config_cmd::{
    chosen_surfaces, config_get, config_path, config_set, config_show, mcp_add_server, mcp_list,
    mcp_remove_server, mcp_set_enabled, on_off, parse_on_off, BuiltinInfo, Settings,
    DEFAULT_SURFACE, SHARE_CLIENT_CONTEXT_KEY,
};

const PATH: &str = "/home/me/.config/adele/client-mcp.toml";

const DEFAULTS: Settings = Settings {
    show_debug: false,
    share_client_context: true,
};

#[test]
fn add_server_then_list_includes_it() {
    let mut cfg = ClientMcpConfig::new();

    mcp_add_server(
        &mut cfg,
        "notes",
        "notes-mcp",
        &vec!["serve".to_string()],
        Some("nt"),
        &vec!["tui".to_string()],
        true,
    );

    let server = cfg
        .servers
        .iter()
        .find(|s| s.name == "notes")
        .expect("notes server defined after add");
    assert_eq!(server.command, "notes-mcp");
    assert_eq!(server.args, vec!["serve".to_string()]);
    assert_eq!(server.namespace.as_deref(), Some("nt"));

    let listed = mcp_list(&cfg, &Vec::new(), "tui");
    assert!(listed.contains("notes"), "list names the server: {listed}");
    assert!(
        listed.contains("notes-mcp"),
        "list shows the command: {listed}"
    );
    assert!(
        listed.contains("enabled"),
        "an added+enabled server lists as enabled: {listed}"
    );
}

#[test]
fn add_server_without_enabled_leaves_surface_off() {
    let mut cfg = ClientMcpConfig::new();
    mcp_add_server(
        &mut cfg,
        "notes",
        "notes-mcp",
        &Vec::new(),
        None,
        &vec!["tui".to_string()],
        false,
    );

    assert!(
        cfg.servers.iter().any(|s| s.name == "notes"),
        "server is defined"
    );
    assert!(
        !cfg.surface_enabled_names("tui")
            .iter()
            .any(|n| n == "notes"),
        "without --enabled the server is not turned on for the surface"
    );
}

#[test]
fn enable_disable_toggles_surface() {
    let mut cfg = ClientMcpConfig::new();
    mcp_add_server(
        &mut cfg,
        "notes",
        "notes-mcp",
        &Vec::new(),
        None,
        &vec!["tui".to_string()],
        false,
    );

    mcp_set_enabled(&mut cfg, "notes", "tui", true, &Vec::new()).expect("enable");
    assert!(
        cfg
            .surface_enabled_names("tui")
            .iter()
            .any(|n| n == "notes"),
        "enable adds the server to the tui surface"
    );

    mcp_set_enabled(&mut cfg, "notes", "tui", false, &Vec::new()).expect("disable");
    assert!(
        !cfg
            .surface_enabled_names("tui")
            .iter()
            .any(|n| n == "notes"),
        "disable removes the server from the tui surface"
    );
}

#[test]
fn remove_server_removes_it() {
    let mut cfg = ClientMcpConfig::new();
    mcp_add_server(
        &mut cfg,
        "notes",
        "notes-mcp",
        &Vec::new(),
        None,
        &vec!["tui".to_string()],
        true,
    );
    assert!(
        cfg
            .servers
            .iter()
            .any(|s| s.name == "notes")
    );

    mcp_remove_server(&mut cfg, "notes").expect("remove");
    assert!(
        !cfg.servers.iter().any(|s| s.name == "notes"),
        "the definition is gone after remove"
    );
    assert!(
        !cfg.surface_enabled_names("tui")
            .iter()
            .any(|n| n == "notes"),
        "remove prunes the surface enable entry too"
    );
}

#[test]
fn remove_absent_server_errors() {
    let mut cfg = ClientMcpConfig::new();
    let err = mcp_remove_server(&mut cfg, "ghost")
        .expect_err("removing an undefined server errors");
    assert!(
        err.contains("ghost"),
        "the error names the missing server: {err}"
    );
}

#[test]
fn list_marks_builtin_overridden_when_same_name_enabled() {
    let mut cfg = ClientMcpConfig::new();
    mcp_add_server(
        &mut cfg,
        "fileio",
        "my-fileio",
        &Vec::new(),
        None,
        &vec!["tui".to_string()],
        true,
    );

    let builtins = vec![
        BuiltinInfo::new("fileio", 7),
        BuiltinInfo::new("terminal", 4),
    ];
    let listed = mcp_list(&cfg, &builtins, "tui");

    assert!(
        listed.contains("fileio") && listed.contains("overridden"),
        "an overridden built-in is marked overridden: {listed}"
    );
    assert!(
        listed.contains('7') && listed.contains('4'),
        "built-in tool counts are shown: {listed}"
    );
    let terminal_line = listed
        .lines()
        .find(|l| l.contains("terminal"))
        .expect("terminal built-in listed");
    assert!(
        !terminal_line.contains("overridden"),
        "a non-shadowed built-in is not marked overridden: {terminal_line}"
    );
}

#[test]
fn disable_builtin_persists_to_config() {
    let mut cfg = ClientMcpConfig::new();
    let builtins = vec![BuiltinInfo::new("fileio", 7)];
    let msg = mcp_set_enabled(&mut cfg, "fileio", "tui", false, &builtins).expect("handler ok");
    let lower = msg.to_lowercase();
    assert!(
        lower.contains("fileio") && lower.contains("disabled") && lower.contains("tui"),
        "disabling a built-in confirms name + state + surface: {msg}"
    );
    assert_eq!(
        cfg.surface_disabled_builtins("tui"),
        vec!["fileio"],
        "disable writes the built-in to the surface's disabled_builtins list"
    );
}

#[test]
fn enable_builtin_removes_from_disabled() {
    let mut cfg = ClientMcpConfig::new();
    let builtins = vec![BuiltinInfo::new("web", 3)];
    mcp_set_enabled(&mut cfg, "web", "tui", false, &builtins).expect("disable");
    assert_eq!(
        cfg.surface_disabled_builtins("tui"),
        vec!["web"]
    );

    let msg = mcp_set_enabled(&mut cfg, "web", "tui", true, &builtins).expect("handler ok");
    let lower = msg.to_lowercase();
    assert!(
        lower.contains("web") && lower.contains("enabled"),
        "re-enabling a built-in confirms it: {msg}"
    );
    assert!(
        cfg
            .surface_disabled_builtins("tui")
            .is_empty(),
        "enable removes the built-in from the surface's disabled_builtins list"
    );
}

#[test]
fn disable_builtin_is_per_surface() {
    let mut cfg = ClientMcpConfig::new();
    let builtins = vec![BuiltinInfo::new("terminal", 4)];
    mcp_set_enabled(&mut cfg, "terminal", "tui", false, &builtins)
        .expect("disable");
    assert_eq!(cfg.surface_disabled_builtins("tui"), vec!["terminal"]);
    assert!(
        cfg.surface_disabled_builtins("gtk").is_empty(),
        "disabling a built-in for one surface leaves the others on"
    );
}

#[test]
fn list_marks_builtin_disabled_by_config() {
    let mut cfg = ClientMcpConfig::new();
    let builtins = vec![BuiltinInfo::new("web", 3), BuiltinInfo::new("fileio", 7)];
    mcp_set_enabled(&mut cfg, "web", "tui", false, &builtins).expect("disable");

    let listed = mcp_list(&cfg, &builtins, "tui");
    let web_line = listed
        .lines()
        .find(|l| l.contains("web"))
        .expect("web built-in listed");
    assert!(
        web_line.contains("disabled (config)"),
        "a config-disabled built-in is marked in list: {web_line}"
    );
    let fileio_line = listed
        .lines()
        .find(|l| l.contains("fileio"))
        .expect("fileio built-in listed");
    assert!(
        fileio_line.contains("active"),
        "an untouched built-in stays active: {fileio_line}"
    );
}

#[test]
fn defined_server_named_like_builtin_takes_server_path() {
    let mut cfg = ClientMcpConfig::new();
    mcp_add_server(
        &mut cfg,
        "fileio",
        "my-fileio",
        &Vec::new(),
        None,
        &vec!["tui".to_string()],
        true,
    );
    let builtins = vec![BuiltinInfo::new("fileio", 7)];

    mcp_set_enabled(&mut cfg, "fileio", "tui", false, &builtins)
        .expect("disable");
    assert!(
        !cfg.surface_enabled_names("tui")
            .iter()
            .any(|n| n == "fileio"),
        "the defined server is the one toggled off"
    );
    assert!(
        cfg.surface_disabled_builtins("tui").is_empty(),
        "a name matching a defined server never writes disabled_builtins"
    );
}

#[test]
fn enable_unknown_name_errors() {
    let mut cfg = ClientMcpConfig::new();
    let err = mcp_set_enabled(&mut cfg, "ghost", "tui", true, &Vec::new())
        .expect_err("enabling an unknown, non-built-in name errors");
    assert!(
        err.contains("ghost"),
        "the error names the unknown server: {err}"
    );
}

#[test]
fn show_reports_added_server_and_path() {
    let mut cfg = ClientMcpConfig::new();
    mcp_add_server(
        &mut cfg,
        "notes",
        "notes-mcp",
        &Vec::new(),
        None,
        &vec!["tui".to_string()],
        true,
    );

    let shown = config_show(PATH, None, &cfg, Some("[[servers]]\nname = \"notes\"\n")).expect("handler ok");
    assert!(shown.contains("notes"), "show renders the server: {shown}");
    assert!(
        shown.contains("client-mcp.toml"),
        "show names the config path: {shown}"
    );
}

#[test]
fn show_rejects_unknown_section() {
    let mut cfg = ClientMcpConfig::new();
    let err = config_show(PATH, Some("bogus"), &cfg, None)
        .expect_err("an unknown --section is rejected");
    assert!(
        err.contains("bogus") || err.contains("mcp"),
        "the error explains only mcp is supported: {err}"
    );
}

#[test]
fn path_prints_config_location() {
    let mut cfg = ClientMcpConfig::new();
    let printed = config_path(PATH);
    assert!(
        printed.contains("client-mcp.toml"),
        "path prints the config location: {printed}"
    );
}

#[test]
fn set_share_client_context_off_persists_and_reloads() {
    let mut settings = DEFAULTS;
    let out = config_set(&mut settings, SHARE_CLIENT_CONTEXT_KEY, "off").expect("handler ok");
    assert!(out.contains("off"), "set echoes the new value: {out}");
    assert!(!settings.share_client_context);
}

#[test]
fn set_share_client_context_on_persists_and_reloads() {
    let mut settings = DEFAULTS;
    config_set(&mut settings, SHARE_CLIENT_CONTEXT_KEY, "off").expect("off");
    let out = config_set(&mut settings, SHARE_CLIENT_CONTEXT_KEY, "on").expect("handler ok");
    assert!(out.contains("on"), "set echoes the new value: {out}");
    assert!(settings.share_client_context);
}

#[test]
fn set_preserves_other_settings() {
    let mut settings = DEFAULTS;
    settings = Settings {
        show_debug: true,
        share_client_context: true,
    };
    config_set(&mut settings, SHARE_CLIENT_CONTEXT_KEY, "off").expect("set");
    let back = settings;
    assert!(
        back.show_debug,
        "flipping one setting must not clobber another"
    );
    assert!(!back.share_client_context);
}

#[test]
fn set_accepts_true_false_yes_no_one_zero() {
    let mut settings = DEFAULTS;
    for on in ["on", "true", "yes", "1", "ON", "True"] {
        config_set(&mut settings, SHARE_CLIENT_CONTEXT_KEY, on).expect("on-ish");
        assert!(
            settings.share_client_context,
            "{on} => true"
        );
    }
    for off in ["off", "false", "no", "0", "OFF", "False"] {
        config_set(&mut settings, SHARE_CLIENT_CONTEXT_KEY, off).expect("off-ish");
        assert!(
            !settings.share_client_context,
            "{off} => false"
        );
    }
}

#[test]
fn set_rejects_invalid_value() {
    let mut settings = DEFAULTS;
    let err = config_set(&mut settings, SHARE_CLIENT_CONTEXT_KEY, "maybe")
        .expect_err("an unparseable value is rejected");
    assert!(
        err.contains("maybe") || err.contains("on/off"),
        "the error explains the accepted values: {err}"
    );
    assert_eq!(settings, DEFAULTS, "a rejected set must not change the settings");
}

#[test]
fn set_rejects_unknown_key() {
    let mut settings = DEFAULTS;
    let err = config_set(&mut settings, "no-such-setting", "on")
        .expect_err("an unknown key is rejected");
    assert!(
        err.contains("no-such-setting")
            || err.contains(SHARE_CLIENT_CONTEXT_KEY),
        "the error names the offending/known key: {err}"
    );
}

#[test]
fn get_reports_current_value() {
    let mut settings = DEFAULTS;
    let on = config_get(&settings, SHARE_CLIENT_CONTEXT_KEY).expect("handler ok");
    assert!(on.contains("on"), "get reports the default (on): {on}");
    config_set(&mut settings, SHARE_CLIENT_CONTEXT_KEY, "off").expect("off");
    let off = config_get(&settings, SHARE_CLIENT_CONTEXT_KEY).expect("handler ok");
    assert!(
        off.contains("off"),
        "get reflects the persisted value: {off}"
    );
}

#[test]
fn get_rejects_unknown_key() {
    let mut settings = DEFAULTS;
    let err = config_get(&settings, "no-such-setting")
        .expect_err("an unknown key is rejected");
    assert!(err.contains("no-such-setting") || err.contains("known"));
}

#[test]
fn show_tells_of_a_missing_file() {
    let cfg = ClientMcpConfig::new();
    assert_eq!(
        config_show(PATH, Some("mcp"), &cfg, None).expect("handler ok"),
        format!(
            "Client-MCP config: {PATH}\n  (file does not exist — no client-hosted MCP servers configured)\n"
        )
    );
}

#[test]
fn surfaces_default_to_this_client() {
    assert_eq!(chosen_surfaces(Vec::new()), vec![DEFAULT_SURFACE]);
    assert_eq!(chosen_surfaces(vec!["gtk".into()]), vec!["gtk"]);
}

#[test]
fn printed_values_are_read_back() {
    for value in [true, false] {
        assert_eq!(parse_on_off(on_off(value)), Ok(value));
    }
    assert!(parse_on_off("2").is_err());
}

#[test]
fn switching_one_name_leaves_the_others() {
    let mut cfg = ClientMcpConfig::new();
    cfg.set_surface_enabled("tui", "a", true);
    cfg.set_surface_enabled("tui", "b", true);
    cfg.set_surface_enabled("tui", "a", false);
    let names = cfg.surface_enabled_names("tui");
    assert!(lists_name(&names, "b"));
    assert!(!lists_name(&names, "a"));
    assert!(cfg.surface_enabled_names("gtk").is_empty());
}
