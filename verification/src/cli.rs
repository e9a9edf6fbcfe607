//! What the command line asks for: the connection, logging, and which way to
//! start.

use vstd::prelude::*;
use crate::text::{cat4, cat5, trim};
#[allow(unused_imports)]
use crate::text::{
    holds_text, is_space, law_text_is_held, law_trimmed_is_what_lies_between, trimmed,
};

verus! {

/// Where the daemon's websocket is by default.
pub const DEFAULT_WS_URL: &'static str = "wss://127.0.0.1:11339/ws";

/// The subject of tokens by default.
pub const DEFAULT_WS_SUBJECT: &'static str = "desktop-tui";

/// The transport that is named on the command line.
#[derive(Debug, Clone, Copy, PartialEq, Eq, Structural)]
pub enum CliTransportMode {
    /// The local socket.
    Local,
    Ws,
    Dbus,
}

/// How the daemon is reached.
#[derive(Debug, Clone, Copy, PartialEq, Eq, Structural)]
pub enum TransportMode {
    /// A Unix domain socket.
    Uds,
    Ws,
    Dbus,
}

/// The options of the connection. `socket` and `ws` may be given without a value.
pub struct Global {
    pub transport: CliTransportMode,
    pub socket: Option<Option<String>>,
    pub ws: Option<Option<String>>,
    pub ws_url: String,
    pub ws_subject: String,
    pub ws_jwt: Option<String>,
    pub ws_login_username: Option<String>,
    pub ws_login_password: Option<String>,
}

/// A connection to the daemon.
pub struct ConnectionConfig {
    pub transport_mode: TransportMode,
    pub ws_url: String,
    pub ws_jwt: Option<String>,
    pub ws_login_username: Option<String>,
    pub ws_login_password: Option<String>,
    pub ws_subject: String,
    pub socket_path: Option<String>,
}

/// A text without white space at its ends, or the default where nothing is left.
pub open spec fn or_default(text: Seq<char>, default: Seq<char>) -> Seq<char> {
    if trimmed(text).len() == 0 {
        default
    } else {
        trimmed(text)
    }
}

fn trimmed_or(text: &str, default: &str) -> (s: String)
    ensures
        s@ == or_default(text@, default@),
{
    let t = trim(text);
    if t.as_str().is_empty() {
        default.to_owned()
    } else {
        t
    }
}

impl Global {
    /// The transport: `--socket` and `--ws` come before `--transport`.
    pub open spec fn mode(self) -> TransportMode {
        if self.socket is Some {
            TransportMode::Uds
        } else if self.ws is Some {
            TransportMode::Ws
        } else {
            match self.transport {
                CliTransportMode::Local => TransportMode::Uds,
                CliTransportMode::Ws => TransportMode::Ws,
                CliTransportMode::Dbus => TransportMode::Dbus,
            }
        }
    }

    /// The websocket's address: the one given with `--ws`, else `--ws-url`, else
    /// the default one.
    pub open spec fn url(self) -> Seq<char> {
        let general = or_default(self.ws_url@, DEFAULT_WS_URL@);
        match (self.socket, self.ws) {
            (None, Some(Some(u))) => or_default(u@, general),
            _ => general,
        }
    }
}

impl ConnectionConfig {
    /// The connection that the command line asks for.
    pub fn from(global: Global) -> (config: ConnectionConfig)
        ensures
            config.transport_mode == global.mode(),
            config.ws_url@ == global.url(),
            config.ws_jwt == global.ws_jwt,
            config.ws_login_username == global.ws_login_username,
            config.ws_login_password == global.ws_login_password,
            config.ws_subject@ == or_default(global.ws_subject@, DEFAULT_WS_SUBJECT@),
            config.socket_path == (match global.socket {
                Some(path) => path,
                None => None,
            }),
    {
        let general = trimmed_or(global.ws_url.as_str(), DEFAULT_WS_URL);
        let ws_subject = trimmed_or(global.ws_subject.as_str(), DEFAULT_WS_SUBJECT);
        let (transport_mode, socket_path, ws_url) = match global.socket {
            Some(path) => (TransportMode::Uds, path, general),
            None => match global.ws {
                Some(url) => {
                    let resolved = match url {
                        Some(u) => trimmed_or(u.as_str(), general.as_str()),
                        None => general,
                    };
                    (TransportMode::Ws, None, resolved)
                },
                None => {
                    let mode = match global.transport {
                        CliTransportMode::Local => TransportMode::Uds,
                        CliTransportMode::Ws => TransportMode::Ws,
                        CliTransportMode::Dbus => TransportMode::Dbus,
                    };
                    (mode, None, general)
                },
            },
        };
        ConnectionConfig {
            transport_mode,
            ws_url,
            ws_jwt: global.ws_jwt,
            ws_login_username: global.ws_login_username,
            ws_login_password: global.ws_login_password,
            ws_subject,
            socket_path,
        }
    }
}

/// Where the value of an option comes from.
#[derive(Debug, Clone, Copy, PartialEq, Eq, Structural)]
pub enum ValueSource {
    DefaultValue,
    EnvVariable,
    CommandLine,
}

/// The options that choose a connection.
pub fn connection_args() -> (names: Vec<&'static str>)
    ensures
        names@ == seq!["transport", "socket", "ws", "ws_url", "ws_subject"],
{
    vec!["transport", "socket", "ws", "ws_url", "ws_subject"]
}

/// The user gave a value.
pub open spec fn is_explicit(source: Option<ValueSource>) -> bool {
    source == Some(ValueSource::CommandLine) || source == Some(ValueSource::EnvVariable)
}

/// Whether the user chose a connection, by the sources of the options that choose
/// one.
pub fn any_explicit_connection_arg(sources: &Vec<Option<ValueSource>>) -> (b: bool)
    ensures
        b == exists|i: int| 0 <= i < sources@.len() && is_explicit(#[trigger] sources@[i]),
{
    let mut i: usize = 0;
    while i < sources.len()
        invariant
            i <= sources@.len(),
            forall|j: int| 0 <= j < i ==> !is_explicit(#[trigger] sources@[j]),
        decreases sources@.len() - i,
    {
        match sources[i] {
            Some(ValueSource::CommandLine) | Some(ValueSource::EnvVariable) => {
                assert(is_explicit(sources@[i as int]));
                return true;
            },
            _ => {},
        }
        i += 1;
    }
    false
}

/// How the first connection is chosen.
#[derive(Debug, Clone, Copy, PartialEq, Eq, Structural)]
pub enum FirstConnection {
    FromCommandLine,
    FromPicker,
}

/// A chosen connection comes first; else one is picked among the saved profiles,
/// where there are any.
pub fn first_connection(cli_explicit: bool, has_profiles: bool) -> (c: FirstConnection)
    ensures
        c == (if !cli_explicit && has_profiles {
            FirstConnection::FromPicker
        } else {
            FirstConnection::FromCommandLine
        }),
{
    if !cli_explicit && has_profiles {
        FirstConnection::FromPicker
    } else {
        FirstConnection::FromCommandLine
    }
}

/// The prompt to run without the window: that of `exec`, else that of `--prompt`.
pub fn exec_prompt(exec: Option<String>, legacy: Option<String>) -> (prompt: Option<String>)
    ensures
        prompt == (if exec is Some {
            exec
        } else {
            legacy
        }),
{
    match exec {
        Some(p) => Some(p),
        None => legacy,
    }
}

pub open spec fn log_level(verbose: u8) -> Seq<char> {
    if verbose == 0 {
        "warn"@
    } else if verbose == 1 {
        "info"@
    } else if verbose == 2 {
        "debug"@
    } else {
        "trace"@
    }
}

/// What is logged: the client and its libraries at the level asked for,
/// everything else from warnings on.
pub open spec fn log_directives(verbose: u8) -> Seq<char> {
    let level = log_level(verbose);
    "warn,adele="@ + level + ",desktop_assistant_client_common="@ + level + (
    ",desktop_assistant_mcp_client="@ + level + ",client_ui_common="@ + level)
}

/// The log filter for a count of `-v`.
pub fn log_filter(verbose: u8) -> (s: String)
    ensures
        s@ == log_directives(verbose),
{
    let level = if verbose == 0 {
        "warn"
    } else if verbose == 1 {
        "info"
    } else if verbose == 2 {
        "debug"
    } else {
        "trace"
    };
    let tail = cat4(",desktop_assistant_mcp_client=", level, ",client_ui_common=", level);
    cat5("warn,adele=", level, ",desktop_assistant_client_common=", level, tail.as_str())
}

/// What logging is set up from.
pub enum Logging {
    Silent,
    /// The environment's own filter.
    FromEnvironment,
    Filter(String),
}

/// Chooses the log filter: none without `-v` and without one in the environment,
/// which comes first.
pub fn choose_logging(verbose: u8, environment: bool) -> (l: Logging)
    ensures
        if environment {
            l is FromEnvironment
        } else if verbose == 0 {
            l is Silent
        } else {
            l matches Logging::Filter(f) && f@ == log_directives(verbose)
        },
{
    if environment {
        Logging::FromEnvironment
    } else if verbose == 0 {
        Logging::Silent
    } else {
        Logging::Filter(log_filter(verbose))
    }
}

/// A named socket or websocket comes before the named transport, and a socket before a
/// websocket; else the transport is the one that is named.
pub proof fn law_flags_choose_the_transport(global: Global)
    ensures
        global.socket is Some ==> global.mode() == TransportMode::Uds,
        global.socket is None && global.ws is Some ==> global.mode() == TransportMode::Ws,
        global.socket is None && global.ws is None ==> {
            &&& global.mode() == TransportMode::Uds <==> global.transport == CliTransportMode::Local
            &&& global.mode() == TransportMode::Ws <==> global.transport == CliTransportMode::Ws
            &&& global.mode() == TransportMode::Dbus <==> global.transport == CliTransportMode::Dbus
        },
{
}

/// The websocket's address is the one that was given: with `--ws`, else with `--ws-url`,
/// without white space around it. Only where neither says anything is it the default one.
pub proof fn law_given_address_is_used(global: Global)
    ensures
        global.socket is None ==> (global.ws matches Some(Some(u)) ==> (trimmed(u@).len() > 0
            ==> global.url() == trimmed(u@))),
        (global.ws is None || global.ws->0 is None || global.socket is Some) && trimmed(
            global.ws_url@,
        ).len() > 0 ==> global.url() == trimmed(global.ws_url@),
        (global.ws is None || global.ws->0 is None) && trimmed(global.ws_url@).len() == 0
            ==> global.url() == DEFAULT_WS_URL@,
        global.url().len() > 0,
{
    reveal_strlit("wss://127.0.0.1:11339/ws");
}

/// A text that says something is kept, without the white space around it.
pub proof fn law_given_text_is_kept(text: Seq<char>, default: Seq<char>)
    ensures
        (forall|i: int| 0 <= i < text.len() ==> is_space(#[trigger] text[i])) ==> or_default(
            text,
            default,
        ) == default,
        (exists|i: int| 0 <= i < text.len() && !is_space(#[trigger] text[i])) ==> or_default(
            text,
            default,
        ) == trimmed(text),
{
    law_trimmed_is_what_lies_between(text);
}

/// A value counts as chosen where the user gave it, on the command line or in the
/// environment, and not where it is the default.
pub proof fn law_given_values_are_explicit(source: Option<ValueSource>)
    ensures
        is_explicit(source) <==> source is Some && source->0 != ValueSource::DefaultValue,
{
}

/// Each `-v` logs one level more, up to the last one; the client and its libraries are
/// all logged at that level.
pub proof fn law_verbosity_raises_the_level(verbose: u8)
    ensures
        log_level(0) == "warn"@,
        log_level(1) == "info"@,
        log_level(2) == "debug"@,
        verbose >= 3 ==> log_level(verbose) == "trace"@,
        holds_text(log_directives(verbose), "adele="@ + log_level(verbose)),
        holds_text(
            log_directives(verbose),
            "desktop_assistant_client_common="@ + log_level(verbose),
        ),
        holds_text(
            log_directives(verbose),
            "desktop_assistant_mcp_client="@ + log_level(verbose),
        ),
        holds_text(log_directives(verbose), "client_ui_common="@ + log_level(verbose)),
{
    reveal_strlit("warn,adele=");
    reveal_strlit("adele=");
    reveal_strlit(",desktop_assistant_client_common=");
    reveal_strlit("desktop_assistant_client_common=");
    reveal_strlit(",desktop_assistant_mcp_client=");
    reveal_strlit("desktop_assistant_mcp_client=");
    reveal_strlit(",client_ui_common=");
    reveal_strlit("client_ui_common=");
    let level = log_level(verbose);
    let all = log_directives(verbose);
    let none = Seq::<char>::empty();
    let warn = seq!['w', 'a', 'r', 'n', ','];
    let comma = seq![','];
    let own = "adele="@ + level;
    let common = "desktop_assistant_client_common="@ + level;
    let mcp = "desktop_assistant_mcp_client="@ + level;
    let ui = "client_ui_common="@ + level;
    assert("warn,adele="@ =~= warn + "adele="@);
    assert(",desktop_assistant_client_common="@ =~= comma + "desktop_assistant_client_common="@);
    assert(",desktop_assistant_mcp_client="@ =~= comma + "desktop_assistant_mcp_client="@);
    assert(",client_ui_common="@ =~= comma + "client_ui_common="@);
    assert(all =~= warn + own + (comma + common + comma + mcp + comma + ui));
    law_text_is_held(warn, own, comma + common + comma + mcp + comma + ui);
    assert(all =~= warn + own + comma + common + (comma + mcp + comma + ui));
    law_text_is_held(warn + own + comma, common, comma + mcp + comma + ui);
    assert(all =~= warn + own + comma + common + comma + mcp + (comma + ui));
    law_text_is_held(warn + own + comma + common + comma, mcp, comma + ui);
    assert(all =~= warn + own + comma + common + comma + mcp + comma + ui);
    law_text_is_held(warn + own + comma + common + comma + mcp + comma, ui, none);
}

} // verus!
