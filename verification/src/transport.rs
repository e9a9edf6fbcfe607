//! The transports to the daemon, and what each of them can carry.

use vstd::prelude::*;
use crate::api::Command;
use crate::text::cat2;

verus! {

#[derive(Debug, Clone, Copy, PartialEq, Eq, Structural)]
pub enum TransportMode {
    Dbus,
    Ws,
}

/// A connection, as far as the transport reads it.
pub struct ConnectionConfig {
    pub transport_mode: TransportMode,
    pub ws_url: String,
    /// The file with the certificate that the websocket's server is checked
    /// against.
    pub tls_ca_cert: Option<String>,
}

/// What the client says of its connection.
pub fn transport_label(config: &ConnectionConfig) -> (s: String)
    ensures
        s@ == (match config.transport_mode {
            TransportMode::Dbus => "Connected via D-Bus"@,
            TransportMode::Ws => "Connected to "@ + config.ws_url@,
        }),
{
    match config.transport_mode {
        TransportMode::Dbus => "Connected via D-Bus".to_owned(),
        TransportMode::Ws => cat2("Connected to ", config.ws_url.as_str()),
    }
}

/// The transport to open: an error where D-Bus was left out of the build.
pub fn connect_transport(config: &ConnectionConfig, has_dbus: bool) -> (r: Result<
    TransportMode,
    &'static str,
>)
    ensures
        match r {
            Ok(mode) => mode == config.transport_mode && (mode == TransportMode::Dbus
                ==> has_dbus),
            Err(e) => config.transport_mode == TransportMode::Dbus && !has_dbus && e@
                == "D-Bus transport is not available (compiled without dbus feature)"@,
        },
{
    match config.transport_mode {
        TransportMode::Dbus => if has_dbus {
            Ok(TransportMode::Dbus)
        } else {
            Err("D-Bus transport is not available (compiled without dbus feature)")
        },
        TransportMode::Ws => Ok(TransportMode::Ws),
    }
}

/// The name of a command that D-Bus cannot carry; none for the others.
pub open spec fn dbus_lacks(command: Command) -> Option<Seq<char>> {
    match command {
        Command::ListConnections => Some("list_connections"@),
        Command::CreateConnection { .. } => Some("create_connection"@),
        Command::UpdateConnection { .. } => Some("update_connection"@),
        Command::DeleteConnection { .. } => Some("delete_connection"@),
        Command::ListAvailableModels { .. } => Some("list_available_models"@),
        Command::GetPurposes => Some("get_purposes"@),
        Command::SetPurpose { .. } => Some("set_purpose"@),
        _ => None,
    }
}

fn lacking(command: &Command) -> (op: Option<&'static str>)
    ensures
        crate::text::opt_str(op) == dbus_lacks(*command),
{
    match command {
        Command::ListConnections => Some("list_connections"),
        Command::CreateConnection { .. } => Some("create_connection"),
        Command::UpdateConnection { .. } => Some("update_connection"),
        Command::DeleteConnection { .. } => Some("delete_connection"),
        Command::ListAvailableModels { .. } => Some("list_available_models"),
        Command::GetPurposes => Some("get_purposes"),
        Command::SetPurpose { .. } => Some("set_purpose"),
        _ => None,
    }
}

/// The error for a command that only the websocket carries.
pub fn multi_connection_unsupported(op: &str) -> (s: String)
    ensures
        s@ == op@
            + " is not supported over D-Bus — connect with --transport=ws to manage connections"@,
{
    cat2(op, " is not supported over D-Bus — connect with --transport=ws to manage connections")
}

/// A command as D-Bus carries it: a prompt goes without the model it asks for.
pub open spec fn over_dbus(command: Command) -> Command {
    match command {
        Command::SendMessage { conversation_id, content, override_selection } => {
            Command::SendMessage { conversation_id, content, override_selection: None }
        },
        _ => command,
    }
}

/// The command that goes over a transport. The websocket carries every command
/// as it is.
pub fn routed(mode: TransportMode, command: Command) -> (r: Result<Command, String>)
    ensures
        match mode {
            TransportMode::Ws => r == Ok::<Command, String>(command),
            TransportMode::Dbus => match dbus_lacks(command) {
                Some(op) => r matches Err(e) && e@ == op
                    + " is not supported over D-Bus — connect with --transport=ws to manage connections"@,
                None => r == Ok::<Command, String>(over_dbus(command)),
            },
        },
{
    match mode {
        TransportMode::Ws => Ok(command),
        TransportMode::Dbus => match lacking(&command) {
            Some(op) => Err(multi_connection_unsupported(op)),
            None => match command {
                Command::SendMessage { conversation_id, content, override_selection: _ } => Ok(
                    Command::SendMessage { conversation_id, content, override_selection: None },
                ),
                other => Ok(other),
            },
        },
    }
}

/// D-Bus carries every command but those that manage connections, models and purposes,
/// and these are told by their own names.
pub proof fn law_dbus_carries_the_rest(command: Command)
    ensures
        dbus_lacks(command) is Some <==> command is ListConnections || command is CreateConnection
            || command is UpdateConnection || command is DeleteConnection
            || command is ListAvailableModels || command is GetPurposes || command is SetPurpose,
        command is ListConnections ==> dbus_lacks(command) == Some("list_connections"@),
        command is CreateConnection ==> dbus_lacks(command) == Some("create_connection"@),
        command is UpdateConnection ==> dbus_lacks(command) == Some("update_connection"@),
        command is DeleteConnection ==> dbus_lacks(command) == Some("delete_connection"@),
        command is ListAvailableModels ==> dbus_lacks(command) == Some("list_available_models"@),
        command is GetPurposes ==> dbus_lacks(command) == Some("get_purposes"@),
        command is SetPurpose ==> dbus_lacks(command) == Some("set_purpose"@),
{
}

/// Over D-Bus a prompt reaches its conversation whole and loses only the model that it
/// asks for; every other command goes as it is.
pub proof fn law_dbus_keeps_the_prompt(command: Command)
    ensures
        command matches Command::SendMessage { conversation_id, content, .. } ==> (
        over_dbus(command) matches Command::SendMessage {
            conversation_id: to,
            content: sent,
            override_selection,
        } && to == conversation_id && sent == content && override_selection is None),
        !(command is SendMessage) ==> over_dbus(command) == command,
        over_dbus(over_dbus(command)) == over_dbus(command),
{
}

} // verus!
