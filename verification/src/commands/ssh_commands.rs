//! The commands that a front end issues, one function each. Every command
//! that names a connection fails with the same message where no such
//! connection is registered.

use vstd::prelude::*;
use crate::ssh::connection::{request_result, ConnectOutcome, ConnectRequest};
use crate::ssh::manager::{
    connection_not_found,
    not_found_message,
    state_views,
    texts,
    SSHManager,
};
use crate::ssh::terminal::session_views;
use crate::text::{ok_text, text_result, unit_result};
use crate::ssh::types::{
    SSHConnectionConfig,
    SSHConnectionState,
    TerminalSession,
    TerminalSize,
};

verus! {

/// What a command that is not wired to the transport answers for a
/// connection id: that it cannot be done yet where the connection is
/// registered, that there is no such connection where it is not.
pub open spec fn unavailable(manager: &SSHManager, connection_id: Seq<char>, message: Seq<char>) -> Seq<
    char,
> {
    if manager@.contains(connection_id) {
        message
    } else {
        connection_not_found(connection_id)
    }
}

fn refuse(manager: &SSHManager, connection_id: &str, message: &str) -> (text: String)
    requires
        manager.wf(),
    ensures
        text@ == unavailable(manager, connection_id@, message@),
{
    match manager.get_connection(connection_id) {
        Some(_) => message.to_string(),
        None => not_found_message(connection_id),
    }
}

/// Registers a connection and returns its id.
pub fn create_ssh_connection(config: SSHConnectionConfig, ssh_manager: &mut SSHManager) -> (r: Result<
    String,
    String,
>)
    requires
        old(ssh_manager).wf(),
    ensures
        final(ssh_manager).wf(),
        exists|key_file_present: bool, now: i64|
            (!config@.needs_key_file() ==> !key_file_present) && (
                final(ssh_manager)@,
                text_result(r),
            ) == #[trigger] old(ssh_manager)@.create_connection(
                config@,
                ok_text(r),
                key_file_present,
                now,
            ),
{
    ssh_manager.create_connection(config)
}

/// Starts connecting a registered connection and answers with what the host
/// has to dial.
pub fn connect_ssh(connection_id: String, ssh_manager: &mut SSHManager) -> (r: Result<
    ConnectRequest,
    String,
>)
    requires
        old(ssh_manager).wf(),
    ensures
        final(ssh_manager).wf(),
        exists|key_file_present: bool, now: i64|
            (!old(ssh_manager)@.contains(connection_id@) || !old(ssh_manager)@.connection(
                connection_id@,
            ).config.needs_key_file() ==> !key_file_present) && (
                final(ssh_manager)@,
                request_result(r),
            ) == #[trigger] old(ssh_manager)@.connect_existing(
                connection_id@,
                key_file_present,
                now,
            ),
{
    ssh_manager.connect_existing(connection_id.as_str())
}

/// Records what came of the host's attempt to connect.
pub fn complete_connect_ssh(
    connection_id: String,
    outcome: ConnectOutcome,
    ssh_manager: &mut SSHManager,
) -> (r: Result<(), String>)
    requires
        old(ssh_manager).wf(),
    ensures
        final(ssh_manager).wf(),
        exists|now: i64|
            (final(ssh_manager)@, unit_result(r)) == #[trigger] old(ssh_manager)@.complete_connect(
                connection_id@,
                outcome@,
                now,
            ),
{
    ssh_manager.complete_connect(connection_id.as_str(), outcome)
}

/// Tears a registered connection down.
pub fn disconnect_ssh(connection_id: String, ssh_manager: &mut SSHManager) -> (r: Result<(), String>)
    requires
        old(ssh_manager).wf(),
    ensures
        final(ssh_manager).wf(),
        exists|now: i64|
            (final(ssh_manager)@, unit_result(r))
                == #[trigger] old(ssh_manager)@.disconnect_connection(connection_id@, now),
{
    ssh_manager.disconnect_connection(connection_id.as_str())
}

/// Tears a registered connection down and forgets it.
pub fn remove_ssh_connection(connection_id: String, ssh_manager: &mut SSHManager) -> (r: Result<
    (),
    String,
>)
    requires
        old(ssh_manager).wf(),
    ensures
        final(ssh_manager).wf(),
        (final(ssh_manager)@, unit_result(r)) == old(ssh_manager)@.remove_connection(
            connection_id@,
        ),
{
    ssh_manager.remove_connection(connection_id.as_str())
}

/// The state of a registered connection.
pub fn get_connection_state(connection_id: String, ssh_manager: &SSHManager) -> (r: Result<
    Option<SSHConnectionState>,
    String,
>)
    requires
        ssh_manager.wf(),
    ensures
        match r {
            Ok(Some(state)) => ssh_manager@.contains(connection_id@) && state@
                == ssh_manager@.state(connection_id@),
            Ok(None) => false,
            Err(message) => !ssh_manager@.contains(connection_id@) && message@
                == connection_not_found(connection_id@),
        },
{
    match ssh_manager.get_connection_state(connection_id.as_str()) {
        Some(state) => Ok(Some(state)),
        None => Err(not_found_message(connection_id.as_str())),
    }
}

/// The states of all connections. This never fails.
pub fn list_connection_states(ssh_manager: &SSHManager) -> (r: Result<
    Vec<SSHConnectionState>,
    String,
>)
    ensures
        r matches Ok(states) && state_views(states@) == ssh_manager@.states,
{
    Ok(ssh_manager.list_connection_states())
}

/// Opening a channel by hand is not wired to the transport.
pub fn create_ssh_channel(connection_id: String, ssh_manager: &SSHManager) -> (r: Result<
    String,
    String,
>)
    requires
        ssh_manager.wf(),
    ensures
        r matches Err(message) && message@ == unavailable(
            ssh_manager,
            connection_id@,
            "Channel creation not yet fully implemented"@,
        ),
{
    Err(refuse(ssh_manager, connection_id.as_str(), "Channel creation not yet fully implemented"))
}

/// Asking for a pseudo-terminal by hand is not wired to the transport.
pub fn request_pty(
    connection_id: String,
    _channel_id_str: String,
    _cols: u16,
    _rows: u16,
    ssh_manager: &SSHManager,
) -> (r: Result<(), String>)
    requires
        ssh_manager.wf(),
    ensures
        r matches Err(message) && message@ == unavailable(
            ssh_manager,
            connection_id@,
            "PTY request not yet fully implemented"@,
        ),
{
    Err(refuse(ssh_manager, connection_id.as_str(), "PTY request not yet fully implemented"))
}

/// Asking for a shell by hand is not wired to the transport.
pub fn request_shell(connection_id: String, _channel_id_str: String, ssh_manager: &SSHManager) -> (r:
    Result<(), String>)
    requires
        ssh_manager.wf(),
    ensures
        r matches Err(message) && message@ == unavailable(
            ssh_manager,
            connection_id@,
            "Shell request not yet fully implemented"@,
        ),
{
    Err(refuse(ssh_manager, connection_id.as_str(), "Shell request not yet fully implemented"))
}

/// Writing to a channel by hand is not wired to the transport.
pub fn send_terminal_input(
    connection_id: String,
    _channel_id_str: String,
    _data: String,
    ssh_manager: &SSHManager,
) -> (r: Result<(), String>)
    requires
        ssh_manager.wf(),
    ensures
        r matches Err(message) && message@ == unavailable(
            ssh_manager,
            connection_id@,
            "Terminal input not yet fully implemented"@,
        ),
{
    Err(refuse(ssh_manager, connection_id.as_str(), "Terminal input not yet fully implemented"))
}

/// Resizing a channel by hand is not wired to the transport.
pub fn resize_terminal(
    connection_id: String,
    _channel_id_str: String,
    _cols: u16,
    _rows: u16,
    ssh_manager: &SSHManager,
) -> (r: Result<(), String>)
    requires
        ssh_manager.wf(),
    ensures
        r matches Err(message) && message@ == unavailable(
            ssh_manager,
            connection_id@,
            "Terminal resize not yet fully implemented"@,
        ),
{
    Err(refuse(ssh_manager, connection_id.as_str(), "Terminal resize not yet fully implemented"))
}

/// Closing a channel by hand is not wired to the transport.
pub fn close_ssh_channel(connection_id: String, _channel_id_str: String, ssh_manager: &SSHManager) -> (r:
    Result<(), String>)
    requires
        ssh_manager.wf(),
    ensures
        r matches Err(message) && message@ == unavailable(
            ssh_manager,
            connection_id@,
            "Channel close not yet fully implemented"@,
        ),
{
    Err(refuse(ssh_manager, connection_id.as_str(), "Channel close not yet fully implemented"))
}

/// The ids of all connections. This never fails.
pub fn list_ssh_connections(ssh_manager: &SSHManager) -> (r: Result<Vec<String>, String>)
    ensures
        r matches Ok(ids) && texts(ids@) == ssh_manager@.ids(),
{
    Ok(ssh_manager.list_connections())
}

/// Opens a terminal session on a registered connection.
pub fn create_terminal_session(connection_id: String, ssh_manager: &mut SSHManager) -> (r: Result<
    String,
    String,
>)
    requires
        old(ssh_manager).wf(),
    ensures
        final(ssh_manager).wf(),
        exists|created_at: i64|
            (final(ssh_manager)@, text_result(r))
                == #[trigger] old(ssh_manager)@.create_terminal_session(
                connection_id@,
                ok_text(r),
                created_at,
            ),
{
    ssh_manager.create_terminal_session(connection_id.as_str())
}

/// Sends text to a terminal session, as the bytes of its UTF-8 encoding.
pub fn send_terminal_input_to_session(
    connection_id: String,
    terminal_id: String,
    data: String,
    ssh_manager: &mut SSHManager,
) -> (r: Result<(), String>)
    requires
        old(ssh_manager).wf(),
    ensures
        final(ssh_manager).wf(),
        (final(ssh_manager)@, unit_result(r)) == old(ssh_manager)@.send_terminal_input(
            connection_id@,
            terminal_id@,
            vstd::utf8::encode_utf8(data@),
        ),
{
    ssh_manager.send_terminal_input(
        connection_id.as_str(),
        terminal_id.as_str(),
        data.as_str().as_bytes(),
    )
}

/// The first step of resizing a terminal session: records the new size.
/// Where a channel carries the terminal, the window change is queued for the
/// host, which reports back through `complete_resize_terminal_session`.
pub fn resize_terminal_session(
    connection_id: String,
    terminal_id: String,
    cols: u16,
    rows: u16,
    pixel_width: u16,
    pixel_height: u16,
    ssh_manager: &mut SSHManager,
) -> (r: Result<(), String>)
    requires
        old(ssh_manager).wf(),
    ensures
        final(ssh_manager).wf(),
        (final(ssh_manager)@, unit_result(r)) == old(ssh_manager)@.resize_terminal(
            connection_id@,
            terminal_id@,
            TerminalSize { cols, rows, pixel_width, pixel_height },
        ),
{
    ssh_manager.resize_terminal(
        connection_id.as_str(),
        terminal_id.as_str(),
        cols,
        rows,
        pixel_width,
        pixel_height,
    )
}

/// The second step of resizing a terminal session: takes what came of the
/// window change that the host carried out.
pub fn complete_resize_terminal_session(
    connection_id: String,
    terminal_id: String,
    outcome: Result<(), String>,
    ssh_manager: &mut SSHManager,
) -> (r: Result<(), String>)
    requires
        old(ssh_manager).wf(),
    ensures
        final(ssh_manager).wf(),
        (final(ssh_manager)@, unit_result(r)) == old(ssh_manager)@.complete_resize(
            connection_id@,
            terminal_id@,
            unit_result(outcome),
        ),
{
    ssh_manager.complete_resize(connection_id.as_str(), terminal_id.as_str(), outcome)
}

/// Closes a terminal session.
pub fn close_terminal_session(
    connection_id: String,
    terminal_id: String,
    ssh_manager: &mut SSHManager,
) -> (r: Result<(), String>)
    requires
        old(ssh_manager).wf(),
    ensures
        final(ssh_manager).wf(),
        (final(ssh_manager)@, unit_result(r)) == old(ssh_manager)@.close_terminal_session(
            connection_id@,
            terminal_id@,
        ),
{
    ssh_manager.close_terminal_session(connection_id.as_str(), terminal_id.as_str())
}

/// A terminal session of a registered connection, if it has one under
/// `terminal_id`.
pub fn get_terminal_session(connection_id: String, terminal_id: String, ssh_manager: &SSHManager) -> (r:
    Result<Option<TerminalSession>, String>)
    requires
        ssh_manager.wf(),
    ensures
        match r {
            Ok(Some(session)) => {
                &&& ssh_manager@.contains(connection_id@)
                &&& ssh_manager@.connection(connection_id@).terminals.contains(terminal_id@)
                &&& session@ == ssh_manager@.connection(connection_id@).terminals.entry(
                    terminal_id@,
                ).session
            },
            Ok(None) => ssh_manager@.contains(connection_id@) && !ssh_manager@.connection(
                connection_id@,
            ).terminals.contains(terminal_id@),
            Err(message) => !ssh_manager@.contains(connection_id@) && message@
                == connection_not_found(connection_id@),
        },
{
    ssh_manager.get_terminal_session(connection_id.as_str(), terminal_id.as_str())
}

/// The terminal sessions of a registered connection.
pub fn list_terminal_sessions(connection_id: String, ssh_manager: &SSHManager) -> (r: Result<
    Vec<TerminalSession>,
    String,
>)
    requires
        ssh_manager.wf(),
    ensures
        match r {
            Ok(sessions) => ssh_manager@.contains(connection_id@) && session_views(sessions@)
                == ssh_manager@.sessions_of(connection_id@),
            Err(message) => !ssh_manager@.contains(connection_id@) && message@
                == connection_not_found(connection_id@),
        },
{
    ssh_manager.list_terminal_sessions(connection_id.as_str())
}

} // verus!
