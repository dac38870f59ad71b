//! The decisions a connection task makes, separated from the socket I/O
//! that surrounds them: when a heartbeat tick must close the connection,
//! and which broadcast obliges a connection to close itself.

use vstd::prelude::*;

use crate::types::{ServerMessage, SessionId};

verus! {

/// How often heartbeat pings are sent, in milliseconds.  Should be half (or
/// less) of the acceptable client timeout.
pub const HEARTBEAT_INTERVAL_MS: u64 = 5000;

/// How long without any heartbeat activity before a client is considered
/// gone, in milliseconds.
pub const CLIENT_TIMEOUT_MS: u64 = 10000;

/// What a connection task does on a heartbeat tick.
#[derive(Clone, Copy, Debug, PartialEq, Eq, Structural)]
pub enum HeartbeatAction {
    /// No heartbeat activity within the timeout: close the connection.
    Close,
    /// Send a heartbeat ping.
    Ping,
}

/// Decides a heartbeat tick: close once the last observed heartbeat
/// activity lies further back than the client timeout, ping otherwise.
pub fn heartbeat_action(now_ms: u64, last_heartbeat_ms: u64) -> (r: HeartbeatAction)
    ensures
        r == (if now_ms > last_heartbeat_ms && now_ms - last_heartbeat_ms > CLIENT_TIMEOUT_MS {
            HeartbeatAction::Close
        } else {
            HeartbeatAction::Ping
        }),
{
    if now_ms > last_heartbeat_ms && now_ms - last_heartbeat_ms > CLIENT_TIMEOUT_MS {
        HeartbeatAction::Close
    } else {
        HeartbeatAction::Ping
    }
}

/// Whether a broadcast obliges this connection to close: exactly the
/// duplicate-session rejection addressed to this connection's id.  Every
/// other connection ignores it and keeps receiving ordinary broadcasts.
pub fn should_close_connection(message: &ServerMessage, my_session: &SessionId) -> (r: bool)
    ensures
        r == (message matches ServerMessage::DuplicateSession(id) && id@ == my_session@),
{
    match message {
        ServerMessage::DuplicateSession(id) => *id == *my_session,
        _ => false,
    }
}

} // verus!
