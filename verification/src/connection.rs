//! The per-connection record the server keeps between handshake and
//! disconnect. The outbound queue itself is transport plumbing and lives
//! with the I/O layer; handlers address a connection by its player id.

use vstd::prelude::*;

verus! {

/// One connected client: its assigned player id, display name, the room it
/// is in (if any), and whether it joined that room as a spectator.
#[derive(Debug, Clone)]
pub struct ConnectionHandle {
    pub player_id: u64,
    pub player_name: String,
    pub room_id: Option<u64>,
    pub is_spectator: bool,
}

} // verus!
