//! Connection bookkeeping of the websocket layer.

use vstd::prelude::*;

verus! {

/// Counters over all websocket connections.
#[derive(Debug, Clone)]
pub struct ConnectionStats {
    /// Connections open right now.
    pub active_connections: usize,
    /// Connections ever opened.
    pub total_connections: usize,
    /// Reconnections among them.
    pub reconnection_count: usize,
    /// Messages sent to clients.
    pub messages_sent: usize,
    /// Messages received from clients.
    pub messages_received: usize,
}

impl Default for ConnectionStats {
    /// All counters at zero.
    fn default() -> (r: Self)
        ensures
            r.active_connections == 0 && r.total_connections == 0 && r.reconnection_count == 0
                && r.messages_sent == 0 && r.messages_received == 0,
    {
        ConnectionStats {
            active_connections: 0,
            total_connections: 0,
            reconnection_count: 0,
            messages_sent: 0,
            messages_received: 0,
        }
    }
}

} // verus!
