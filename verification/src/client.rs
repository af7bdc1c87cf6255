//! Connected clients as the coordination core sees them.

use vstd::prelude::*;
use crate::job::Work;

verus! {

/// How long a client holding unacknowledged work may stay silent before the
/// watchdog shuts its connection down, in seconds.
pub const TIMEOUT_SECS: u64 = 300;

/// The role of a connected client.  Only clients in the `Worker` role receive
/// job metadata and work partitions from the dispatcher.
#[derive(Copy, Clone, Debug, PartialEq, Eq, Structural)]
pub enum ClientState {
    /// Freshly accepted; the per-connection handler has not yet promoted the
    /// client to a dispatchable role.
    Fresh,
    /// Eligible for job dispatch and work partitions.
    Worker,
}

/// One live client connection, as recorded in the registry.  The
/// per-connection handler owns the protocol loop and reports role changes,
/// activity and acknowledgments back into this record; the dispatcher and the
/// watchdog only read it, except that granting work appends to
/// `unfinished_business`.
pub struct Client {
    /// Registry-assigned identifier, unique for the life of the server.
    pub id: u64,
    /// Peer address, kept for diagnostics.
    pub addr: String,
    /// Current role.
    pub state: ClientState,
    /// Time of the last observed protocol activity, in seconds on the
    /// server's clock.
    pub last_update: u64,
    /// Partitions handed to this client and not yet acknowledged complete.
    pub unfinished_business: Vec<Work>,
}

impl Client {
    /// The client is in the Worker role.
    pub open spec fn is_worker(self) -> bool {
        self.state == ClientState::Worker
    }

    /// The watchdog's eviction rule: the client holds outstanding work and
    /// has shown no activity for at least `TIMEOUT_SECS` seconds.  A client
    /// with nothing outstanding is never stale, however old its last
    /// activity.
    pub open spec fn stale(self, now: u64) -> bool {
        self.unfinished_business@.len() > 0 && now - self.last_update >= TIMEOUT_SECS
    }
}

/// The two records agree on identity, address, role and activity time; only
/// the outstanding-work ledger may differ.
pub open spec fn same_client_core(a: Client, b: Client) -> bool {
    &&& a.id == b.id
    &&& a.addr@ == b.addr@
    &&& a.state == b.state
    &&& a.last_update == b.last_update
}

} // verus!
