//! Settings shared by the client and the server.

use vstd::prelude::*;

verus! {

/// The TCP port the server listens on, and the port a client uses when the
/// address it is given names none.
pub const SERVER_PORT: u32 = 7878;

/// How many outgoing packets may wait in a connection's queue.
pub const CHANNEL_SIZE: usize = 100;

/// How long a client waits for the server to accept its connection.
pub const SERVER_CONNECT_TIMEOUT_MS: u64 = 5000;

} // verus!
