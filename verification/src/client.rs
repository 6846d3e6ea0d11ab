//! The client's side of the protocol: where the daemon's socket lives
//! and whether it appears to be up. The connection itself — connect,
//! write one line, read one line — is made outside, with the codec
//! from the protocol module.

use vstd::prelude::*;
use crate::boundary::path_exists;
use crate::daemon::{daemon_socket_path, socket_path_chars};

verus! {

/// Knows where to reach the daemon.
pub struct Client {
    pub socket_path: String,
}

impl Client {
    /// A client for the per-user daemon socket under `home`.
    pub fn new(home: &str) -> (c: Client)
        ensures
            c.socket_path@ == socket_path_chars(home@),
    {
        Client { socket_path: daemon_socket_path(home) }
    }

    /// The socket path this client connects to.
    pub fn socket_path(&self) -> (r: &String)
        ensures
            r@ == self.socket_path@,
    {
        &self.socket_path
    }

    /// Whether a daemon appears to be running: a best-effort probe for
    /// its socket file. A leftover socket from a crashed daemon makes
    /// this answer yes; binding failure is the only real guard.
    pub fn is_daemon_running(&self) -> bool {
        path_exists(self.socket_path.as_str())
    }
}

} // verus!
