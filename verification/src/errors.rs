//! The library's error taxonomy.

use vstd::prelude::*;

verus! {

/// Why an operation failed. Validation and not-found failures become
/// protocol-level error responses; the daemon never dies on them.
#[derive(Clone, Copy, Debug, PartialEq, Eq, Structural)]
pub enum SessionError {
    /// A bad input: a working directory that does not exist, or a
    /// malformed session id.
    ValidationFailure,
    /// The named session is unknown.
    NotFoundFailure,
    /// The agent process or its terminal could not be created.
    SpawnFailure,
    /// A log or state read or write failed.
    IoFailure,
    /// A malformed request or response line.
    ProtocolFailure,
    /// The daemon could not be reached at all.
    UnavailableFailure,
}

impl SessionError {
    /// A human-readable description of the failure.
    pub fn message(&self) -> (r: &'static str)
        ensures
            r@ == self.message_spec(),
    {
        match self {
            SessionError::ValidationFailure => "Working directory does not exist",
            SessionError::NotFoundFailure => "Session not found",
            SessionError::SpawnFailure => "Failed to spawn agent process",
            SessionError::IoFailure => "I/O failure",
            SessionError::ProtocolFailure => "Malformed request",
            SessionError::UnavailableFailure => "Daemon unreachable",
        }
    }

    pub open spec fn message_spec(self) -> Seq<char> {
        match self {
            SessionError::ValidationFailure => "Working directory does not exist"@,
            SessionError::NotFoundFailure => "Session not found"@,
            SessionError::SpawnFailure => "Failed to spawn agent process"@,
            SessionError::IoFailure => "I/O failure"@,
            SessionError::ProtocolFailure => "Malformed request"@,
            SessionError::UnavailableFailure => "Daemon unreachable"@,
        }
    }
}

} // verus!
