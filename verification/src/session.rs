//! Sessions: one running or formerly-running instance of the managed
//! interactive agent process, bound to a working directory.

use vstd::prelude::*;
use vstd::string::*;
use crate::ids::{uuid_chars, push_uuid};

verus! {

/// The lifecycle state a session can be in. `Running` and `Stopped` come
/// from normal operation; `Stale`, `Crashed` and `Orphaned` only from
/// recovery after a daemon restart.
#[derive(Clone, Copy, Debug, PartialEq, Eq, Structural)]
pub enum SessionStatus {
    Running,
    Stopped,
    Crashed,
    Stale,
    Orphaned,
}

impl SessionStatus {
    pub open spec fn chars(self) -> Seq<char> {
        match self {
            SessionStatus::Running => "running"@,
            SessionStatus::Stopped => "stopped"@,
            SessionStatus::Crashed => "crashed"@,
            SessionStatus::Stale => "stale"@,
            SessionStatus::Orphaned => "orphaned"@,
        }
    }

    /// The status as it is written on disk and on the wire.
    pub fn as_str(&self) -> (r: &'static str)
        ensures
            r@ == self.chars(),
    {
        match self {
            SessionStatus::Running => "running",
            SessionStatus::Stopped => "stopped",
            SessionStatus::Crashed => "crashed",
            SessionStatus::Stale => "stale",
            SessionStatus::Orphaned => "orphaned",
        }
    }
}

/// The three-way recovery classification. It is a pure function of the
/// recorded pid and the liveness probe's answer: no pid means the state
/// is unknown (`Stale`); a dead pid means the process went away
/// (`Crashed`); a live pid is a process this daemon holds no terminal
/// for (`Orphaned`).
pub open spec fn classify_spec(pid: Option<u32>, alive: bool) -> SessionStatus {
    match pid {
        None => SessionStatus::Stale,
        Some(_) => if alive {
            SessionStatus::Orphaned
        } else {
            SessionStatus::Crashed
        },
    }
}

/// Classifies a recovered session from its recorded pid and the liveness
/// probe's answer. Deterministic: the probe is injected, so the rule can
/// be checked without real processes.
pub fn classify_recovery(pid: Option<u32>, alive: bool) -> (s: SessionStatus)
    ensures
        s == classify_spec(pid, alive),
{
    match pid {
        None => SessionStatus::Stale,
        Some(_) => if alive {
            SessionStatus::Orphaned
        } else {
            SessionStatus::Crashed
        },
    }
}

/// A live, in-memory session record.
#[derive(Clone, Debug)]
pub struct Session {
    pub id: u128,
    pub working_dir: String,
    pub created_at: String,
    pub log_path: String,
}

/// The mathematical shape of a session record.
pub struct SessionModel {
    pub id: u128,
    pub working_dir: Seq<char>,
    pub created_at: Seq<char>,
    pub log_path: Seq<char>,
}

impl View for Session {
    type V = SessionModel;

    open spec fn view(&self) -> SessionModel {
        SessionModel {
            id: self.id,
            working_dir: self.working_dir@,
            created_at: self.created_at@,
            log_path: self.log_path@,
        }
    }
}

/// Where a session's log file lives under the given home directory.
pub open spec fn log_path_chars(home: Seq<char>, id: u128) -> Seq<char> {
    home + "/.agent-sessions/logs/"@ + uuid_chars(id) + ".jsonl"@
}

/// The log file path for a session, keyed by its id.
pub fn log_path_for_session(home: &str, id: u128) -> (r: String)
    ensures
        r@ == log_path_chars(home@, id),
{
    let mut out = String::from_str(home);
    out.append("/.agent-sessions/logs/");
    push_uuid(&mut out, id);
    out.append(".jsonl");
    assert(out@ =~= log_path_chars(home@, id));
    out
}

impl Session {
    /// A fresh session record for a working directory. The identifier
    /// and timestamp are handed in by the caller; the log path is
    /// derived from the identifier.
    pub fn new(id: u128, working_dir: String, created_at: String, home: &str) -> (s: Session)
        ensures
            s@.id == id,
            s@.working_dir == working_dir@,
            s@.created_at == created_at@,
            s@.log_path == log_path_chars(home@, id),
    {
        let log_path = log_path_for_session(home, id);
        Session { id, working_dir, created_at, log_path }
    }
}

/// Session metadata for list operations, all fields in text form.
#[derive(Clone, Debug)]
pub struct SessionInfo {
    pub id: String,
    pub working_dir: String,
    pub created_at: String,
    pub status: String,
    pub log_path: String,
}

/// The mathematical shape of a listed session.
pub struct SessionInfoModel {
    pub id: Seq<char>,
    pub working_dir: Seq<char>,
    pub created_at: Seq<char>,
    pub status: Seq<char>,
    pub log_path: Seq<char>,
}

impl View for SessionInfo {
    type V = SessionInfoModel;

    open spec fn view(&self) -> SessionInfoModel {
        SessionInfoModel {
            id: self.id@,
            working_dir: self.working_dir@,
            created_at: self.created_at@,
            status: self.status@,
            log_path: self.log_path@,
        }
    }
}

} // verus!
