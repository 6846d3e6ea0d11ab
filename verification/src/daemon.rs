//! The daemon's decision core: one request in, one response out, plus
//! the action the surrounding event loop must take — adopt or release
//! a process handle, write a payload to a terminal, or shut down. The
//! loop itself (socket accept, spawning, file writes) lives outside
//! and performs exactly what the outcome says.

use vstd::prelude::*;
use vstd::string::*;
use crate::errors::SessionError;
use crate::ids::{uuid_of_chars, parse_uuid, uuid_chars, uuid_string};
use crate::ipc::{Request, RequestModel, Response, ResponseModel};
use crate::manager::{SessionManager, ManagerModel, info_model_of};
use crate::session::{SessionInfoModel, SessionModel, SessionStatus, log_path_chars};

verus! {

/// Where the daemon's socket lives under the given home directory.
pub open spec fn socket_path_chars(home: Seq<char>) -> Seq<char> {
    home + "/.agent-sessions/daemon.sock"@
}

/// The per-user socket path for the daemon's local endpoint.
pub fn daemon_socket_path(home: &str) -> (r: String)
    ensures
        r@ == socket_path_chars(home@),
{
    let mut out = String::from_str(home);
    out.append("/.agent-sessions/daemon.sock");
    out
}

/// What the event loop must do after answering a request.
pub enum Effect {
    /// Nothing beyond sending the response.
    NoAction,
    /// A session started: keep the spawned handle under this id, then
    /// persist a fresh snapshot.
    AdoptHandle { session_id: u128 },
    /// A session stopped: drop its handle, which terminates the child,
    /// then persist a fresh snapshot.
    ReleaseHandle { session_id: u128 },
    /// Write this payload to the session's terminal.
    WriteInput { session_id: u128, payload: String },
}

/// The full result of handling one request.
pub struct Outcome {
    pub response: Response,
    pub shutdown: bool,
    pub effect: Effect,
}

/// The sessions as a listing reports them.
pub open spec fn list_models(m: ManagerModel) -> Seq<SessionInfoModel> {
    Seq::new(
        m.records.len(),
        |k: int| info_model_of(m.records[k], m.is_live(m.records[k].session.id)),
    )
}

/// A session just started is listed. After a successful start — the
/// registry grew by one record carrying the fresh id, the working
/// directory asked for and a live handle — the listing has exactly one
/// more entry, and the new entry shows that id in text form, the same
/// working directory, and status `running`.
pub proof fn lemma_started_session_listed(
    before: ManagerModel,
    after: ManagerModel,
    id: u128,
    working_dir: Seq<char>,
    created_at: Seq<char>,
)
    requires
        after.records == before.records.push(
            (crate::manager::RecordModel {
                session: SessionModel {
                    id,
                    working_dir,
                    created_at,
                    log_path: log_path_chars(before.home, id),
                },
                status: SessionStatus::Running,
            }),
        ),
        after.live == before.live.push(id),
    ensures
        list_models(after).len() == list_models(before).len() + 1,
        list_models(after).last().id == uuid_chars(id),
        list_models(after).last().working_dir == working_dir,
        list_models(after).last().status == "running"@,
{
    assert(after.live[after.live.len() - 1] == id);
    assert(after.is_live(id));
    let n = after.records.len() - 1;
    assert(after.records[n].session.id == id);
}

/// Handles one request against the manager. `spawn_ok` reports whether
/// the caller's attempt to spawn the agent process succeeded; it is
/// consulted only for a start request. A ping never changes the
/// session tables; only a shutdown request asks the loop to stop.
#[verifier::rlimit(60)]
pub fn handle_request(manager: &mut SessionManager, req: Request, spawn_ok: bool) -> (o: Outcome)
    requires
        old(manager)@.wf(),
    ensures
        final(manager)@.wf(),
        final(manager)@.home == old(manager)@.home,
        o.shutdown <==> req@ is Shutdown,
        req@ is Ping ==> o.response@ == ResponseModel::Pong && final(manager)@ == old(manager)@
            && o.effect is NoAction,
        req@ is Shutdown ==> o.response@ == ResponseModel::Okay && final(manager)@ == old(manager)@ && o.effect is NoAction,
        req@ is ListSessions ==> o.response@ == (ResponseModel::SessionList {
            sessions: list_models(old(manager)@),
        }) && final(manager)@ == old(manager)@ && o.effect is NoAction,
        req@ matches RequestModel::AttachSession { .. } ==> o.response@ == (ResponseModel::Error {
            message: "Attach not implemented yet"@,
        }) && final(manager)@ == old(manager)@ && o.effect is NoAction,
        req@ matches RequestModel::StartSession { working_dir } ==> {
            &&& (o.effect is NoAction || o.effect matches Effect::AdoptHandle { .. })
            &&& (o.effect matches Effect::AdoptHandle { session_id } ==> (!old(manager)@.contains_id(
                session_id,
            ) && final(manager)@.live == old(manager)@.live.push(session_id) && final(manager)@.records.len() == old(manager)@.records.len() + 1 && final(manager)@.records.last().session.id == session_id && final(manager)@.records.last().session.working_dir == working_dir && final(manager)@.records.last().status == SessionStatus::Running && final(manager)@.records == old(manager)@.records.push(final(manager)@.records.last()) && o.response@ == (
            ResponseModel::SessionStarted {
                session_id: uuid_chars(session_id),
                log_path: log_path_chars(old(manager)@.home, session_id),
            })))
            &&& (o.effect is NoAction ==> (final(manager)@ == old(manager)@ && (o.response@ matches ResponseModel::Error { message } && (message
                == SessionError::ValidationFailure.message_spec() || message
                == SessionError::SpawnFailure.message_spec()))))
            &&& (!spawn_ok ==> o.effect is NoAction)
        },
        req@ matches RequestModel::StopSession { session_id } ==> {
            &&& (uuid_of_chars(session_id) is None ==> final(manager)@ == old(manager)@
                && o.effect is NoAction && o.response@ == (ResponseModel::Error {
                message: "Invalid session ID format"@,
            }))
            &&& (uuid_of_chars(session_id) matches Some(id) ==> {
                &&& (!old(manager)@.contains_id(id) ==> final(manager)@ == old(manager)@
                    && o.effect is NoAction && o.response@ == (ResponseModel::Error {
                    message: SessionError::NotFoundFailure.message_spec(),
                }))
                &&& (old(manager)@.contains_id(id) ==> (o.effect == (Effect::ReleaseHandle {
                    session_id: id,
                }) && o.response@ == (ResponseModel::SessionStopped { session_id }) && !final(manager)@.contains_id(id) && final(manager)@.records.len() == old(manager)@.records.len() - 1 && (forall|x: u128|
                    #[trigger] final(manager)@.is_live(x) <==> old(manager)@.is_live(x) && x
                        != id)))
            })
        },
        req@ matches RequestModel::SendInput { session_id, text } ==> {
            &&& final(manager)@ == old(manager)@
            &&& (uuid_of_chars(session_id) is None ==> o.effect is NoAction && o.response@ == (
            ResponseModel::Error { message: "Invalid session ID format"@ }))
            &&& (uuid_of_chars(session_id) matches Some(id) ==> {
                &&& (!old(manager)@.is_live(id) ==> o.effect is NoAction && o.response@ == (
                ResponseModel::Error { message: SessionError::NotFoundFailure.message_spec() }))
                &&& (old(manager)@.is_live(id) ==> (o.effect matches Effect::WriteInput {
                    session_id: sid,
                    payload,
                } && sid == id && o.response@ == ResponseModel::Okay && payload@ == (if text.len()
                    > 0 && text.last() == '\n' {
                    text
                } else {
                    text.push('\n')
                })))
            })
        },
{
    match req {
        Request::Ping => Outcome { response: Response::Pong, shutdown: false, effect: Effect::NoAction },
        Request::Shutdown => Outcome {
            response: Response::Okay,
            shutdown: true,
            effect: Effect::NoAction,
        },
        Request::ListSessions => {
            let sessions = manager.list_sessions();
            proof {
                assert(sessions@.map_values(|i: crate::session::SessionInfo| i@) =~= list_models(
                    manager@,
                ));
            }
            Outcome {
                response: Response::SessionList { sessions },
                shutdown: false,
                effect: Effect::NoAction,
            }
        },
        Request::AttachSession { session_id: _ } => Outcome {
            response: Response::Error { message: String::from_str("Attach not implemented yet") },
            shutdown: false,
            effect: Effect::NoAction,
        },
        Request::StartSession { working_dir } => {
            let started = manager.start_session(working_dir, spawn_ok);
            match started {
                Ok(id) => {
                    let home = manager.home_dir().clone();
                    let log_path = crate::session::log_path_for_session(home.as_str(), id);
                    Outcome {
                        response: Response::SessionStarted {
                            session_id: uuid_string(id),
                            log_path,
                        },
                        shutdown: false,
                        effect: Effect::AdoptHandle { session_id: id },
                    }
                },
                Err(e) => Outcome {
                    response: Response::Error { message: String::from_str(e.message()) },
                    shutdown: false,
                    effect: Effect::NoAction,
                },
            }
        },
        Request::StopSession { session_id } => {
            let parsed = parse_uuid(session_id.as_str());
            match parsed {
                None => Outcome {
                    response: Response::Error {
                        message: String::from_str("Invalid session ID format"),
                    },
                    shutdown: false,
                    effect: Effect::NoAction,
                },
                Some(id) => {
                    let stopped = manager.stop_session(id);
                    match stopped {
                        Ok(()) => Outcome {
                            response: Response::SessionStopped { session_id },
                            shutdown: false,
                            effect: Effect::ReleaseHandle { session_id: id },
                        },
                        Err(e) => Outcome {
                            response: Response::Error { message: String::from_str(e.message()) },
                            shutdown: false,
                            effect: Effect::NoAction,
                        },
                    }
                },
            }
        },
        Request::SendInput { session_id, text } => {
            let parsed = parse_uuid(session_id.as_str());
            match parsed {
                None => Outcome {
                    response: Response::Error {
                        message: String::from_str("Invalid session ID format"),
                    },
                    shutdown: false,
                    effect: Effect::NoAction,
                },
                Some(id) => {
                    let prepared = manager.send_input(id, text);
                    match prepared {
                        Ok(payload) => Outcome {
                            response: Response::Okay,
                            shutdown: false,
                            effect: Effect::WriteInput { session_id: id, payload },
                        },
                        Err(e) => Outcome {
                            response: Response::Error { message: String::from_str(e.message()) },
                            shutdown: false,
                            effect: Effect::NoAction,
                        },
                    }
                },
            }
        },
    }
}

} // verus!
