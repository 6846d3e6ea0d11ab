//! The request/response protocol: tagged records, one JSON object per
//! line on the wire. The codec here is the wire format; the transport
//! (a local socket, one request per connection) lives outside.

use vstd::prelude::*;
use vstd::string::*;
use crate::jtext::{
    jstr, parse_jstr, parse_lit, push_jstr, parse_jstr_at, parse_lit_at,
};
use crate::session::{SessionInfo, SessionInfoModel};
use crate::text::str_chars;

verus! {

/// What a client can ask of the daemon.
#[derive(Clone, Debug)]
pub enum Request {
    /// Start a new session in a working directory.
    StartSession { working_dir: String },
    /// List all sessions.
    ListSessions,
    /// Stop a session by id.
    StopSession { session_id: String },
    /// Send input to a session's terminal.
    SendInput { session_id: String, text: String },
    /// Attach to a session's output stream: a documented placeholder,
    /// always answered with an explicit error.
    AttachSession { session_id: String },
    /// Health check.
    Ping,
    /// Ask the daemon to shut down gracefully.
    Shutdown,
}

/// The mathematical shape of a request.
pub enum RequestModel {
    StartSession { working_dir: Seq<char> },
    ListSessions,
    StopSession { session_id: Seq<char> },
    SendInput { session_id: Seq<char>, text: Seq<char> },
    AttachSession { session_id: Seq<char> },
    Ping,
    Shutdown,
}

impl View for Request {
    type V = RequestModel;

    open spec fn view(&self) -> RequestModel {
        match self {
            Request::StartSession { working_dir } => RequestModel::StartSession {
                working_dir: working_dir@,
            },
            Request::ListSessions => RequestModel::ListSessions,
            Request::StopSession { session_id } => RequestModel::StopSession {
                session_id: session_id@,
            },
            Request::SendInput { session_id, text } => RequestModel::SendInput {
                session_id: session_id@,
                text: text@,
            },
            Request::AttachSession { session_id } => RequestModel::AttachSession {
                session_id: session_id@,
            },
            Request::Ping => RequestModel::Ping,
            Request::Shutdown => RequestModel::Shutdown,
        }
    }
}

/// What the daemon answers.
#[derive(Clone, Debug)]
pub enum Response {
    /// A session was started.
    SessionStarted { session_id: String, log_path: String },
    /// The session table.
    SessionList { sessions: Vec<SessionInfo> },
    /// A session was stopped.
    SessionStopped { session_id: String },
    /// A streamed chunk of log output: reserved for future use.
    LogChunk { session_id: String, data: String },
    /// Answer to a health check.
    Pong,
    /// Generic success.
    Okay,
    /// A protocol-level failure; the daemon keeps running.
    Error { message: String },
}

/// The mathematical shape of a response.
pub enum ResponseModel {
    SessionStarted { session_id: Seq<char>, log_path: Seq<char> },
    SessionList { sessions: Seq<SessionInfoModel> },
    SessionStopped { session_id: Seq<char> },
    LogChunk { session_id: Seq<char>, data: Seq<char> },
    Pong,
    Okay,
    Error { message: Seq<char> },
}

impl View for Response {
    type V = ResponseModel;

    open spec fn view(&self) -> ResponseModel {
        match self {
            Response::SessionStarted { session_id, log_path } => ResponseModel::SessionStarted {
                session_id: session_id@,
                log_path: log_path@,
            },
            Response::SessionList { sessions } => ResponseModel::SessionList {
                sessions: sessions@.map_values(|i: SessionInfo| i@),
            },
            Response::SessionStopped { session_id } => ResponseModel::SessionStopped {
                session_id: session_id@,
            },
            Response::LogChunk { session_id, data } => ResponseModel::LogChunk {
                session_id: session_id@,
                data: data@,
            },
            Response::Pong => ResponseModel::Pong,
            Response::Okay => ResponseModel::Okay,
            Response::Error { message } => ResponseModel::Error { message: message@ },
        }
    }
}

// ---------------------------------------------------------------------
// Request text
// ---------------------------------------------------------------------

pub open spec fn req_chars(r: RequestModel) -> Seq<char> {
    match r {
        RequestModel::StartSession { working_dir } => "{\"type\":\"start_session\",\"working_dir\":"@
            + jstr(working_dir) + "}"@,
        RequestModel::ListSessions => "{\"type\":\"list_sessions\"}"@,
        RequestModel::StopSession { session_id } => "{\"type\":\"stop_session\",\"session_id\":"@
            + jstr(session_id) + "}"@,
        RequestModel::SendInput { session_id, text } => "{\"type\":\"send_input\",\"session_id\":"@
            + jstr(session_id) + ",\"text\":"@ + jstr(text) + "}"@,
        RequestModel::AttachSession { session_id } => "{\"type\":\"attach_session\",\"session_id\":"@
            + jstr(session_id) + "}"@,
        RequestModel::Ping => "{\"type\":\"ping\"}"@,
        RequestModel::Shutdown => "{\"type\":\"shutdown\"}"@,
    }
}

pub open spec fn parse_req(s: Seq<char>) -> Option<(RequestModel, Seq<char>)> {
    if parse_lit(s, "{\"type\":\"start_session\",\"working_dir\":"@) is Some {
        match parse_lit(s, "{\"type\":\"start_session\",\"working_dir\":"@) {
            Some(r1) => match parse_jstr(r1) {
                None => None,
                Some((wd, r2)) => match parse_lit(r2, "}"@) {
                    None => None,
                    Some(r3) => Some((RequestModel::StartSession { working_dir: wd }, r3)),
                },
            },
            None => None,
        }
    } else if parse_lit(s, "{\"type\":\"list_sessions\"}"@) is Some {
        match parse_lit(s, "{\"type\":\"list_sessions\"}"@) {
            Some(r1) => Some((RequestModel::ListSessions, r1)),
            None => None,
        }
    } else if parse_lit(s, "{\"type\":\"stop_session\",\"session_id\":"@) is Some {
        match parse_lit(s, "{\"type\":\"stop_session\",\"session_id\":"@) {
            Some(r1) => match parse_jstr(r1) {
                None => None,
                Some((sid, r2)) => match parse_lit(r2, "}"@) {
                    None => None,
                    Some(r3) => Some((RequestModel::StopSession { session_id: sid }, r3)),
                },
            },
            None => None,
        }
    } else if parse_lit(s, "{\"type\":\"send_input\",\"session_id\":"@) is Some {
        match parse_lit(s, "{\"type\":\"send_input\",\"session_id\":"@) {
            Some(r1) => match parse_jstr(r1) {
                None => None,
                Some((sid, r2)) => match parse_lit(r2, ",\"text\":"@) {
                    None => None,
                    Some(r3) => match parse_jstr(r3) {
                        None => None,
                        Some((text, r4)) => match parse_lit(r4, "}"@) {
                            None => None,
                            Some(r5) => Some(
                                (RequestModel::SendInput { session_id: sid, text }, r5),
                            ),
                        },
                    },
                },
            },
            None => None,
        }
    } else if parse_lit(s, "{\"type\":\"attach_session\",\"session_id\":"@) is Some {
        match parse_lit(s, "{\"type\":\"attach_session\",\"session_id\":"@) {
            Some(r1) => match parse_jstr(r1) {
                None => None,
                Some((sid, r2)) => match parse_lit(r2, "}"@) {
                    None => None,
                    Some(r3) => Some((RequestModel::AttachSession { session_id: sid }, r3)),
                },
            },
            None => None,
        }
    } else if parse_lit(s, "{\"type\":\"ping\"}"@) is Some {
        match parse_lit(s, "{\"type\":\"ping\"}"@) {
            Some(r1) => Some((RequestModel::Ping, r1)),
            None => None,
        }
    } else if parse_lit(s, "{\"type\":\"shutdown\"}"@) is Some {
        match parse_lit(s, "{\"type\":\"shutdown\"}"@) {
            Some(r1) => Some((RequestModel::Shutdown, r1)),
            None => None,
        }
    } else {
        None
    }
}

/// A whole line that is exactly one request.
pub open spec fn req_of_chars(s: Seq<char>) -> Option<RequestModel> {
    match parse_req(s) {
        Some((q, r)) => if r.len() == 0 {
            Some(q)
        } else {
            None
        },
        None => None,
    }
}

// ---------------------------------------------------------------------
// Response text
// ---------------------------------------------------------------------

/// One listed session as a JSON object.
#[verifier::opaque]
pub open spec fn info_chars(i: SessionInfoModel) -> Seq<char> {
    "{\"id\":"@ + jstr(i.id) + ",\"working_dir\":"@ + jstr(i.working_dir) + ",\"created_at\":"@
        + jstr(i.created_at) + ",\"status\":"@ + jstr(i.status) + ",\"log_path\":"@ + jstr(
        i.log_path,
    ) + "}"@
}

pub open spec fn infos_chars(infos: Seq<SessionInfoModel>) -> Seq<char>
    decreases infos.len(),
{
    if infos.len() == 0 {
        Seq::empty()
    } else if infos.len() == 1 {
        info_chars(infos[0])
    } else {
        info_chars(infos[0]) + seq![','] + infos_chars(infos.drop_first())
    }
}

/// The session array, brackets included.
pub open spec fn info_list_chars(infos: Seq<SessionInfoModel>) -> Seq<char> {
    seq!['['] + infos_chars(infos) + seq![']']
}

pub open spec fn resp_chars(r: ResponseModel) -> Seq<char> {
    match r {
        ResponseModel::SessionStarted { session_id, log_path } => "{\"type\":\"session_started\",\"session_id\":"@
            + jstr(session_id) + ",\"log_path\":"@ + jstr(log_path) + "}"@,
        ResponseModel::SessionList { sessions } => "{\"type\":\"session_list\",\"sessions\":"@
            + info_list_chars(sessions) + "}"@,
        ResponseModel::SessionStopped { session_id } => "{\"type\":\"session_stopped\",\"session_id\":"@
            + jstr(session_id) + "}"@,
        ResponseModel::LogChunk { session_id, data } => "{\"type\":\"log_chunk\",\"session_id\":"@
            + jstr(session_id) + ",\"data\":"@ + jstr(data) + "}"@,
        ResponseModel::Pong => "{\"type\":\"pong\"}"@,
        ResponseModel::Okay => "{\"type\":\"ok\"}"@,
        ResponseModel::Error { message } => "{\"type\":\"error\",\"message\":"@ + jstr(message)
            + "}"@,
    }
}

#[verifier::opaque]
pub open spec fn parse_info(s: Seq<char>) -> Option<(SessionInfoModel, Seq<char>)> {
    match parse_lit(s, "{\"id\":"@) {
        None => None,
        Some(r1) => match parse_jstr(r1) {
            None => None,
            Some((id, r2)) => match parse_lit(r2, ",\"working_dir\":"@) {
                None => None,
                Some(r3) => match parse_jstr(r3) {
                    None => None,
                    Some((wd, r4)) => match parse_lit(r4, ",\"created_at\":"@) {
                        None => None,
                        Some(r5) => match parse_jstr(r5) {
                            None => None,
                            Some((ca, r6)) => match parse_lit(r6, ",\"status\":"@) {
                                None => None,
                                Some(r7) => match parse_jstr(r7) {
                                    None => None,
                                    Some((st, r8)) => match parse_lit(r8, ",\"log_path\":"@) {
                                        None => None,
                                        Some(r9) => match parse_jstr(r9) {
                                            None => None,
                                            Some((lp, r10)) => match parse_lit(r10, "}"@) {
                                                None => None,
                                                Some(r11) => Some(
                                                    (
                                                        SessionInfoModel {
                                                            id,
                                                            working_dir: wd,
                                                            created_at: ca,
                                                            status: st,
                                                            log_path: lp,
                                                        },
                                                        r11,
                                                    ),
                                                ),
                                            },
                                        },
                                    },
                                },
                            },
                        },
                    },
                },
            },
        },
    }
}

pub open spec fn parse_infos(s: Seq<char>) -> Option<(Seq<SessionInfoModel>, Seq<char>)>
    decreases s.len(),
{
    match parse_info(s) {
        None => None,
        Some((i, r)) => if r.len() > 0 && r[0] == ',' {
            if r.len() < s.len() {
                match parse_infos(r.drop_first()) {
                    None => None,
                    Some((is, r2)) => Some((seq![i] + is, r2)),
                }
            } else {
                None
            }
        } else {
            Some((seq![i], r))
        },
    }
}

pub open spec fn parse_info_list(s: Seq<char>) -> Option<(Seq<SessionInfoModel>, Seq<char>)> {
    match parse_lit(s, "[]"@) {
        Some(r) => Some((Seq::empty(), r)),
        None => match parse_lit(s, "["@) {
            None => None,
            Some(r1) => match parse_infos(r1) {
                None => None,
                Some((is, r2)) => match parse_lit(r2, "]"@) {
                    None => None,
                    Some(r3) => Some((is, r3)),
                },
            },
        },
    }
}

pub open spec fn parse_resp(s: Seq<char>) -> Option<(ResponseModel, Seq<char>)> {
    if parse_lit(s, "{\"type\":\"session_started\",\"session_id\":"@) is Some {
        match parse_lit(s, "{\"type\":\"session_started\",\"session_id\":"@) {
            Some(r1) => match parse_jstr(r1) {
                None => None,
                Some((sid, r2)) => match parse_lit(r2, ",\"log_path\":"@) {
                    None => None,
                    Some(r3) => match parse_jstr(r3) {
                        None => None,
                        Some((lp, r4)) => match parse_lit(r4, "}"@) {
                            None => None,
                            Some(r5) => Some(
                                (ResponseModel::SessionStarted { session_id: sid, log_path: lp }, r5),
                            ),
                        },
                    },
                },
            },
            None => None,
        }
    } else if parse_lit(s, "{\"type\":\"session_list\",\"sessions\":"@) is Some {
        match parse_lit(s, "{\"type\":\"session_list\",\"sessions\":"@) {
            Some(r1) => match parse_info_list(r1) {
                None => None,
                Some((is, r2)) => match parse_lit(r2, "}"@) {
                    None => None,
                    Some(r3) => Some((ResponseModel::SessionList { sessions: is }, r3)),
                },
            },
            None => None,
        }
    } else if parse_lit(s, "{\"type\":\"session_stopped\",\"session_id\":"@) is Some {
        match parse_lit(s, "{\"type\":\"session_stopped\",\"session_id\":"@) {
            Some(r1) => match parse_jstr(r1) {
                None => None,
                Some((sid, r2)) => match parse_lit(r2, "}"@) {
                    None => None,
                    Some(r3) => Some((ResponseModel::SessionStopped { session_id: sid }, r3)),
                },
            },
            None => None,
        }
    } else if parse_lit(s, "{\"type\":\"log_chunk\",\"session_id\":"@) is Some {
        match parse_lit(s, "{\"type\":\"log_chunk\",\"session_id\":"@) {
            Some(r1) => match parse_jstr(r1) {
                None => None,
                Some((sid, r2)) => match parse_lit(r2, ",\"data\":"@) {
                    None => None,
                    Some(r3) => match parse_jstr(r3) {
                        None => None,
                        Some((data, r4)) => match parse_lit(r4, "}"@) {
                            None => None,
                            Some(r5) => Some(
                                (ResponseModel::LogChunk { session_id: sid, data }, r5),
                            ),
                        },
                    },
                },
            },
            None => None,
        }
    } else if parse_lit(s, "{\"type\":\"pong\"}"@) is Some {
        match parse_lit(s, "{\"type\":\"pong\"}"@) {
            Some(r1) => Some((ResponseModel::Pong, r1)),
            None => None,
        }
    } else if parse_lit(s, "{\"type\":\"ok\"}"@) is Some {
        match parse_lit(s, "{\"type\":\"ok\"}"@) {
            Some(r1) => Some((ResponseModel::Okay, r1)),
            None => None,
        }
    } else if parse_lit(s, "{\"type\":\"error\",\"message\":"@) is Some {
        match parse_lit(s, "{\"type\":\"error\",\"message\":"@) {
            Some(r1) => match parse_jstr(r1) {
                None => None,
                Some((msg, r2)) => match parse_lit(r2, "}"@) {
                    None => None,
                    Some(r3) => Some((ResponseModel::Error { message: msg }, r3)),
                },
            },
            None => None,
        }
    } else {
        None
    }
}

/// A whole line that is exactly one response.
pub open spec fn resp_of_chars(s: Seq<char>) -> Option<ResponseModel> {
    match parse_resp(s) {
        Some((q, r)) => if r.len() == 0 {
            Some(q)
        } else {
            None
        },
        None => None,
    }
}

// ---------------------------------------------------------------------
// Round trip: the reader inverts the writer
// ---------------------------------------------------------------------

/// Parsing the wire text of any request, with anything after it, gives
/// back the request and the rest: the request codec is lossless.
#[verifier::rlimit(100)]
pub proof fn lemma_parse_req_roundtrip(r: RequestModel, rest: Seq<char>)
    ensures
        parse_req(req_chars(r) + rest) == Some((r, rest)),
{
    reveal_strlit("{\"type\":\"start_session\",\"working_dir\":");
    reveal_strlit("{\"type\":\"list_sessions\"}");
    reveal_strlit("{\"type\":\"stop_session\",\"session_id\":");
    reveal_strlit("{\"type\":\"send_input\",\"session_id\":");
    reveal_strlit("{\"type\":\"attach_session\",\"session_id\":");
    reveal_strlit("{\"type\":\"ping\"}");
    reveal_strlit("{\"type\":\"shutdown\"}");
    reveal_strlit("}");
    reveal_strlit(",\"text\":");
    let s = req_chars(r) + rest;
    match r {
        RequestModel::StartSession { working_dir } => {
            let t2 = "}"@ + rest;
            let t1 = jstr(working_dir) + t2;
            assert(s =~= "{\"type\":\"start_session\",\"working_dir\":"@ + t1);
            crate::jtext::lemma_parse_lit_roundtrip(
                "{\"type\":\"start_session\",\"working_dir\":"@,
                t1,
            );
            crate::jtext::lemma_jstr_roundtrip(working_dir, t2);
            crate::jtext::lemma_parse_lit_roundtrip("}"@, rest);
        },
        RequestModel::ListSessions => {
            assert(s[9] == 'l');
            lemma_lit_refuted(s, "{\"type\":\"start_session\",\"working_dir\":"@, 9);
            assert(s =~= "{\"type\":\"list_sessions\"}"@ + rest);
            crate::jtext::lemma_parse_lit_roundtrip("{\"type\":\"list_sessions\"}"@, rest);
        },
        RequestModel::StopSession { session_id } => {
            assert(s[9] == 's' && s[10] == 't' && s[11] == 'o');
            lemma_lit_refuted(s, "{\"type\":\"start_session\",\"working_dir\":"@, 11);
            lemma_lit_refuted(s, "{\"type\":\"list_sessions\"}"@, 9);
            let t2 = "}"@ + rest;
            let t1 = jstr(session_id) + t2;
            assert(s =~= "{\"type\":\"stop_session\",\"session_id\":"@ + t1);
            crate::jtext::lemma_parse_lit_roundtrip(
                "{\"type\":\"stop_session\",\"session_id\":"@,
                t1,
            );
            crate::jtext::lemma_jstr_roundtrip(session_id, t2);
            crate::jtext::lemma_parse_lit_roundtrip("}"@, rest);
        },
        RequestModel::SendInput { session_id, text } => {
            assert(s[9] == 's' && s[10] == 'e');
            lemma_lit_refuted(s, "{\"type\":\"start_session\",\"working_dir\":"@, 10);
            lemma_lit_refuted(s, "{\"type\":\"list_sessions\"}"@, 9);
            lemma_lit_refuted(s, "{\"type\":\"stop_session\",\"session_id\":"@, 10);
            let t4 = "}"@ + rest;
            let t3 = jstr(text) + t4;
            let t2 = ",\"text\":"@ + t3;
            let t1 = jstr(session_id) + t2;
            assert(s =~= "{\"type\":\"send_input\",\"session_id\":"@ + t1);
            crate::jtext::lemma_parse_lit_roundtrip(
                "{\"type\":\"send_input\",\"session_id\":"@,
                t1,
            );
            crate::jtext::lemma_jstr_roundtrip(session_id, t2);
            crate::jtext::lemma_parse_lit_roundtrip(",\"text\":"@, t3);
            crate::jtext::lemma_jstr_roundtrip(text, t4);
            crate::jtext::lemma_parse_lit_roundtrip("}"@, rest);
        },
        RequestModel::AttachSession { session_id } => {
            assert(s[9] == 'a');
            lemma_lit_refuted(s, "{\"type\":\"start_session\",\"working_dir\":"@, 9);
            lemma_lit_refuted(s, "{\"type\":\"list_sessions\"}"@, 9);
            lemma_lit_refuted(s, "{\"type\":\"stop_session\",\"session_id\":"@, 9);
            lemma_lit_refuted(s, "{\"type\":\"send_input\",\"session_id\":"@, 9);
            let t2 = "}"@ + rest;
            let t1 = jstr(session_id) + t2;
            assert(s =~= "{\"type\":\"attach_session\",\"session_id\":"@ + t1);
            crate::jtext::lemma_parse_lit_roundtrip(
                "{\"type\":\"attach_session\",\"session_id\":"@,
                t1,
            );
            crate::jtext::lemma_jstr_roundtrip(session_id, t2);
            crate::jtext::lemma_parse_lit_roundtrip("}"@, rest);
        },
        RequestModel::Ping => {
            assert(s[9] == 'p');
            lemma_lit_refuted(s, "{\"type\":\"start_session\",\"working_dir\":"@, 9);
            lemma_lit_refuted(s, "{\"type\":\"list_sessions\"}"@, 9);
            lemma_lit_refuted(s, "{\"type\":\"stop_session\",\"session_id\":"@, 9);
            lemma_lit_refuted(s, "{\"type\":\"send_input\",\"session_id\":"@, 9);
            lemma_lit_refuted(s, "{\"type\":\"attach_session\",\"session_id\":"@, 9);
            assert(s =~= "{\"type\":\"ping\"}"@ + rest);
            crate::jtext::lemma_parse_lit_roundtrip("{\"type\":\"ping\"}"@, rest);
        },
        RequestModel::Shutdown => {
            assert(s[9] == 's' && s[10] == 'h');
            lemma_lit_refuted(s, "{\"type\":\"start_session\",\"working_dir\":"@, 10);
            lemma_lit_refuted(s, "{\"type\":\"list_sessions\"}"@, 9);
            lemma_lit_refuted(s, "{\"type\":\"stop_session\",\"session_id\":"@, 10);
            lemma_lit_refuted(s, "{\"type\":\"send_input\",\"session_id\":"@, 10);
            lemma_lit_refuted(s, "{\"type\":\"attach_session\",\"session_id\":"@, 9);
            lemma_lit_refuted(s, "{\"type\":\"ping\"}"@, 9);
            assert(s =~= "{\"type\":\"shutdown\"}"@ + rest);
            crate::jtext::lemma_parse_lit_roundtrip("{\"type\":\"shutdown\"}"@, rest);
        },
    }
}

/// A text whose character at `idx` differs from the literal's never
/// reads as that literal.
proof fn lemma_lit_refuted(s: Seq<char>, lit: Seq<char>, idx: int)
    requires
        0 <= idx < lit.len(),
        idx < s.len(),
        s[idx] != lit[idx],
    ensures
        parse_lit(s, lit) is None,
{
    if s.len() >= lit.len() {
        assert(s.take(lit.len() as int)[idx] == s[idx]);
    }
}

#[verifier::rlimit(100)]
proof fn lemma_parse_info_roundtrip(i: SessionInfoModel, rest: Seq<char>)
    ensures
        parse_info(info_chars(i) + rest) == Some((i, rest)),
        info_chars(i).len() > 0,
        info_chars(i)[0] == '{',
    decreases 0int,
{
    reveal(info_chars);
    reveal(parse_info);
    reveal_strlit("{\"id\":");
    let s = info_chars(i) + rest;
    let t10 = "}"@ + rest;
    let t9 = jstr(i.log_path) + t10;
    let t8 = ",\"log_path\":"@ + t9;
    let t7 = jstr(i.status) + t8;
    let t6 = ",\"status\":"@ + t7;
    let t5 = jstr(i.created_at) + t6;
    let t4 = ",\"created_at\":"@ + t5;
    let t3 = jstr(i.working_dir) + t4;
    let t2 = ",\"working_dir\":"@ + t3;
    let t1 = jstr(i.id) + t2;
    assert(s =~= "{\"id\":"@ + t1);
    crate::jtext::lemma_parse_lit_roundtrip("{\"id\":"@, t1);
    crate::jtext::lemma_jstr_roundtrip(i.id, t2);
    crate::jtext::lemma_parse_lit_roundtrip(",\"working_dir\":"@, t3);
    crate::jtext::lemma_jstr_roundtrip(i.working_dir, t4);
    crate::jtext::lemma_parse_lit_roundtrip(",\"created_at\":"@, t5);
    crate::jtext::lemma_jstr_roundtrip(i.created_at, t6);
    crate::jtext::lemma_parse_lit_roundtrip(",\"status\":"@, t7);
    crate::jtext::lemma_jstr_roundtrip(i.status, t8);
    crate::jtext::lemma_parse_lit_roundtrip(",\"log_path\":"@, t9);
    crate::jtext::lemma_jstr_roundtrip(i.log_path, t10);
    crate::jtext::lemma_parse_lit_roundtrip("}"@, rest);
}

proof fn lemma_parse_infos_roundtrip(infos: Seq<SessionInfoModel>, rest: Seq<char>)
    requires
        infos.len() >= 1,
        rest.len() > 0 ==> rest[0] != ',',
    ensures
        parse_infos(infos_chars(infos) + rest) == Some((infos, rest)),
    decreases infos.len(),
{
    let s = infos_chars(infos) + rest;
    if infos.len() == 1 {
        assert(s =~= info_chars(infos[0]) + rest);
        lemma_parse_info_roundtrip(infos[0], rest);
        assert(seq![infos[0]] =~= infos);
    } else {
        let more = seq![','] + infos_chars(infos.drop_first()) + rest;
        assert(s =~= info_chars(infos[0]) + more);
        lemma_parse_info_roundtrip(infos[0], more);
        assert(more[0] == ',');
        assert(info_chars(infos[0]).len() > 0);
        assert(more.len() < s.len());
        assert(more.drop_first() =~= infos_chars(infos.drop_first()) + rest);
        lemma_parse_infos_roundtrip(infos.drop_first(), rest);
        assert(seq![infos[0]] + infos.drop_first() =~= infos);
    }
}

proof fn lemma_parse_info_list_roundtrip(infos: Seq<SessionInfoModel>, rest: Seq<char>)
    requires
        rest.len() > 0 ==> rest[0] != ',',
    ensures
        parse_info_list(info_list_chars(infos) + rest) == Some((infos, rest)),
{
    reveal_strlit("[]");
    reveal_strlit("[");
    reveal_strlit("]");
    let s = info_list_chars(infos) + rest;
    if infos.len() == 0 {
        assert(s =~= "[]"@ + rest);
        crate::jtext::lemma_parse_lit_roundtrip("[]"@, rest);
    } else {
        lemma_parse_info_roundtrip(infos[0], Seq::empty());
        assert(infos_chars(infos)[0] == info_chars(infos[0])[0]);
        assert(infos_chars(infos)[0] == '{');
        assert(s[1] == '{');
        if s.len() >= 2 {
            assert(s.take(2)[1] == s[1]);
        }
        assert(parse_lit(s, "[]"@) is None);
        let t2 = "]"@ + rest;
        let t1 = infos_chars(infos) + t2;
        assert(s =~= "["@ + t1);
        crate::jtext::lemma_parse_lit_roundtrip("["@, t1);
        assert(t2[0] == ']');
        lemma_parse_infos_roundtrip(infos, t2);
        crate::jtext::lemma_parse_lit_roundtrip("]"@, rest);
    }
}

/// Parsing the wire text of any response, with anything after it,
/// gives back the response and the rest: the response codec is
/// lossless.
#[verifier::rlimit(100)]
pub proof fn lemma_parse_resp_roundtrip(r: ResponseModel, rest: Seq<char>)
    ensures
        parse_resp(resp_chars(r) + rest) == Some((r, rest)),
{
    reveal_strlit("{\"type\":\"session_started\",\"session_id\":");
    reveal_strlit("{\"type\":\"session_list\",\"sessions\":");
    reveal_strlit("{\"type\":\"session_stopped\",\"session_id\":");
    reveal_strlit("{\"type\":\"log_chunk\",\"session_id\":");
    reveal_strlit("{\"type\":\"pong\"}");
    reveal_strlit("{\"type\":\"ok\"}");
    reveal_strlit("{\"type\":\"error\",\"message\":");
    reveal_strlit(",\"log_path\":");
    reveal_strlit(",\"data\":");
    reveal_strlit("}");
    let s = resp_chars(r) + rest;
    match r {
        ResponseModel::SessionStarted { session_id, log_path } => {
            let t4 = "}"@ + rest;
            let t3 = jstr(log_path) + t4;
            let t2 = ",\"log_path\":"@ + t3;
            let t1 = jstr(session_id) + t2;
            assert(s =~= "{\"type\":\"session_started\",\"session_id\":"@ + t1);
            crate::jtext::lemma_parse_lit_roundtrip(
                "{\"type\":\"session_started\",\"session_id\":"@,
                t1,
            );
            crate::jtext::lemma_jstr_roundtrip(session_id, t2);
            crate::jtext::lemma_parse_lit_roundtrip(",\"log_path\":"@, t3);
            crate::jtext::lemma_jstr_roundtrip(log_path, t4);
            crate::jtext::lemma_parse_lit_roundtrip("}"@, rest);
        },
        ResponseModel::SessionList { sessions } => {
            assert(s[17] == 'l');
            lemma_lit_refuted(s, "{\"type\":\"session_started\",\"session_id\":"@, 17);
            let t2 = "}"@ + rest;
            let t1 = info_list_chars(sessions) + t2;
            assert(s =~= "{\"type\":\"session_list\",\"sessions\":"@ + t1);
            crate::jtext::lemma_parse_lit_roundtrip(
                "{\"type\":\"session_list\",\"sessions\":"@,
                t1,
            );
            assert(t2[0] == '}');
            lemma_parse_info_list_roundtrip(sessions, t2);
            crate::jtext::lemma_parse_lit_roundtrip("}"@, rest);
        },
        ResponseModel::SessionStopped { session_id } => {
            assert(s[17] == 's' && s[19] == 'o');
            lemma_lit_refuted(s, "{\"type\":\"session_started\",\"session_id\":"@, 19);
            lemma_lit_refuted(s, "{\"type\":\"session_list\",\"sessions\":"@, 17);
            let t2 = "}"@ + rest;
            let t1 = jstr(session_id) + t2;
            assert(s =~= "{\"type\":\"session_stopped\",\"session_id\":"@ + t1);
            crate::jtext::lemma_parse_lit_roundtrip(
                "{\"type\":\"session_stopped\",\"session_id\":"@,
                t1,
            );
            crate::jtext::lemma_jstr_roundtrip(session_id, t2);
            crate::jtext::lemma_parse_lit_roundtrip("}"@, rest);
        },
        ResponseModel::LogChunk { session_id, data } => {
            assert(s[9] == 'l');
            lemma_lit_refuted(s, "{\"type\":\"session_started\",\"session_id\":"@, 9);
            lemma_lit_refuted(s, "{\"type\":\"session_list\",\"sessions\":"@, 9);
            lemma_lit_refuted(s, "{\"type\":\"session_stopped\",\"session_id\":"@, 9);
            let t4 = "}"@ + rest;
            let t3 = jstr(data) + t4;
            let t2 = ",\"data\":"@ + t3;
            let t1 = jstr(session_id) + t2;
            assert(s =~= "{\"type\":\"log_chunk\",\"session_id\":"@ + t1);
            crate::jtext::lemma_parse_lit_roundtrip(
                "{\"type\":\"log_chunk\",\"session_id\":"@,
                t1,
            );
            crate::jtext::lemma_jstr_roundtrip(session_id, t2);
            crate::jtext::lemma_parse_lit_roundtrip(",\"data\":"@, t3);
            crate::jtext::lemma_jstr_roundtrip(data, t4);
            crate::jtext::lemma_parse_lit_roundtrip("}"@, rest);
        },
        ResponseModel::Pong => {
            assert(s[9] == 'p');
            lemma_lit_refuted(s, "{\"type\":\"session_started\",\"session_id\":"@, 9);
            lemma_lit_refuted(s, "{\"type\":\"session_list\",\"sessions\":"@, 9);
            lemma_lit_refuted(s, "{\"type\":\"session_stopped\",\"session_id\":"@, 9);
            lemma_lit_refuted(s, "{\"type\":\"log_chunk\",\"session_id\":"@, 9);
            assert(s =~= "{\"type\":\"pong\"}"@ + rest);
            crate::jtext::lemma_parse_lit_roundtrip("{\"type\":\"pong\"}"@, rest);
        },
        ResponseModel::Okay => {
            assert(s[9] == 'o');
            lemma_lit_refuted(s, "{\"type\":\"session_started\",\"session_id\":"@, 9);
            lemma_lit_refuted(s, "{\"type\":\"session_list\",\"sessions\":"@, 9);
            lemma_lit_refuted(s, "{\"type\":\"session_stopped\",\"session_id\":"@, 9);
            lemma_lit_refuted(s, "{\"type\":\"log_chunk\",\"session_id\":"@, 9);
            lemma_lit_refuted(s, "{\"type\":\"pong\"}"@, 9);
            assert(s =~= "{\"type\":\"ok\"}"@ + rest);
            crate::jtext::lemma_parse_lit_roundtrip("{\"type\":\"ok\"}"@, rest);
        },
        ResponseModel::Error { message } => {
            assert(s[9] == 'e');
            lemma_lit_refuted(s, "{\"type\":\"session_started\",\"session_id\":"@, 9);
            lemma_lit_refuted(s, "{\"type\":\"session_list\",\"sessions\":"@, 9);
            lemma_lit_refuted(s, "{\"type\":\"session_stopped\",\"session_id\":"@, 9);
            lemma_lit_refuted(s, "{\"type\":\"log_chunk\",\"session_id\":"@, 9);
            lemma_lit_refuted(s, "{\"type\":\"pong\"}"@, 9);
            lemma_lit_refuted(s, "{\"type\":\"ok\"}"@, 9);
            let t2 = "}"@ + rest;
            let t1 = jstr(message) + t2;
            assert(s =~= "{\"type\":\"error\",\"message\":"@ + t1);
            crate::jtext::lemma_parse_lit_roundtrip("{\"type\":\"error\",\"message\":"@, t1);
            crate::jtext::lemma_jstr_roundtrip(message, t2);
            crate::jtext::lemma_parse_lit_roundtrip("}"@, rest);
        },
    }
}

/// A whole encoded response line reads back as exactly that response.
pub proof fn lemma_resp_line_roundtrip(r: ResponseModel)
    ensures
        resp_of_chars(resp_chars(r)) == Some(r),
{
    lemma_parse_resp_roundtrip(r, Seq::empty());
    assert(resp_chars(r) + Seq::<char>::empty() =~= resp_chars(r));
}

/// A whole encoded request line reads back as exactly that request.
pub proof fn lemma_req_line_roundtrip(r: RequestModel)
    ensures
        req_of_chars(req_chars(r)) == Some(r),
{
    lemma_parse_req_roundtrip(r, Seq::empty());
    assert(req_chars(r) + Seq::<char>::empty() =~= req_chars(r));
}

// ---------------------------------------------------------------------
// Writing the wire text
// ---------------------------------------------------------------------

/// One request as a wire line, newline not included.
pub fn encode_request(r: &Request) -> (out: String)
    ensures
        out@ == req_chars(r@),
{
    let mut out = String::new();
    match r {
        Request::StartSession { working_dir } => {
            out.append("{\"type\":\"start_session\",\"working_dir\":");
            push_jstr(&mut out, working_dir.as_str());
            out.append("}");
            assert(out@ =~= req_chars(r@));
        },
        Request::ListSessions => {
            out.append("{\"type\":\"list_sessions\"}");
            assert(out@ =~= req_chars(r@));
        },
        Request::StopSession { session_id } => {
            out.append("{\"type\":\"stop_session\",\"session_id\":");
            push_jstr(&mut out, session_id.as_str());
            out.append("}");
            assert(out@ =~= req_chars(r@));
        },
        Request::SendInput { session_id, text } => {
            out.append("{\"type\":\"send_input\",\"session_id\":");
            push_jstr(&mut out, session_id.as_str());
            out.append(",\"text\":");
            push_jstr(&mut out, text.as_str());
            out.append("}");
            assert(out@ =~= req_chars(r@));
        },
        Request::AttachSession { session_id } => {
            out.append("{\"type\":\"attach_session\",\"session_id\":");
            push_jstr(&mut out, session_id.as_str());
            out.append("}");
            assert(out@ =~= req_chars(r@));
        },
        Request::Ping => {
            out.append("{\"type\":\"ping\"}");
            assert(out@ =~= req_chars(r@));
        },
        Request::Shutdown => {
            out.append("{\"type\":\"shutdown\"}");
            assert(out@ =~= req_chars(r@));
        },
    }
    out
}

fn push_info(out: &mut String, i: &SessionInfo)
    ensures
        final(out)@ == old(out)@ + info_chars(i@),
{
    proof {
        reveal(info_chars);
    }
    out.append("{\"id\":");
    push_jstr(out, i.id.as_str());
    out.append(",\"working_dir\":");
    push_jstr(out, i.working_dir.as_str());
    out.append(",\"created_at\":");
    push_jstr(out, i.created_at.as_str());
    out.append(",\"status\":");
    push_jstr(out, i.status.as_str());
    out.append(",\"log_path\":");
    push_jstr(out, i.log_path.as_str());
    out.append("}");
    assert(final(out)@ =~= old(out)@ + info_chars(i@));
}

proof fn lemma_infos_snoc(infos: Seq<SessionInfoModel>, i: SessionInfoModel)
    requires
        infos.len() >= 1,
    ensures
        infos_chars(infos.push(i)) == infos_chars(infos) + seq![','] + info_chars(i),
    decreases infos.len(),
{
    let w = infos.push(i);
    if infos.len() == 1 {
        assert(w[0] == infos[0]);
        assert(w.drop_first() =~= seq![i]);
        assert(infos_chars(seq![i]) == info_chars(i));
    } else {
        assert(w[0] == infos[0]);
        assert(w.drop_first() =~= infos.drop_first().push(i));
        lemma_infos_snoc(infos.drop_first(), i);
        assert(info_chars(w[0]) + seq![','] + (infos_chars(infos.drop_first()) + seq![',']
            + info_chars(i)) =~= (info_chars(infos[0]) + seq![','] + infos_chars(
            infos.drop_first(),
        )) + seq![','] + info_chars(i));
    }
}

fn push_info_list(out: &mut String, infos: &Vec<SessionInfo>)
    ensures
        final(out)@ == old(out)@ + info_list_chars(infos@.map_values(|i: SessionInfo| i@)),
{
    let ghost ms = infos@.map_values(|i: SessionInfo| i@);
    out.push('[');
    let mut k: usize = 0;
    while k < infos.len()
        invariant
            0 <= k <= infos@.len(),
            ms == infos@.map_values(|i: SessionInfo| i@),
            ms.len() == infos@.len(),
            out@ == old(out)@ + seq!['['] + infos_chars(ms.take(k as int)),
        decreases infos@.len() - k,
    {
        proof {
            assert(ms[k as int] == infos@[k as int]@);
        }
        if k > 0 {
            out.push(',');
        }
        push_info(out, &infos[k]);
        proof {
            let t = ms.take(k as int);
            assert(ms.take(k as int + 1) =~= t.push(ms[k as int]));
            if k == 0 {
                assert(infos_chars(seq![ms[0]]) == info_chars(ms[0]));
                assert(out@ =~= old(out)@ + seq!['['] + infos_chars(ms.take(1)));
            } else {
                lemma_infos_snoc(t, ms[k as int]);
                assert(out@ =~= old(out)@ + seq!['['] + infos_chars(ms.take(k as int + 1)));
            }
        }
        k = k + 1;
    }
    out.push(']');
    proof {
        assert(ms.take(ms.len() as int) =~= ms);
        assert(final(out)@ =~= old(out)@ + info_list_chars(ms));
    }
}

/// One response as a wire line, newline not included.
pub fn encode_response(r: &Response) -> (out: String)
    ensures
        out@ == resp_chars(r@),
{
    let mut out = String::new();
    match r {
        Response::SessionStarted { session_id, log_path } => {
            out.append("{\"type\":\"session_started\",\"session_id\":");
            push_jstr(&mut out, session_id.as_str());
            out.append(",\"log_path\":");
            push_jstr(&mut out, log_path.as_str());
            out.append("}");
            assert(out@ =~= resp_chars(r@));
        },
        Response::SessionList { sessions } => {
            out.append("{\"type\":\"session_list\",\"sessions\":");
            push_info_list(&mut out, sessions);
            out.append("}");
            assert(out@ =~= resp_chars(r@));
        },
        Response::SessionStopped { session_id } => {
            out.append("{\"type\":\"session_stopped\",\"session_id\":");
            push_jstr(&mut out, session_id.as_str());
            out.append("}");
            assert(out@ =~= resp_chars(r@));
        },
        Response::LogChunk { session_id, data } => {
            out.append("{\"type\":\"log_chunk\",\"session_id\":");
            push_jstr(&mut out, session_id.as_str());
            out.append(",\"data\":");
            push_jstr(&mut out, data.as_str());
            out.append("}");
            assert(out@ =~= resp_chars(r@));
        },
        Response::Pong => {
            out.append("{\"type\":\"pong\"}");
            assert(out@ =~= resp_chars(r@));
        },
        Response::Okay => {
            out.append("{\"type\":\"ok\"}");
            assert(out@ =~= resp_chars(r@));
        },
        Response::Error { message } => {
            out.append("{\"type\":\"error\",\"message\":");
            push_jstr(&mut out, message.as_str());
            out.append("}");
            assert(out@ =~= resp_chars(r@));
        },
    }
    out
}

// ---------------------------------------------------------------------
// Reading the wire text
// ---------------------------------------------------------------------

/// Reads one whole request line; anything else is malformed.
#[verifier::rlimit(60)]
pub fn parse_request(line: &str) -> (r: Option<Request>)
    ensures
        match r {
            Some(q) => req_of_chars(line@) == Some(q@),
            None => req_of_chars(line@) is None,
        },
{
    let v = str_chars(line);
    assert(v@.skip(0) =~= line@);
    let p = parse_req_at(&v, 0);
    match p {
        Some((q, j)) => {
            if j == v.len() {
                assert(v@.skip(j as int).len() == 0);
                Some(q)
            } else {
                assert(v@.skip(j as int).len() > 0);
                None
            }
        },
        None => None,
    }
}

#[verifier::rlimit(100)]
fn parse_req_at(s: &Vec<char>, i: usize) -> (r: Option<(Request, usize)>)
    requires
        i <= s@.len(),
    ensures
        match r {
            Some(p) => i <= p.1 <= s@.len() && parse_req(s@.skip(i as int)) == Some(
                (p.0@, s@.skip(p.1 as int)),
            ),
            None => parse_req(s@.skip(i as int)) is None,
        },
{
    if let Some(j1) = parse_lit_at(s, i, "{\"type\":\"start_session\",\"working_dir\":") {
        match parse_jstr_at(s, j1) {
            None => None,
            Some((wd, j2)) => match parse_lit_at(s, j2, "}") {
                None => None,
                Some(j3) => Some((Request::StartSession { working_dir: wd }, j3)),
            },
        }
    } else if let Some(j1) = parse_lit_at(s, i, "{\"type\":\"list_sessions\"}") {
        Some((Request::ListSessions, j1))
    } else if let Some(j1) = parse_lit_at(s, i, "{\"type\":\"stop_session\",\"session_id\":") {
        match parse_jstr_at(s, j1) {
            None => None,
            Some((sid, j2)) => match parse_lit_at(s, j2, "}") {
                None => None,
                Some(j3) => Some((Request::StopSession { session_id: sid }, j3)),
            },
        }
    } else if let Some(j1) = parse_lit_at(s, i, "{\"type\":\"send_input\",\"session_id\":") {
        match parse_jstr_at(s, j1) {
            None => None,
            Some((sid, j2)) => match parse_lit_at(s, j2, ",\"text\":") {
                None => None,
                Some(j3) => match parse_jstr_at(s, j3) {
                    None => None,
                    Some((text, j4)) => match parse_lit_at(s, j4, "}") {
                        None => None,
                        Some(j5) => Some((Request::SendInput { session_id: sid, text }, j5)),
                    },
                },
            },
        }
    } else if let Some(j1) = parse_lit_at(s, i, "{\"type\":\"attach_session\",\"session_id\":") {
        match parse_jstr_at(s, j1) {
            None => None,
            Some((sid, j2)) => match parse_lit_at(s, j2, "}") {
                None => None,
                Some(j3) => Some((Request::AttachSession { session_id: sid }, j3)),
            },
        }
    } else if let Some(j1) = parse_lit_at(s, i, "{\"type\":\"ping\"}") {
        Some((Request::Ping, j1))
    } else if let Some(j1) = parse_lit_at(s, i, "{\"type\":\"shutdown\"}") {
        Some((Request::Shutdown, j1))
    } else {
        None
    }
}

#[verifier::rlimit(100)]
fn parse_info_at(s: &Vec<char>, i: usize) -> (r: Option<(SessionInfo, usize)>)
    requires
        i <= s@.len(),
    ensures
        match r {
            Some(p) => i < p.1 <= s@.len() && parse_info(s@.skip(i as int)) == Some(
                (p.0@, s@.skip(p.1 as int)),
            ),
            None => parse_info(s@.skip(i as int)) is None,
        },
{
    proof {
        reveal(parse_info);
    }
    match parse_lit_at(s, i, "{\"id\":") {
        None => None,
        Some(j1) => match parse_jstr_at(s, j1) {
            None => None,
            Some((id, j2)) => match parse_lit_at(s, j2, ",\"working_dir\":") {
                None => None,
                Some(j3) => match parse_jstr_at(s, j3) {
                    None => None,
                    Some((wd, j4)) => match parse_lit_at(s, j4, ",\"created_at\":") {
                        None => None,
                        Some(j5) => match parse_jstr_at(s, j5) {
                            None => None,
                            Some((ca, j6)) => match parse_lit_at(s, j6, ",\"status\":") {
                                None => None,
                                Some(j7) => match parse_jstr_at(s, j7) {
                                    None => None,
                                    Some((st, j8)) => match parse_lit_at(s, j8, ",\"log_path\":") {
                                        None => None,
                                        Some(j9) => match parse_jstr_at(s, j9) {
                                            None => None,
                                            Some((lp, j10)) => match parse_lit_at(s, j10, "}") {
                                                None => None,
                                                Some(j11) => Some(
                                                    (
                                                        SessionInfo {
                                                            id,
                                                            working_dir: wd,
                                                            created_at: ca,
                                                            status: st,
                                                            log_path: lp,
                                                        },
                                                        j11,
                                                    ),
                                                ),
                                            },
                                        },
                                    },
                                },
                            },
                        },
                    },
                },
            },
        },
    }
}

fn parse_infos_at(s: &Vec<char>, i: usize) -> (r: Option<(Vec<SessionInfo>, usize)>)
    requires
        i <= s@.len(),
    ensures
        match r {
            Some(p) => i <= p.1 <= s@.len() && parse_infos(s@.skip(i as int)) == Some(
                (p.0@.map_values(|x: SessionInfo| x@), s@.skip(p.1 as int)),
            ),
            None => parse_infos(s@.skip(i as int)) is None,
        },
{
    let mut acc: Vec<SessionInfo> = Vec::new();
    let mut p: usize = i;
    loop
        invariant
            i <= p <= s@.len(),
            parse_infos(s@.skip(i as int)) == match parse_infos(s@.skip(p as int)) {
                Some(q) => Some((acc@.map_values(|x: SessionInfo| x@) + q.0, q.1)),
                None => None,
            },
        decreases s@.len() - p,
    {
        let e = parse_info_at(s, p);
        match e {
            None => {
                return None;
            },
            Some((info, j)) => {
                let ghost im = info@;
                let ghost f = |x: SessionInfo| x@;
                if j < s.len() && s[j] == ',' {
                    proof {
                        let rseq = s@.skip(j as int);
                        assert(rseq[0] == s@[j as int]);
                        assert(rseq.len() < s@.skip(p as int).len());
                        assert(rseq.drop_first() =~= s@.skip(j as int + 1));
                    }
                    acc.push(info);
                    proof {
                        assert(acc@.map_values(f) =~= acc@.drop_last().map_values(f).push(im));
                        match parse_infos(s@.skip(j as int + 1)) {
                            Some(q) => {
                                assert(acc@.drop_last().map_values(f) + (seq![im] + q.0)
                                    =~= acc@.map_values(f) + q.0);
                            },
                            None => {},
                        }
                    }
                    p = j + 1;
                } else {
                    proof {
                        let rseq = s@.skip(j as int);
                        if j < s@.len() {
                            assert(rseq[0] == s@[j as int]);
                        }
                        assert(!(rseq.len() > 0 && rseq[0] == ','));
                    }
                    acc.push(info);
                    proof {
                        assert(acc@.map_values(f) =~= acc@.drop_last().map_values(f).push(im));
                        assert(acc@.drop_last().map_values(f) + seq![im] =~= acc@.map_values(f));
                    }
                    return Some((acc, j));
                }
            },
        }
    }
}

fn parse_info_list_at(s: &Vec<char>, i: usize) -> (r: Option<(Vec<SessionInfo>, usize)>)
    requires
        i <= s@.len(),
    ensures
        match r {
            Some(p) => i <= p.1 <= s@.len() && parse_info_list(s@.skip(i as int)) == Some(
                (p.0@.map_values(|x: SessionInfo| x@), s@.skip(p.1 as int)),
            ),
            None => parse_info_list(s@.skip(i as int)) is None,
        },
{
    match parse_lit_at(s, i, "[]") {
        Some(j) => {
            let empty: Vec<SessionInfo> = Vec::new();
            proof {
                assert(empty@.map_values(|x: SessionInfo| x@) =~= Seq::<SessionInfoModel>::empty());
            }
            Some((empty, j))
        },
        None => match parse_lit_at(s, i, "[") {
            None => None,
            Some(j1) => match parse_infos_at(s, j1) {
                None => None,
                Some((is, j2)) => match parse_lit_at(s, j2, "]") {
                    None => None,
                    Some(j3) => Some((is, j3)),
                },
            },
        },
    }
}

/// Reads one whole response line; anything else is malformed.
#[verifier::rlimit(60)]
pub fn parse_response(line: &str) -> (r: Option<Response>)
    ensures
        match r {
            Some(q) => resp_of_chars(line@) == Some(q@),
            None => resp_of_chars(line@) is None,
        },
{
    let v = str_chars(line);
    assert(v@.skip(0) =~= line@);
    let p = parse_resp_at(&v, 0);
    match p {
        Some((q, j)) => {
            if j == v.len() {
                assert(v@.skip(j as int).len() == 0);
                Some(q)
            } else {
                assert(v@.skip(j as int).len() > 0);
                None
            }
        },
        None => None,
    }
}

#[verifier::rlimit(100)]
fn parse_resp_at(s: &Vec<char>, i: usize) -> (r: Option<(Response, usize)>)
    requires
        i <= s@.len(),
    ensures
        match r {
            Some(p) => i <= p.1 <= s@.len() && parse_resp(s@.skip(i as int)) == Some(
                (p.0@, s@.skip(p.1 as int)),
            ),
            None => parse_resp(s@.skip(i as int)) is None,
        },
{
    if let Some(j1) = parse_lit_at(s, i, "{\"type\":\"session_started\",\"session_id\":") {
        match parse_jstr_at(s, j1) {
            None => None,
            Some((sid, j2)) => match parse_lit_at(s, j2, ",\"log_path\":") {
                None => None,
                Some(j3) => match parse_jstr_at(s, j3) {
                    None => None,
                    Some((lp, j4)) => match parse_lit_at(s, j4, "}") {
                        None => None,
                        Some(j5) => Some(
                            (Response::SessionStarted { session_id: sid, log_path: lp }, j5),
                        ),
                    },
                },
            },
        }
    } else if let Some(j1) = parse_lit_at(s, i, "{\"type\":\"session_list\",\"sessions\":") {
        match parse_info_list_at(s, j1) {
            None => None,
            Some((is, j2)) => match parse_lit_at(s, j2, "}") {
                None => None,
                Some(j3) => Some((Response::SessionList { sessions: is }, j3)),
            },
        }
    } else if let Some(j1) = parse_lit_at(s, i, "{\"type\":\"session_stopped\",\"session_id\":") {
        match parse_jstr_at(s, j1) {
            None => None,
            Some((sid, j2)) => match parse_lit_at(s, j2, "}") {
                None => None,
                Some(j3) => Some((Response::SessionStopped { session_id: sid }, j3)),
            },
        }
    } else if let Some(j1) = parse_lit_at(s, i, "{\"type\":\"log_chunk\",\"session_id\":") {
        match parse_jstr_at(s, j1) {
            None => None,
            Some((sid, j2)) => match parse_lit_at(s, j2, ",\"data\":") {
                None => None,
                Some(j3) => match parse_jstr_at(s, j3) {
                    None => None,
                    Some((data, j4)) => match parse_lit_at(s, j4, "}") {
                        None => None,
                        Some(j5) => Some((Response::LogChunk { session_id: sid, data }, j5)),
                    },
                },
            },
        }
    } else if let Some(j1) = parse_lit_at(s, i, "{\"type\":\"pong\"}") {
        Some((Response::Pong, j1))
    } else if let Some(j1) = parse_lit_at(s, i, "{\"type\":\"ok\"}") {
        Some((Response::Okay, j1))
    } else if let Some(j1) = parse_lit_at(s, i, "{\"type\":\"error\",\"message\":") {
        match parse_jstr_at(s, j1) {
            None => None,
            Some((msg, j2)) => match parse_lit_at(s, j2, "}") {
                None => None,
                Some(j3) => Some((Response::Error { message: msg }, j3)),
            },
        }
    } else {
        None
    }
}

} // verus!
