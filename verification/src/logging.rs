//! Per-session logs: structured, timestamped, directioned entries, one
//! JSON object per line, appended to a file named by the session id.
//! Payload bytes go through a reversible base64 transform, since
//! interactive output can hold arbitrary control sequences. Writing the
//! line to the file happens outside; this module produces and reads the
//! lines themselves.

use vstd::prelude::*;
use vstd::string::*;
use crate::boundary::{b64_of, b64_decode_of, b64_encode, b64_decode, now_rfc3339};
use crate::ids::{uuid_chars, uuid_string};
use crate::jtext::{jstr, parse_jstr, parse_lit, push_jstr, parse_jstr_at, parse_lit_at};
use crate::numfmt::{dec_of, parse_u64, push_dec, parse_u64_at};
use crate::session::log_path_chars;

verus! {

/// Which way the bytes flowed: into the agent's terminal, or out of it.
#[derive(Clone, Copy, Debug, PartialEq, Eq, Structural)]
pub enum Direction {
    Input,
    Output,
}

impl Direction {
    pub open spec fn chars(self) -> Seq<char> {
        match self {
            Direction::Input => "input"@,
            Direction::Output => "output"@,
        }
    }

    /// The direction as it is written on the wire.
    pub fn as_str(&self) -> (r: &'static str)
        ensures
            r@ == self.chars(),
    {
        match self {
            Direction::Input => "input",
            Direction::Output => "output",
        }
    }
}

/// One captured exchange with the agent's terminal.
#[derive(Clone, Debug)]
pub struct LogEntry {
    /// When the entry was made, as an RFC 3339 UTC string.
    pub timestamp: String,
    /// The session the bytes belong to, in text form.
    pub session_id: String,
    /// Which way the bytes flowed.
    pub direction: Direction,
    /// The raw bytes.
    pub data: Vec<u8>,
    /// How many bytes.
    pub size: u64,
}

/// The mathematical shape of a log entry.
pub struct LogEntryModel {
    pub timestamp: Seq<char>,
    pub session_id: Seq<char>,
    pub direction: Direction,
    pub data: Seq<u8>,
    pub size: u64,
}

impl View for LogEntry {
    type V = LogEntryModel;

    open spec fn view(&self) -> LogEntryModel {
        LogEntryModel {
            timestamp: self.timestamp@,
            session_id: self.session_id@,
            direction: self.direction,
            data: self.data@,
            size: self.size,
        }
    }
}

impl LogEntry {
    /// An entry for a session with the given timestamp; its size is
    /// the byte count of the payload.
    pub fn new_at(
        session_id: u128,
        direction: Direction,
        data: Vec<u8>,
        timestamp: String,
    ) -> (r: LogEntry)
        ensures
            r@ == (LogEntryModel {
                timestamp: timestamp@,
                session_id: uuid_chars(session_id),
                direction,
                data: data@,
                size: data@.len() as u64,
            }),
            r@.size == data@.len(),
    {
        let size = data.len() as u64;
        LogEntry { timestamp, session_id: uuid_string(session_id), direction, data, size }
    }

    /// A fresh entry for a session, stamped with the current time.
    pub fn new(session_id: u128, direction: Direction, data: Vec<u8>) -> (r: LogEntry)
        ensures
            r@.session_id == uuid_chars(session_id),
            r@.direction == direction,
            r@.data == data@,
            r@.size == data@.len(),
    {
        let timestamp = now_rfc3339();
        LogEntry::new_at(session_id, direction, data, timestamp)
    }
}

/// The payload bytes in their text-safe form.
pub fn serialize(data: &[u8]) -> (r: String)
    ensures
        r@ == b64_of(data@),
        b64_decode_of(r@) == Some(data@),
{
    b64_encode(data)
}

/// The bytes a text-safe payload stands for, if it is well formed.
pub fn deserialize(text: &str) -> (r: Option<Vec<u8>>)
    ensures
        match r {
            Some(v) => b64_decode_of(text@) == Some(v@),
            None => b64_decode_of(text@) is None,
        },
{
    b64_decode(text)
}

pub open spec fn quoted_dir_chars(d: Direction) -> Seq<char> {
    seq!['"'] + d.chars() + seq!['"']
}

/// One log line, newline not included. The payload stands as the JSON
/// string of its base64 text.
pub open spec fn log_line_chars(e: LogEntryModel) -> Seq<char> {
    "{\"timestamp\":"@ + jstr(e.timestamp) + ",\"session_id\":"@ + jstr(e.session_id)
        + ",\"direction\":"@ + quoted_dir_chars(e.direction) + ",\"data\":"@ + jstr(b64_of(e.data))
        + ",\"size\":"@ + dec_of(e.size as nat) + "}"@
}

pub open spec fn parse_direction(s: Seq<char>) -> Option<(Direction, Seq<char>)> {
    match parse_lit(s, "\"input\""@) {
        Some(r) => Some((Direction::Input, r)),
        None => match parse_lit(s, "\"output\""@) {
            Some(r) => Some((Direction::Output, r)),
            None => None,
        },
    }
}

/// Reads one log line. The data field must be well-formed base64; the
/// size field must be the written number.
pub open spec fn parse_log_line(s: Seq<char>) -> Option<(LogEntryModel, Seq<char>)> {
    match parse_lit(s, "{\"timestamp\":"@) {
        None => None,
        Some(r1) => match parse_jstr(r1) {
            None => None,
            Some((ts, r2)) => match parse_lit(r2, ",\"session_id\":"@) {
                None => None,
                Some(r3) => match parse_jstr(r3) {
                    None => None,
                    Some((sid, r4)) => match parse_lit(r4, ",\"direction\":"@) {
                        None => None,
                        Some(r5) => match parse_direction(r5) {
                            None => None,
                            Some((dir, r6)) => match parse_lit(r6, ",\"data\":"@) {
                                None => None,
                                Some(r7) => match parse_jstr(r7) {
                                    None => None,
                                    Some((b64text, r8)) => match b64_decode_of(b64text) {
                                        None => None,
                                        Some(bytes) => match parse_lit(r8, ",\"size\":"@) {
                                            None => None,
                                            Some(r9) => match parse_u64(r9) {
                                                None => None,
                                                Some((size, r10)) => match parse_lit(r10, "}"@) {
                                                    None => None,
                                                    Some(r11) => Some(
                                                        (
                                                            LogEntryModel {
                                                                timestamp: ts,
                                                                session_id: sid,
                                                                direction: dir,
                                                                data: bytes,
                                                                size,
                                                            },
                                                            r11,
                                                        ),
                                                    ),
                                                },
                                            },
                                        },
                                    },
                                },
                            },
                        },
                    },
                },
            },
        },
    }
}

/// A whole line that is exactly one log entry.
pub open spec fn log_line_of_chars(s: Seq<char>) -> Option<LogEntryModel> {
    match parse_log_line(s) {
        Some((e, r)) => if r.len() == 0 {
            Some(e)
        } else {
            None
        },
        None => None,
    }
}

pub proof fn lemma_parse_direction_roundtrip(d: Direction, rest: Seq<char>)
    ensures
        parse_direction(quoted_dir_chars(d) + rest) == Some((d, rest)),
{
    reveal_strlit("input");
    reveal_strlit("output");
    reveal_strlit("\"input\"");
    reveal_strlit("\"output\"");
    let s = quoted_dir_chars(d) + rest;
    match d {
        Direction::Input => {
            assert(s =~= "\"input\""@ + rest);
            crate::jtext::lemma_parse_lit_roundtrip("\"input\""@, rest);
        },
        Direction::Output => {
            assert(s[1] == 'o');
            if s.len() >= 7 {
                assert(s.take(7)[1] == s[1]);
            }
            assert(parse_lit(s, "\"input\""@) is None);
            assert(s =~= "\"output\""@ + rest);
            crate::jtext::lemma_parse_lit_roundtrip("\"output\""@, rest);
        },
    }
}

/// A written log line reads back as the same entry, for any entry whose
/// payload the text-safe transform inverts — which the line writer
/// promises of every line it produces — and whose size is below the
/// nineteen-digit ceiling of the number reader.
#[verifier::rlimit(100)]
pub proof fn lemma_log_line_roundtrip(e: LogEntryModel, rest: Seq<char>)
    requires
        b64_decode_of(b64_of(e.data)) == Some(e.data),
        (e.size as nat) < crate::numfmt::pow10(19),
    ensures
        parse_log_line(log_line_chars(e) + rest) == Some((e, rest)),
{
    reveal_strlit(",\"size\":");
    reveal_strlit("}");
    let s = log_line_chars(e) + rest;
    let t8 = "}"@ + rest;
    let t7 = dec_of(e.size as nat) + t8;
    let t6 = ",\"size\":"@ + t7;
    let t5 = jstr(b64_of(e.data)) + t6;
    let t4 = ",\"data\":"@ + t5;
    let t3 = quoted_dir_chars(e.direction) + t4;
    let t2 = ",\"direction\":"@ + t3;
    let t1 = jstr(e.session_id) + t2;
    let t0 = ",\"session_id\":"@ + t1;
    let ts = jstr(e.timestamp) + t0;
    assert(s =~= "{\"timestamp\":"@ + ts);
    crate::jtext::lemma_parse_lit_roundtrip("{\"timestamp\":"@, ts);
    crate::jtext::lemma_jstr_roundtrip(e.timestamp, t0);
    crate::jtext::lemma_parse_lit_roundtrip(",\"session_id\":"@, t1);
    crate::jtext::lemma_jstr_roundtrip(e.session_id, t2);
    crate::jtext::lemma_parse_lit_roundtrip(",\"direction\":"@, t3);
    lemma_parse_direction_roundtrip(e.direction, t4);
    crate::jtext::lemma_parse_lit_roundtrip(",\"data\":"@, t5);
    crate::jtext::lemma_jstr_roundtrip(b64_of(e.data), t6);
    crate::jtext::lemma_parse_lit_roundtrip(",\"size\":"@, t7);
    assert(t8[0] == '}');
    assert(!crate::numfmt::is_digit('}'));
    crate::numfmt::lemma_parse_u64_roundtrip(e.size, t8);
    crate::jtext::lemma_parse_lit_roundtrip("}"@, rest);
}

/// One entry as a log line, newline not included.
pub fn encode_log_line(e: &LogEntry) -> (out: String)
    ensures
        out@ == log_line_chars(e@),
        b64_decode_of(b64_of(e@.data)) == Some(e@.data),
{
    let mut out = String::new();
    out.append("{\"timestamp\":");
    push_jstr(&mut out, e.timestamp.as_str());
    out.append(",\"session_id\":");
    push_jstr(&mut out, e.session_id.as_str());
    out.append(",\"direction\":");
    out.push('"');
    out.append(e.direction.as_str());
    out.push('"');
    out.append(",\"data\":");
    let b64 = serialize(e.data.as_slice());
    push_jstr(&mut out, b64.as_str());
    out.append(",\"size\":");
    push_dec(&mut out, e.size);
    out.append("}");
    assert(out@ =~= log_line_chars(e@));
    out
}

fn parse_direction_at(s: &Vec<char>, i: usize) -> (r: Option<(Direction, usize)>)
    requires
        i <= s@.len(),
    ensures
        match r {
            Some(p) => i <= p.1 <= s@.len() && parse_direction(s@.skip(i as int)) == Some(
                (p.0, s@.skip(p.1 as int)),
            ),
            None => parse_direction(s@.skip(i as int)) is None,
        },
{
    match parse_lit_at(s, i, "\"input\"") {
        Some(j) => Some((Direction::Input, j)),
        None => match parse_lit_at(s, i, "\"output\"") {
            Some(j) => Some((Direction::Output, j)),
            None => None,
        },
    }
}

/// Reads one whole log line; anything else is malformed.
#[verifier::rlimit(100)]
pub fn parse_log_entry(line: &str) -> (r: Option<LogEntry>)
    ensures
        match r {
            Some(e) => log_line_of_chars(line@) == Some(e@),
            None => log_line_of_chars(line@) is None,
        },
{
    let v = crate::text::str_chars(line);
    assert(v@.skip(0) =~= line@);
    let p = parse_log_line_at(&v, 0);
    match p {
        Some((e, j)) => {
            if j == v.len() {
                assert(v@.skip(j as int).len() == 0);
                Some(e)
            } else {
                assert(v@.skip(j as int).len() > 0);
                None
            }
        },
        None => None,
    }
}

#[verifier::rlimit(100)]
fn parse_log_line_at(s: &Vec<char>, i: usize) -> (r: Option<(LogEntry, usize)>)
    requires
        i <= s@.len(),
    ensures
        match r {
            Some(p) => i <= p.1 <= s@.len() && parse_log_line(s@.skip(i as int)) == Some(
                (p.0@, s@.skip(p.1 as int)),
            ),
            None => parse_log_line(s@.skip(i as int)) is None,
        },
{
    match parse_lit_at(s, i, "{\"timestamp\":") {
        None => None,
        Some(j1) => match parse_jstr_at(s, j1) {
            None => None,
            Some((ts, j2)) => match parse_lit_at(s, j2, ",\"session_id\":") {
                None => None,
                Some(j3) => match parse_jstr_at(s, j3) {
                    None => None,
                    Some((sid, j4)) => match parse_lit_at(s, j4, ",\"direction\":") {
                        None => None,
                        Some(j5) => match parse_direction_at(s, j5) {
                            None => None,
                            Some((dir, j6)) => match parse_lit_at(s, j6, ",\"data\":") {
                                None => None,
                                Some(j7) => match parse_jstr_at(s, j7) {
                                    None => None,
                                    Some((b64text, j8)) => match deserialize(b64text.as_str()) {
                                        None => None,
                                        Some(bytes) => match parse_lit_at(s, j8, ",\"size\":") {
                                            None => None,
                                            Some(j9) => match parse_u64_at(s, j9) {
                                                None => None,
                                                Some((size, j10)) => match parse_lit_at(
                                                    s,
                                                    j10,
                                                    "}",
                                                ) {
                                                    None => None,
                                                    Some(j11) => Some(
                                                        (
                                                            LogEntry {
                                                                timestamp: ts,
                                                                session_id: sid,
                                                                direction: dir,
                                                                data: bytes,
                                                                size,
                                                            },
                                                            j11,
                                                        ),
                                                    ),
                                                },
                                            },
                                        },
                                    },
                                },
                            },
                        },
                    },
                },
            },
        },
    }
}

/// Writes log lines for one session. The file itself is appended to
/// outside; the logger names the file and produces each line.
pub struct SessionLogger {
    pub session_id: u128,
    pub log_path: String,
}

impl SessionLogger {
    /// A logger for a session, with its log file under `home`, named
    /// by the session id.
    pub fn new(session_id: u128, home: &str) -> (r: SessionLogger)
        ensures
            r.session_id == session_id,
            r.log_path@ == log_path_chars(home@, session_id),
    {
        let log_path = crate::session::log_path_for_session(home, session_id);
        SessionLogger { session_id, log_path }
    }

    /// One log line for an exchange, stamped with the current time:
    /// what the caller must append to the log file, newline added,
    /// flushed at once so a live tail shows it promptly.
    pub fn log(&self, direction: Direction, data: Vec<u8>) -> (line: String)
        ensures
            exists|ts: Seq<char>|
                line@ == #[trigger] log_line_chars(
                    (LogEntryModel {
                        timestamp: ts,
                        session_id: uuid_chars(self.session_id),
                        direction,
                        data: data@,
                        size: data@.len() as u64,
                    }),
                ),
    {
        let ghost d = data@;
        let entry = LogEntry::new(self.session_id, direction, data);
        let line = encode_log_line(&entry);
        proof {
            assert(entry@.size == d.len() as u64);
            assert(line@ == log_line_chars(
                LogEntryModel {
                    timestamp: entry@.timestamp,
                    session_id: uuid_chars(self.session_id),
                    direction,
                    data: d,
                    size: d.len() as u64,
                },
            ));
        }
        line
    }

    /// The path of this session's log file.
    pub fn log_path(&self) -> (r: &String)
        ensures
            r@ == self.log_path@,
    {
        &self.log_path
    }
}

} // verus!
