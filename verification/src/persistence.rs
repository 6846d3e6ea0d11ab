//! Durable session metadata: the state file's format, written and read
//! back exactly. The file is a JSON object mapping each session id in
//! text form to its record; the daemon is the sole writer, so the reader
//! accepts precisely what the writer produces. A missing or unreadable
//! file never stops startup: it loads as the empty table.

use vstd::prelude::*;
use vstd::string::*;
use crate::ids::{uuid_chars, parse_uuid_chars, push_uuid, parse_uuid_at};
use crate::jtext::{
    jstr, parse_jstr, parse_lit, push_jstr, parse_jstr_at, parse_lit_at,
    lemma_parse_lit_roundtrip, lemma_jstr_roundtrip,
};
use crate::numfmt::{
    dec_of, parse_u64, is_digit, pow10, push_dec, parse_u64_at, lemma_val_of_dec_of,
    lemma_parse_u64_roundtrip,
};
use crate::session::{Session, SessionModel, SessionStatus};

verus! {

/// A session record as it is kept on disk. The recorded pid may be
/// stale — the process may have died or the pid been reused — so it is
/// never trusted without a liveness probe.
#[derive(Clone, Debug)]
pub struct PersistedSession {
    pub id: u128,
    pub working_dir: String,
    pub created_at: String,
    pub log_path: String,
    pub pid: Option<u32>,
    pub status: SessionStatus,
}

/// The mathematical shape of a persisted record.
pub struct PersistedModel {
    pub id: u128,
    pub working_dir: Seq<char>,
    pub created_at: Seq<char>,
    pub log_path: Seq<char>,
    pub pid: Option<u32>,
    pub status: SessionStatus,
}

impl View for PersistedSession {
    type V = PersistedModel;

    open spec fn view(&self) -> PersistedModel {
        PersistedModel {
            id: self.id,
            working_dir: self.working_dir@,
            created_at: self.created_at@,
            log_path: self.log_path@,
            pid: self.pid,
            status: self.status,
        }
    }
}

/// What `from_session` records: the session's fields, the given pid,
/// and the `Running` status.
pub open spec fn persist_model(s: SessionModel, pid: Option<u32>) -> PersistedModel {
    PersistedModel {
        id: s.id,
        working_dir: s.working_dir,
        created_at: s.created_at,
        log_path: s.log_path,
        pid,
        status: SessionStatus::Running,
    }
}

impl PersistedSession {
    /// A durable record for a live session, in the `Running` state.
    pub fn from_session(session: &Session, pid: Option<u32>) -> (r: PersistedSession)
        ensures
            r@ == persist_model(session@, pid),
    {
        PersistedSession {
            id: session.id,
            working_dir: session.working_dir.clone(),
            created_at: session.created_at.clone(),
            log_path: session.log_path.clone(),
            pid,
            status: SessionStatus::Running,
        }
    }
}

/// The record views of a vector of records.
pub open spec fn models_of(s: Seq<PersistedSession>) -> Seq<PersistedModel> {
    s.map_values(|p: PersistedSession| p@)
}

/// No two records share an id.
pub open spec fn ids_distinct(ps: Seq<PersistedModel>) -> bool {
    forall|i: int, j: int| 0 <= i < j < ps.len() ==> (#[trigger] ps[i]).id != (#[trigger] ps[j]).id
}

// ---------------------------------------------------------------------
// The state text
// ---------------------------------------------------------------------

pub open spec fn quoted_uuid_chars(id: u128) -> Seq<char> {
    seq!['"'] + uuid_chars(id) + seq!['"']
}

pub open spec fn quoted_status_chars(st: SessionStatus) -> Seq<char> {
    seq!['"'] + st.chars() + seq!['"']
}

pub open spec fn pid_chars(pid: Option<u32>) -> Seq<char> {
    match pid {
        None => "null"@,
        Some(n) => dec_of(n as nat),
    }
}

pub open spec fn rec_head_chars(p: PersistedModel) -> Seq<char> {
    "{\"id\":"@ + quoted_uuid_chars(p.id) + ",\"working_dir\":"@ + jstr(p.working_dir)
        + ",\"created_at\":"@ + jstr(p.created_at)
}

pub open spec fn rec_tail_chars(p: PersistedModel) -> Seq<char> {
    ",\"log_path\":"@ + jstr(p.log_path) + ",\"pid\":"@ + pid_chars(p.pid) + ",\"status\":"@
        + quoted_status_chars(p.status) + "}"@
}

/// One record, written as a JSON object with a fixed field order.
pub open spec fn rec_chars(p: PersistedModel) -> Seq<char> {
    rec_head_chars(p) + rec_tail_chars(p)
}

/// One map entry: the id in text form as the key, then the record.
pub open spec fn entry_chars(p: PersistedModel) -> Seq<char> {
    quoted_uuid_chars(p.id) + ":"@ + rec_chars(p)
}

/// The entries, comma separated.
pub open spec fn entries_chars(ps: Seq<PersistedModel>) -> Seq<char>
    decreases ps.len(),
{
    if ps.len() == 0 {
        Seq::empty()
    } else if ps.len() == 1 {
        entry_chars(ps[0])
    } else {
        entry_chars(ps[0]) + seq![','] + entries_chars(ps.drop_first())
    }
}

/// The whole state file.
pub open spec fn state_chars(ps: Seq<PersistedModel>) -> Seq<char> {
    if ps.len() == 0 {
        "{}"@
    } else {
        seq!['{'] + entries_chars(ps) + seq!['}']
    }
}

// ---------------------------------------------------------------------
// Reading the state text
// ---------------------------------------------------------------------

pub open spec fn parse_quoted_uuid(s: Seq<char>) -> Option<(u128, Seq<char>)> {
    match parse_lit(s, "\""@) {
        None => None,
        Some(r1) => match parse_uuid_chars(r1) {
            None => None,
            Some((id, r2)) => match parse_lit(r2, "\""@) {
                None => None,
                Some(r3) => Some((id, r3)),
            },
        },
    }
}

pub open spec fn parse_pid(s: Seq<char>) -> Option<(Option<u32>, Seq<char>)> {
    match parse_lit(s, "null"@) {
        Some(r) => Some((None, r)),
        None => match parse_u64(s) {
            Some((v, r)) => if v <= u32::MAX {
                Some((Some(v as u32), r))
            } else {
                None
            },
            None => None,
        },
    }
}

pub open spec fn parse_status(s: Seq<char>) -> Option<(SessionStatus, Seq<char>)> {
    match parse_lit(s, "\"running\""@) {
        Some(r) => Some((SessionStatus::Running, r)),
        None => match parse_lit(s, "\"stopped\""@) {
            Some(r) => Some((SessionStatus::Stopped, r)),
            None => match parse_lit(s, "\"crashed\""@) {
                Some(r) => Some((SessionStatus::Crashed, r)),
                None => match parse_lit(s, "\"stale\""@) {
                    Some(r) => Some((SessionStatus::Stale, r)),
                    None => match parse_lit(s, "\"orphaned\""@) {
                        Some(r) => Some((SessionStatus::Orphaned, r)),
                        None => None,
                    },
                },
            },
        },
    }
}

pub open spec fn parse_rec_tail(s: Seq<char>) -> Option<((Seq<char>, Option<u32>, SessionStatus), Seq<char>)> {
    match parse_lit(s, ",\"log_path\":"@) {
        None => None,
        Some(r7) => match parse_jstr(r7) {
            None => None,
            Some((lp, r8)) => match parse_lit(r8, ",\"pid\":"@) {
                None => None,
                Some(r9) => match parse_pid(r9) {
                    None => None,
                    Some((pid, r10)) => match parse_lit(r10, ",\"status\":"@) {
                        None => None,
                        Some(r11) => match parse_status(r11) {
                            None => None,
                            Some((st, r12)) => match parse_lit(r12, "}"@) {
                                None => None,
                                Some(r13) => Some(((lp, pid, st), r13)),
                            },
                        },
                    },
                },
            },
        },
    }
}

#[verifier::opaque]
pub open spec fn parse_rec(s: Seq<char>) -> Option<(PersistedModel, Seq<char>)> {
    match parse_lit(s, "{\"id\":"@) {
        None => None,
        Some(r1) => match parse_quoted_uuid(r1) {
            None => None,
            Some((id, r2)) => match parse_lit(r2, ",\"working_dir\":"@) {
                None => None,
                Some(r3) => match parse_jstr(r3) {
                    None => None,
                    Some((wd, r4)) => match parse_lit(r4, ",\"created_at\":"@) {
                        None => None,
                        Some(r5) => match parse_jstr(r5) {
                            None => None,
                            Some((ca, r6)) => match parse_rec_tail(r6) {
                                None => None,
                                Some(((lp, pid, st), r13)) => Some(
                                    (
                                        PersistedModel {
                                            id,
                                            working_dir: wd,
                                            created_at: ca,
                                            log_path: lp,
                                            pid,
                                            status: st,
                                        },
                                        r13,
                                    ),
                                ),
                            },
                        },
                    },
                },
            },
        },
    }
}

pub open spec fn parse_entry(s: Seq<char>) -> Option<(PersistedModel, Seq<char>)> {
    match parse_quoted_uuid(s) {
        None => None,
        Some((id, r1)) => match parse_lit(r1, ":"@) {
            None => None,
            Some(r2) => match parse_rec(r2) {
                None => None,
                Some((p, r3)) => if p.id == id {
                    Some((p, r3))
                } else {
                    None
                },
            },
        },
    }
}

pub open spec fn parse_entries(s: Seq<char>) -> Option<(Seq<PersistedModel>, Seq<char>)>
    decreases s.len(),
{
    match parse_entry(s) {
        None => None,
        Some((p, r)) => if r.len() > 0 && r[0] == ',' {
            if r.len() < s.len() {
                match parse_entries(r.drop_first()) {
                    None => None,
                    Some((ps, r2)) => Some((seq![p] + ps, r2)),
                }
            } else {
                None
            }
        } else {
            Some((seq![p], r))
        },
    }
}

pub open spec fn parse_state(s: Seq<char>) -> Option<(Seq<PersistedModel>, Seq<char>)> {
    match parse_lit(s, "{}"@) {
        Some(r) => Some((Seq::empty(), r)),
        None => match parse_lit(s, "{"@) {
            None => None,
            Some(r1) => match parse_entries(r1) {
                None => None,
                Some((ps, r2)) => match parse_lit(r2, "}"@) {
                    None => None,
                    Some(r3) => Some((ps, r3)),
                },
            },
        },
    }
}

/// A whole state text, nothing before or after the object.
pub open spec fn state_doc_of(content: Seq<char>) -> Option<Seq<PersistedModel>> {
    match parse_state(content) {
        Some((ps, r)) => if r.len() == 0 {
            Some(ps)
        } else {
            None
        },
        None => None,
    }
}

/// What loading makes of the file: a missing file is the empty table,
/// and so is any content that is not exactly a well-formed state text
/// with pairwise distinct ids.
pub open spec fn load_spec(content: Option<Seq<char>>) -> Seq<PersistedModel> {
    match content {
        None => Seq::empty(),
        Some(text) => match state_doc_of(text) {
            Some(ps) => if ids_distinct(ps) {
                ps
            } else {
                Seq::empty()
            },
            None => Seq::empty(),
        },
    }
}

// ---------------------------------------------------------------------
// Round trip: the reader inverts the writer
// ---------------------------------------------------------------------

pub proof fn lemma_parse_quoted_uuid_roundtrip(id: u128, rest: Seq<char>)
    ensures
        parse_quoted_uuid(quoted_uuid_chars(id) + rest) == Some((id, rest)),
{
    reveal_strlit("\"");
    let q = seq!['"'];
    assert("\""@ =~= q);
    let s = quoted_uuid_chars(id) + rest;
    let t1 = uuid_chars(id) + q + rest;
    assert(s =~= "\""@ + t1);
    lemma_parse_lit_roundtrip("\""@, t1);
    let t2 = q + rest;
    assert(t1 =~= uuid_chars(id) + t2);
    crate::ids::lemma_uuid_roundtrip(id, t2);
    assert(t2 =~= "\""@ + rest);
    lemma_parse_lit_roundtrip("\""@, rest);
}

pub proof fn lemma_parse_pid_roundtrip(pid: Option<u32>, rest: Seq<char>)
    requires
        rest.len() > 0 ==> !is_digit(rest[0]),
    ensures
        parse_pid(pid_chars(pid) + rest) == Some((pid, rest)),
{
    reveal_strlit("null");
    let s = pid_chars(pid) + rest;
    match pid {
        None => {
            assert(s =~= "null"@ + rest);
            lemma_parse_lit_roundtrip("null"@, rest);
        },
        Some(n) => {
            lemma_val_of_dec_of(n as nat);
            let d = dec_of(n as nat);
            assert(s[0] == d[0]);
            assert(is_digit(d[0]));
            assert(d[0] != 'n');
            if s.len() >= 4 {
                assert(s.take(4)[0] == s[0]);
                assert(s.take(4) != "null"@);
            }
            assert(parse_lit(s, "null"@) is None);
            assert((n as u64) < pow10(19)) by {
                reveal_with_fuel(pow10, 21);
            }
            lemma_parse_u64_roundtrip(n as u64, rest);
            assert((n as u64) as u32 == n);
        },
    }
}

pub proof fn lemma_parse_status_roundtrip(st: SessionStatus, rest: Seq<char>)
    ensures
        parse_status(quoted_status_chars(st) + rest) == Some((st, rest)),
{
    reveal_strlit("running");
    reveal_strlit("stopped");
    reveal_strlit("crashed");
    reveal_strlit("stale");
    reveal_strlit("orphaned");
    reveal_strlit("\"running\"");
    reveal_strlit("\"stopped\"");
    reveal_strlit("\"crashed\"");
    reveal_strlit("\"stale\"");
    reveal_strlit("\"orphaned\"");
    let s = quoted_status_chars(st) + rest;
    match st {
        SessionStatus::Running => {
            assert(s =~= "\"running\""@ + rest);
            lemma_parse_lit_roundtrip("\"running\""@, rest);
        },
        SessionStatus::Stopped => {
            assert(s[1] == 's');
            if s.len() >= 9 {
                assert(s.take(9)[1] == s[1]);
            }
            assert(parse_lit(s, "\"running\""@) is None);
            assert(s =~= "\"stopped\""@ + rest);
            lemma_parse_lit_roundtrip("\"stopped\""@, rest);
        },
        SessionStatus::Crashed => {
            assert(s[1] == 'c');
            if s.len() >= 9 {
                assert(s.take(9)[1] == s[1]);
            }
            assert(parse_lit(s, "\"running\""@) is None);
            assert(parse_lit(s, "\"stopped\""@) is None);
            assert(s =~= "\"crashed\""@ + rest);
            lemma_parse_lit_roundtrip("\"crashed\""@, rest);
        },
        SessionStatus::Stale => {
            assert(s[1] == 's' && s[3] == 'a');
            if s.len() >= 9 {
                assert(s.take(9)[1] == s[1]);
                assert(s.take(9)[3] == s[3]);
            }
            assert(parse_lit(s, "\"running\""@) is None);
            assert(parse_lit(s, "\"stopped\""@) is None);
            assert(parse_lit(s, "\"crashed\""@) is None);
            assert(s =~= "\"stale\""@ + rest);
            lemma_parse_lit_roundtrip("\"stale\""@, rest);
        },
        SessionStatus::Orphaned => {
            assert(s[1] == 'o');
            if s.len() >= 9 {
                assert(s.take(9)[1] == s[1]);
            }
            if s.len() >= 7 {
                assert(s.take(7)[1] == s[1]);
            }
            assert(parse_lit(s, "\"running\""@) is None);
            assert(parse_lit(s, "\"stopped\""@) is None);
            assert(parse_lit(s, "\"crashed\""@) is None);
            assert(parse_lit(s, "\"stale\""@) is None);
            assert(s =~= "\"orphaned\""@ + rest);
            lemma_parse_lit_roundtrip("\"orphaned\""@, rest);
        },
    }
}

pub proof fn lemma_parse_rec_tail_roundtrip(p: PersistedModel, rest: Seq<char>)
    ensures
        parse_rec_tail(rec_tail_chars(p) + rest) == Some(((p.log_path, p.pid, p.status), rest)),
{
    let s = rec_tail_chars(p) + rest;
    let t7 = jstr(p.log_path) + ",\"pid\":"@ + pid_chars(p.pid) + ",\"status\":"@
        + quoted_status_chars(p.status) + "}"@ + rest;
    assert(s =~= ",\"log_path\":"@ + t7);
    lemma_parse_lit_roundtrip(",\"log_path\":"@, t7);
    let t8 = ",\"pid\":"@ + pid_chars(p.pid) + ",\"status\":"@ + quoted_status_chars(p.status)
        + "}"@ + rest;
    assert(t7 =~= jstr(p.log_path) + t8);
    lemma_jstr_roundtrip(p.log_path, t8);
    let t9 = pid_chars(p.pid) + ",\"status\":"@ + quoted_status_chars(p.status) + "}"@ + rest;
    assert(t8 =~= ",\"pid\":"@ + t9);
    lemma_parse_lit_roundtrip(",\"pid\":"@, t9);
    let t10 = ",\"status\":"@ + quoted_status_chars(p.status) + "}"@ + rest;
    assert(t9 =~= pid_chars(p.pid) + t10);
    reveal_strlit(",\"status\":");
    assert(t10.len() > 0 && t10[0] == ',');
    assert(!is_digit(','));
    lemma_parse_pid_roundtrip(p.pid, t10);
    let t11 = quoted_status_chars(p.status) + "}"@ + rest;
    assert(t10 =~= ",\"status\":"@ + t11);
    lemma_parse_lit_roundtrip(",\"status\":"@, t11);
    let t12 = "}"@ + rest;
    assert(t11 =~= quoted_status_chars(p.status) + t12);
    lemma_parse_status_roundtrip(p.status, t12);
    lemma_parse_lit_roundtrip("}"@, rest);
}

pub proof fn lemma_parse_rec_roundtrip(p: PersistedModel, rest: Seq<char>)
    ensures
        parse_rec(rec_chars(p) + rest) == Some((p, rest)),
{
    reveal(parse_rec);
    let s = rec_chars(p) + rest;
    let t6 = rec_tail_chars(p) + rest;
    let t5 = jstr(p.created_at) + t6;
    let t4 = ",\"created_at\":"@ + t5;
    let t3 = jstr(p.working_dir) + t4;
    let t2 = ",\"working_dir\":"@ + t3;
    let t1 = quoted_uuid_chars(p.id) + t2;
    assert(s =~= "{\"id\":"@ + t1);
    lemma_parse_lit_roundtrip("{\"id\":"@, t1);
    lemma_parse_quoted_uuid_roundtrip(p.id, t2);
    lemma_parse_lit_roundtrip(",\"working_dir\":"@, t3);
    lemma_jstr_roundtrip(p.working_dir, t4);
    lemma_parse_lit_roundtrip(",\"created_at\":"@, t5);
    lemma_jstr_roundtrip(p.created_at, t6);
    lemma_parse_rec_tail_roundtrip(p, rest);
}

#[verifier::rlimit(100)]
pub proof fn lemma_parse_entry_roundtrip(p: PersistedModel, rest: Seq<char>)
    ensures
        parse_entry(entry_chars(p) + rest) == Some((p, rest)),
{
    let s = entry_chars(p) + rest;
    let t1 = ":"@ + rec_chars(p) + rest;
    assert(s =~= quoted_uuid_chars(p.id) + t1);
    lemma_parse_quoted_uuid_roundtrip(p.id, t1);
    let t2 = rec_chars(p) + rest;
    assert(t1 =~= ":"@ + t2);
    lemma_parse_lit_roundtrip(":"@, t2);
    lemma_parse_rec_roundtrip(p, rest);
}

#[verifier::rlimit(100)]
pub proof fn lemma_parse_entries_roundtrip(ps: Seq<PersistedModel>, rest: Seq<char>)
    requires
        ps.len() >= 1,
        rest.len() > 0 ==> rest[0] != ',',
    ensures
        parse_entries(entries_chars(ps) + rest) == Some((ps, rest)),
    decreases ps.len(),
{
    let s = entries_chars(ps) + rest;
    if ps.len() == 1 {
        assert(s =~= entry_chars(ps[0]) + rest);
        lemma_parse_entry_roundtrip(ps[0], rest);
        assert(seq![ps[0]] =~= ps);
    } else {
        let more = seq![','] + entries_chars(ps.drop_first()) + rest;
        assert(s =~= entry_chars(ps[0]) + more);
        lemma_parse_entry_roundtrip(ps[0], more);
        assert(more[0] == ',');
        assert(entry_chars(ps[0]).len() > 0);
        assert(more.len() < s.len());
        assert(more.drop_first() =~= entries_chars(ps.drop_first()) + rest);
        lemma_parse_entries_roundtrip(ps.drop_first(), rest);
        assert(seq![ps[0]] + ps.drop_first() =~= ps);
    }
}

pub proof fn lemma_parse_state_roundtrip(ps: Seq<PersistedModel>, rest: Seq<char>)
    requires
        rest.len() > 0 ==> rest[0] != ',',
    ensures
        parse_state(state_chars(ps) + rest) == Some((ps, rest)),
{
    reveal_strlit("{}");
    reveal_strlit("{");
    reveal_strlit("}");
    let s = state_chars(ps) + rest;
    if ps.len() == 0 {
        assert(s =~= "{}"@ + rest);
        lemma_parse_lit_roundtrip("{}"@, rest);
    } else {
        // the object is not empty, so its second character is the
        // opening quote of the first key, never the closing brace
        assert(entries_chars(ps)[0] == '"') by {
            assert(entries_chars(ps)[0] == entry_chars(ps[0])[0]);
            assert(entry_chars(ps[0])[0] == quoted_uuid_chars(ps[0].id)[0]);
        }
        assert(s[1] == '"');
        if s.len() >= 2 {
            assert(s.take(2)[1] == s[1]);
        }
        assert(parse_lit(s, "{}"@) is None);
        let t1 = entries_chars(ps) + "}"@ + rest;
        assert(s =~= "{"@ + t1);
        lemma_parse_lit_roundtrip("{"@, t1);
        let t2 = "}"@ + rest;
        assert(t1 =~= entries_chars(ps) + t2);
        assert(t2[0] == '}');
        lemma_parse_entries_roundtrip(ps, t2);
        lemma_parse_lit_roundtrip("}"@, rest);
    }
}

/// Round trip: the state text written for any table of records, with
/// pairwise distinct ids, loads back as exactly those records — the
/// optional pid field included.
pub proof fn lemma_write_load_roundtrip(ps: Seq<PersistedModel>)
    requires
        ids_distinct(ps),
    ensures
        load_spec(Some(state_chars(ps))) == ps,
{
    lemma_parse_state_roundtrip(ps, Seq::empty());
    assert(state_chars(ps) + Seq::<char>::empty() =~= state_chars(ps));
}

// ---------------------------------------------------------------------
// Writing the state text
// ---------------------------------------------------------------------

fn push_rec_head(out: &mut String, p: &PersistedSession)
    ensures
        final(out)@ == old(out)@ + rec_head_chars(p@),
{
    out.append("{\"id\":");
    out.push('"');
    push_uuid(out, p.id);
    out.push('"');
    out.append(",\"working_dir\":");
    push_jstr(out, p.working_dir.as_str());
    out.append(",\"created_at\":");
    push_jstr(out, p.created_at.as_str());
    assert(final(out)@ =~= old(out)@ + rec_head_chars(p@));
}

fn push_rec_tail(out: &mut String, p: &PersistedSession)
    ensures
        final(out)@ == old(out)@ + rec_tail_chars(p@),
{
    out.append(",\"log_path\":");
    push_jstr(out, p.log_path.as_str());
    out.append(",\"pid\":");
    match p.pid {
        None => out.append("null"),
        Some(n) => push_dec(out, n as u64),
    }
    out.append(",\"status\":");
    out.push('"');
    out.append(p.status.as_str());
    out.push('"');
    out.append("}");
    assert(final(out)@ =~= old(out)@ + rec_tail_chars(p@));
}

/// Appends one record in its on-disk form.
pub fn push_rec(out: &mut String, p: &PersistedSession)
    ensures
        final(out)@ == old(out)@ + rec_chars(p@),
{
    push_rec_head(out, p);
    push_rec_tail(out, p);
    assert(final(out)@ =~= old(out)@ + rec_chars(p@));
}

/// Appends one map entry: quoted id, colon, record.
pub fn push_entry(out: &mut String, p: &PersistedSession)
    ensures
        final(out)@ == old(out)@ + entry_chars(p@),
{
    out.push('"');
    push_uuid(out, p.id);
    out.push('"');
    out.append(":");
    push_rec(out, p);
    assert(final(out)@ =~= old(out)@ + entry_chars(p@));
}

proof fn lemma_entries_snoc(ps: Seq<PersistedModel>, p: PersistedModel)
    requires
        ps.len() >= 1,
    ensures
        entries_chars(ps.push(p)) == entries_chars(ps) + seq![','] + entry_chars(p),
    decreases ps.len(),
{
    let w = ps.push(p);
    if ps.len() == 1 {
        assert(w.len() == 2);
        assert(w[0] == ps[0]);
        assert(w.drop_first() =~= seq![p]);
        assert(entries_chars(seq![p]) == entry_chars(p));
    } else {
        assert(w[0] == ps[0]);
        assert(w.drop_first() =~= ps.drop_first().push(p));
        lemma_entries_snoc(ps.drop_first(), p);
        assert(entry_chars(w[0]) + seq![','] + (entries_chars(ps.drop_first()) + seq![',']
            + entry_chars(p)) =~= (entry_chars(ps[0]) + seq![','] + entries_chars(
            ps.drop_first(),
        )) + seq![','] + entry_chars(p));
    }
}

/// The whole state text for a table of records.
pub fn write_state_text(sessions: &Vec<PersistedSession>) -> (r: String)
    ensures
        r@ == state_chars(models_of(sessions@)),
{
    let ghost ms = models_of(sessions@);
    let mut out = String::new();
    if sessions.len() == 0 {
        out.append("{}");
        assert(out@ =~= "{}"@);
        return out;
    }
    out.push('{');
    let mut i: usize = 0;
    while i < sessions.len()
        invariant
            0 <= i <= sessions@.len(),
            ms == models_of(sessions@),
            ms.len() == sessions@.len(),
            out@ == seq!['{'] + entries_chars(ms.take(i as int)),
        decreases sessions@.len() - i,
    {
        proof {
            assert(ms[i as int] == sessions@[i as int]@);
        }
        if i > 0 {
            out.push(',');
        }
        push_entry(&mut out, &sessions[i]);
        proof {
            let t = ms.take(i as int);
            assert(ms.take(i as int + 1) =~= t.push(ms[i as int]));
            if i == 0 {
                assert(t.len() == 0);
                assert(entries_chars(seq![ms[0]]) == entry_chars(ms[0]));
                assert(out@ =~= seq!['{'] + entries_chars(ms.take(1)));
            } else {
                lemma_entries_snoc(t, ms[i as int]);
                assert(out@ =~= seq!['{'] + entries_chars(ms.take(i as int + 1)));
            }
        }
        i = i + 1;
    }
    out.push('}');
    proof {
        assert(ms.take(ms.len() as int) =~= ms);
        assert(out@ =~= state_chars(ms));
    }
    out
}

// ---------------------------------------------------------------------
// Reading the state text, executably
// ---------------------------------------------------------------------

fn parse_quoted_uuid_at(s: &Vec<char>, i: usize) -> (r: Option<(u128, usize)>)
    requires
        i <= s@.len(),
    ensures
        match r {
            Some(p) => i < p.1 <= s@.len() && parse_quoted_uuid(s@.skip(i as int)) == Some(
                (p.0, s@.skip(p.1 as int)),
            ),
            None => parse_quoted_uuid(s@.skip(i as int)) is None,
        },
{
    match parse_lit_at(s, i, "\"") {
        None => None,
        Some(j1) => match parse_uuid_at(s, j1) {
            None => None,
            Some((id, j2)) => match parse_lit_at(s, j2, "\"") {
                None => None,
                Some(j3) => {
                    proof {
                        reveal_strlit("\"");
                    }
                    Some((id, j3))
                },
            },
        },
    }
}

fn parse_pid_at(s: &Vec<char>, i: usize) -> (r: Option<(Option<u32>, usize)>)
    requires
        i <= s@.len(),
    ensures
        match r {
            Some(p) => i <= p.1 <= s@.len() && parse_pid(s@.skip(i as int)) == Some(
                (p.0, s@.skip(p.1 as int)),
            ),
            None => parse_pid(s@.skip(i as int)) is None,
        },
{
    match parse_lit_at(s, i, "null") {
        Some(j) => Some((None, j)),
        None => match parse_u64_at(s, i) {
            Some((v, j)) => if v <= 0xffffffff {
                Some((Some(v as u32), j))
            } else {
                None
            },
            None => None,
        },
    }
}

fn parse_status_at(s: &Vec<char>, i: usize) -> (r: Option<(SessionStatus, usize)>)
    requires
        i <= s@.len(),
    ensures
        match r {
            Some(p) => i <= p.1 <= s@.len() && parse_status(s@.skip(i as int)) == Some(
                (p.0, s@.skip(p.1 as int)),
            ),
            None => parse_status(s@.skip(i as int)) is None,
        },
{
    match parse_lit_at(s, i, "\"running\"") {
        Some(j) => Some((SessionStatus::Running, j)),
        None => match parse_lit_at(s, i, "\"stopped\"") {
            Some(j) => Some((SessionStatus::Stopped, j)),
            None => match parse_lit_at(s, i, "\"crashed\"") {
                Some(j) => Some((SessionStatus::Crashed, j)),
                None => match parse_lit_at(s, i, "\"stale\"") {
                    Some(j) => Some((SessionStatus::Stale, j)),
                    None => match parse_lit_at(s, i, "\"orphaned\"") {
                        Some(j) => Some((SessionStatus::Orphaned, j)),
                        None => None,
                    },
                },
            },
        },
    }
}

#[verifier::rlimit(60)]
fn parse_rec_at(s: &Vec<char>, i: usize) -> (r: Option<(PersistedSession, usize)>)
    requires
        i <= s@.len(),
    ensures
        match r {
            Some(p) => i < p.1 <= s@.len() && parse_rec(s@.skip(i as int)) == Some(
                (p.0@, s@.skip(p.1 as int)),
            ),
            None => parse_rec(s@.skip(i as int)) is None,
        },
{
    proof {
        reveal(parse_rec);
    }
    match parse_lit_at(s, i, "{\"id\":") {
        None => None,
        Some(j1) => match parse_quoted_uuid_at(s, j1) {
            None => None,
            Some((id, j2)) => match parse_lit_at(s, j2, ",\"working_dir\":") {
                None => None,
                Some(j3) => match parse_jstr_at(s, j3) {
                    None => None,
                    Some((wd, j4)) => match parse_lit_at(s, j4, ",\"created_at\":") {
                        None => None,
                        Some(j5) => match parse_jstr_at(s, j5) {
                            None => None,
                            Some((ca, j6)) => match parse_rec_tail_at(s, j6) {
                                None => None,
                                Some(((lp, pid, st), j13)) => Some(
                                    (
                                        PersistedSession {
                                            id,
                                            working_dir: wd,
                                            created_at: ca,
                                            log_path: lp,
                                            pid,
                                            status: st,
                                        },
                                        j13,
                                    ),
                                ),
                            },
                        },
                    },
                },
            },
        },
    }
}

#[verifier::rlimit(60)]
fn parse_rec_tail_at(s: &Vec<char>, i: usize) -> (r: Option<((String, Option<u32>, SessionStatus), usize)>)
    requires
        i <= s@.len(),
    ensures
        match r {
            Some(p) => i <= p.1 <= s@.len() && parse_rec_tail(s@.skip(i as int)) == Some(
                ((p.0.0@, p.0.1, p.0.2), s@.skip(p.1 as int)),
            ),
            None => parse_rec_tail(s@.skip(i as int)) is None,
        },
{
    match parse_lit_at(s, i, ",\"log_path\":") {
        None => None,
        Some(j7) => match parse_jstr_at(s, j7) {
            None => None,
            Some((lp, j8)) => match parse_lit_at(s, j8, ",\"pid\":") {
                None => None,
                Some(j9) => match parse_pid_at(s, j9) {
                    None => None,
                    Some((pid, j10)) => match parse_lit_at(s, j10, ",\"status\":") {
                        None => None,
                        Some(j11) => match parse_status_at(s, j11) {
                            None => None,
                            Some((st, j12)) => match parse_lit_at(s, j12, "}") {
                                None => None,
                                Some(j13) => Some(((lp, pid, st), j13)),
                            },
                        },
                    },
                },
            },
        },
    }
}

fn parse_entry_at(s: &Vec<char>, i: usize) -> (r: Option<(PersistedSession, usize)>)
    requires
        i <= s@.len(),
    ensures
        match r {
            Some(p) => i < p.1 <= s@.len() && parse_entry(s@.skip(i as int)) == Some(
                (p.0@, s@.skip(p.1 as int)),
            ),
            None => parse_entry(s@.skip(i as int)) is None,
        },
{
    match parse_quoted_uuid_at(s, i) {
        None => None,
        Some((id, j1)) => match parse_lit_at(s, j1, ":") {
            None => None,
            Some(j2) => match parse_rec_at(s, j2) {
                None => None,
                Some((p, j3)) => if p.id == id {
                    Some((p, j3))
                } else {
                    None
                },
            },
        },
    }
}

fn parse_entries_at(s: &Vec<char>, i: usize) -> (r: Option<(Vec<PersistedSession>, usize)>)
    requires
        i <= s@.len(),
    ensures
        match r {
            Some(p) => i <= p.1 <= s@.len() && parse_entries(s@.skip(i as int)) == Some(
                (models_of(p.0@), s@.skip(p.1 as int)),
            ),
            None => parse_entries(s@.skip(i as int)) is None,
        },
{
    let mut acc: Vec<PersistedSession> = Vec::new();
    let mut p: usize = i;
    loop
        invariant
            i <= p <= s@.len(),
            parse_entries(s@.skip(i as int)) == match parse_entries(s@.skip(p as int)) {
                Some(q) => Some((models_of(acc@) + q.0, q.1)),
                None => None,
            },
        decreases s@.len() - p,
    {
        let e = parse_entry_at(s, p);
        match e {
            None => {
                return None;
            },
            Some((rec, j)) => {
                let ghost rm = rec@;
                if j < s.len() && s[j] == ',' {
                    proof {
                        let rseq = s@.skip(j as int);
                        assert(rseq[0] == s@[j as int]);
                        assert(rseq.len() < s@.skip(p as int).len());
                        assert(rseq.drop_first() =~= s@.skip(j as int + 1));
                    }
                    acc.push(rec);
                    proof {
                        assert(models_of(acc@) =~= models_of(acc@.drop_last()).push(rm));
                        match parse_entries(s@.skip(j as int + 1)) {
                            Some(q) => {
                                assert(models_of(acc@.drop_last()) + (seq![rm] + q.0) =~= models_of(
                                    acc@,
                                ) + q.0);
                            },
                            None => {},
                        }
                    }
                    p = j + 1;
                } else {
                    proof {
                        let rseq = s@.skip(j as int);
                        if j < s@.len() {
                            assert(rseq[0] == s@[j as int]);
                        }
                        assert(!(rseq.len() > 0 && rseq[0] == ','));
                    }
                    acc.push(rec);
                    proof {
                        assert(models_of(acc@) =~= models_of(acc@.drop_last()).push(rm));
                        assert(models_of(acc@.drop_last()) + seq![rm] =~= models_of(acc@));
                    }
                    return Some((acc, j));
                }
            },
        }
    }
}

/// Reads a whole state text starting at `i`.
pub fn parse_state_at(s: &Vec<char>, i: usize) -> (r: Option<(Vec<PersistedSession>, usize)>)
    requires
        i <= s@.len(),
    ensures
        match r {
            Some(p) => i <= p.1 <= s@.len() && parse_state(s@.skip(i as int)) == Some(
                (models_of(p.0@), s@.skip(p.1 as int)),
            ),
            None => parse_state(s@.skip(i as int)) is None,
        },
{
    match parse_lit_at(s, i, "{}") {
        Some(j) => {
            let empty: Vec<PersistedSession> = Vec::new();
            proof {
                assert(models_of(empty@) =~= Seq::<PersistedModel>::empty());
            }
            Some((empty, j))
        },
        None => match parse_lit_at(s, i, "{") {
            None => None,
            Some(j1) => match parse_entries_at(s, j1) {
                None => None,
                Some((ps, j2)) => match parse_lit_at(s, j2, "}") {
                    None => None,
                    Some(j3) => Some((ps, j3)),
                },
            },
        },
    }
}

/// Whether the records carry pairwise distinct ids.
pub fn ids_distinct_x(v: &Vec<PersistedSession>) -> (b: bool)
    ensures
        b == ids_distinct(models_of(v@)),
{
    let ghost ms = models_of(v@);
    let n = v.len();
    let mut i: usize = 0;
    while i < n
        invariant
            0 <= i <= n,
            n == v@.len(),
            ms == models_of(v@),
            forall|a: int, b2: int| 0 <= a < b2 < n && a < i ==> (#[trigger] ms[a]).id != (
            #[trigger] ms[b2]).id,
        decreases n - i,
    {
        let mut j: usize = i + 1;
        while j < n
            invariant
                0 <= i < j <= n,
                n == v@.len(),
                ms == models_of(v@),
                forall|b2: int| i < b2 < j ==> ms[i as int].id != (#[trigger] ms[b2]).id,
            decreases n - j,
        {
            if v[i].id == v[j].id {
                proof {
                    assert(ms[i as int].id == v@[i as int]@.id);
                    assert(ms[j as int].id == v@[j as int]@.id);
                }
                return false;
            }
            j = j + 1;
        }
        i = i + 1;
    }
    true
}

// ---------------------------------------------------------------------
// The persistence manager
// ---------------------------------------------------------------------

/// Where the state file lives under the given home directory.
pub open spec fn state_file_chars(home: Seq<char>) -> Seq<char> {
    home + "/.agent-sessions/sessions.json"@
}

/// Knows where the state file lives and how to write and read its
/// content. The file itself is handled outside: writing goes through a
/// temp-file-then-rename replacement, and reading hands the content in
/// as a string, or nothing when the file is missing.
pub struct PersistenceManager {
    pub state_file: String,
}

impl PersistenceManager {
    /// A manager for the per-user state file under `home`.
    pub fn new(home: &str) -> (r: PersistenceManager)
        ensures
            r.state_file@ == state_file_chars(home@),
    {
        let mut f = String::from_str(home);
        f.append("/.agent-sessions/sessions.json");
        PersistenceManager { state_file: f }
    }

    /// The path of the state file.
    pub fn state_file_path(&self) -> (r: &String)
        ensures
            r@ == self.state_file@,
    {
        &self.state_file
    }

    /// The full state text for a table of records: what the caller
    /// must write to the state file in one atomic replacement.
    pub fn write_state(&self, sessions: &Vec<PersistedSession>) -> (content: String)
        ensures
            content@ == state_chars(models_of(sessions@)),
    {
        write_state_text(sessions)
    }

    /// What the state file's content means: a missing file or content
    /// that is not exactly a well-formed state text with distinct ids
    /// loads as the empty table, never as an error.
    pub fn load_state(&self, content: Option<&String>) -> (r: Vec<PersistedSession>)
        ensures
            models_of(r@) == load_spec(
                match content {
                    Some(t) => Some(t@),
                    None => None,
                },
            ),
    {
        match content {
            None => {
                let empty: Vec<PersistedSession> = Vec::new();
                proof {
                    assert(models_of(empty@) =~= Seq::<PersistedModel>::empty());
                }
                empty
            },
            Some(text) => {
                let v = crate::text::str_chars(text.as_str());
                assert(v@.skip(0) =~= text@);
                match parse_state_at(&v, 0) {
                    None => {
                        let empty: Vec<PersistedSession> = Vec::new();
                        proof {
                            assert(models_of(empty@) =~= Seq::<PersistedModel>::empty());
                        }
                        empty
                    },
                    Some((recs, j)) => {
                        if j == v.len() {
                            assert(v@.skip(j as int).len() == 0);
                            if ids_distinct_x(&recs) {
                                recs
                            } else {
                                let empty: Vec<PersistedSession> = Vec::new();
                                proof {
                                    assert(models_of(empty@) =~= Seq::<PersistedModel>::empty());
                                }
                                empty
                            }
                        } else {
                            assert(v@.skip(j as int).len() > 0);
                            let empty: Vec<PersistedSession> = Vec::new();
                            proof {
                                assert(models_of(empty@) =~= Seq::<PersistedModel>::empty());
                            }
                            empty
                        }
                    },
                }
            },
        }
    }
}


} // verus!
