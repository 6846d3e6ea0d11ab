//! The orchestration core: owns the session table and the set of
//! sessions with a live process handle, drives start/stop/list/input
//! and startup recovery, and produces the durable snapshot after every
//! mutation. The handles themselves — terminals, worker tasks — live
//! outside; here a session is live exactly when its id is in the live
//! set, and the caller keeps its handle table in step.

use vstd::prelude::*;
use vstd::string::*;
use vstd::seq_lib::*;
use vstd::set_lib::*;
use crate::boundary::{random_u128, now_rfc3339, path_exists};
use crate::errors::SessionError;
use crate::ids::uuid_chars;
use crate::persistence::{PersistedSession, PersistedModel, models_of, ids_distinct};
use crate::session::{
    Session, SessionModel, SessionInfo, SessionInfoModel, SessionStatus, classify_spec,
    classify_recovery, log_path_chars,
};

verus! {

/// A session as the manager holds it: its record, and the status it
/// would report if it has no live handle.
pub struct SessionRecord {
    pub session: Session,
    pub status: SessionStatus,
}

/// The mathematical shape of a managed session.
pub struct RecordModel {
    pub session: SessionModel,
    pub status: SessionStatus,
}

impl View for SessionRecord {
    type V = RecordModel;

    open spec fn view(&self) -> RecordModel {
        RecordModel { session: self.session@, status: self.status }
    }
}

/// The mathematical shape of the manager: the home directory, the
/// session records in insertion order, and the ids that have a live
/// process handle.
pub struct ManagerModel {
    pub home: Seq<char>,
    pub records: Seq<RecordModel>,
    pub live: Seq<u128>,
}

impl ManagerModel {
    pub open spec fn contains_id(self, id: u128) -> bool {
        exists|k: int| 0 <= k < self.records.len() && (#[trigger] self.records[k]).session.id == id
    }

    pub open spec fn is_live(self, id: u128) -> bool {
        self.live.contains(id)
    }

    /// Well-formedness: ids are unique across the table, the live set
    /// holds no duplicates, and every live id belongs to a session —
    /// the converse need not hold: a recovered session has no handle.
    pub open spec fn wf(self) -> bool {
        &&& forall|i: int, j: int|
            0 <= i < j < self.records.len() ==> (#[trigger] self.records[i]).session.id != (
            #[trigger] self.records[j]).session.id
        &&& self.live.no_duplicates()
        &&& forall|i: int| 0 <= i < self.live.len() ==> self.contains_id(#[trigger] self.live[i])
    }
}

/// Owns all active sessions: spawning is reported to it, metadata is
/// kept by it, and every mutation yields a fresh durable snapshot.
pub struct SessionManager {
    home: String,
    records: Vec<SessionRecord>,
    live: Vec<u128>,
}

impl View for SessionManager {
    type V = ManagerModel;

    closed spec fn view(&self) -> ManagerModel {
        ManagerModel {
            home: self.home@,
            records: self.records@.map_values(|r: SessionRecord| r@),
            live: self.live@,
        }
    }
}

/// What one managed session looks like in a listing: status `running`
/// exactly when a live handle exists, else the generic recovered-state
/// marker `stale`.
pub open spec fn info_model_of(r: RecordModel, running: bool) -> SessionInfoModel {
    SessionInfoModel {
        id: uuid_chars(r.session.id),
        working_dir: r.session.working_dir,
        created_at: r.session.created_at,
        status: if running {
            "running"@
        } else {
            "stale"@
        },
        log_path: r.session.log_path,
    }
}

/// What one managed session looks like in the durable snapshot. No pid
/// is recorded; the status is `Running` for sessions with a live
/// handle, else whatever recovery classified them as.
pub open spec fn snapshot_model(r: RecordModel, running: bool) -> PersistedModel {
    PersistedModel {
        id: r.session.id,
        working_dir: r.session.working_dir,
        created_at: r.session.created_at,
        log_path: r.session.log_path,
        pid: None,
        status: if running {
            SessionStatus::Running
        } else {
            r.status
        },
    }
}

proof fn lemma_some_small_id_free(ids: Seq<u128>)
    requires
        ids.len() <= 0xffffffffffffffff,
    ensures
        exists|j: int| 0 <= j <= ids.len() && !ids.contains(#[trigger] (j as u128)),
{
    broadcast use vstd::seq_lib::group_seq_lib_default, vstd::set::group_set_axioms;

    if exists|j: int| 0 <= j <= ids.len() && !ids.contains(#[trigger] (j as u128)) {
        return;
    }
    assert(forall|j: int| 0 <= j <= ids.len() ==> ids.contains(#[trigger] (j as u128)));
    let n = ids.len() as int;
    let s_int = ids.map_values(|x: u128| x as int);
    assert(s_int.len() == n);
    s_int.lemma_cardinality_of_set();
    let t = set_int_range(0, n + 1);
    lemma_int_range(0, n + 1);
    assert forall|j: int| t.contains(j) implies s_int.to_set().contains(j) by {
        assert(0 <= j <= n);
        assert(ids.contains(j as u128));
        let k = choose|k: int| 0 <= k < ids.len() && ids[k] == (j as u128);
        assert(s_int[k] == (ids[k] as int));
        assert(0 <= j <= 0xffffffffffffffff);
        assert((j as u128) as int == j);
        assert(s_int.contains(j));
    }
    assert(t.subset_of(s_int.to_set()));
    lemma_len_subset(t, s_int.to_set());
    assert(false);
}

impl SessionManager {
    /// A manager with no sessions, rooted at the given home directory.
    pub fn new(home: String) -> (r: SessionManager)
        ensures
            r@.wf(),
            r@.home == home@,
            r@.records.len() == 0,
            r@.live.len() == 0,
    {
        let r = SessionManager { home, records: Vec::new(), live: Vec::new() };
        proof {
            assert(r@.records =~= Seq::<RecordModel>::empty());
        }
        r
    }

    /// The index of the session with this id, if any.
    fn find_index(&self, id: u128) -> (r: Option<usize>)
        ensures
            match r {
                Some(k) => k < self@.records.len() && self@.records[k as int].session.id == id,
                None => !self@.contains_id(id),
            },
    {
        let mut k: usize = 0;
        while k < self.records.len()
            invariant
                0 <= k <= self@.records.len(),
                self@.records.len() == self.records@.len(),
                forall|m: int| 0 <= m < k ==> (#[trigger] self@.records[m]).session.id != id,
            decreases self@.records.len() - k,
        {
            if self.records[k].session.id == id {
                assert(self@.records[k as int].session.id == id);
                return Some(k);
            }
            k = k + 1;
        }
        None
    }

    /// Whether a session with this id exists.
    pub fn contains_id_x(&self, id: u128) -> (b: bool)
        ensures
            b == self@.contains_id(id),
    {
        match self.find_index(id) {
            Some(_) => true,
            None => false,
        }
    }

    /// Whether this id has a live process handle.
    pub fn is_live_x(&self, id: u128) -> (b: bool)
        ensures
            b == self@.is_live(id),
    {
        let mut k: usize = 0;
        while k < self.live.len()
            invariant
                0 <= k <= self@.live.len(),
                self@.live.len() == self.live@.len(),
                forall|m: int| 0 <= m < k ==> self@.live[m] != id,
            decreases self@.live.len() - k,
        {
            if self.live[k] == id {
                return true;
            }
            k = k + 1;
        }
        false
    }

    /// An id no current session carries. Normally the first random
    /// draw; if that collides, the small ids are scanned, and among
    /// `0 ..= len` one is always free.
    fn fresh_session_id(&self) -> (id: u128)
        ensures
            !self@.contains_id(id),
    {
        let c = random_u128();
        if !self.contains_id_x(c) {
            return c;
        }
        let ghost idseq = self@.records.map_values(|r: RecordModel| r.session.id);
        let n = self.records.len();
        let mut k: usize = 0;
        while k < n
            invariant
                0 <= k <= n,
                n == self@.records.len(),
                idseq == self@.records.map_values(|r: RecordModel| r.session.id),
                forall|m: int| 0 <= m < k ==> idseq.contains(#[trigger] (m as u128)),
            decreases n - k,
        {
            if !self.contains_id_x(k as u128) {
                return k as u128;
            }
            proof {
                let w = choose|w: int|
                    0 <= w < self@.records.len() && self@.records[w].session.id == (k as u128);
                assert(idseq[w] == (k as u128));
                assert(idseq.contains(k as u128));
            }
            k = k + 1;
        }
        if !self.contains_id_x(n as u128) {
            return n as u128;
        }
        proof {
            let w = choose|w: int|
                0 <= w < self@.records.len() && self@.records[w].session.id == (n as u128);
            assert(idseq[w] == (n as u128));
            assert(idseq.contains(n as u128));
            assert(forall|j: int| 0 <= j <= idseq.len() ==> idseq.contains(#[trigger] (j as u128)));
            assert(idseq.len() == n as int);
            lemma_some_small_id_free(idseq);
            assert(false);
        }
        0
    }

    /// Starts a session with every boundary outcome handed in: whether
    /// the working directory exists, whether the spawn succeeded, and
    /// the creation timestamp. Validation failure and spawn failure
    /// leave the registry exactly as it was; success registers the
    /// session under a fresh id, with a live handle.
    pub fn start_session_at(
        &mut self,
        working_dir: String,
        created_at: String,
        dir_exists: bool,
        spawn_ok: bool,
    ) -> (r: Result<u128, SessionError>)
        requires
            old(self)@.wf(),
        ensures
            final(self)@.wf(),
            final(self)@.home == old(self)@.home,
            !dir_exists ==> r == Err::<u128, SessionError>(SessionError::ValidationFailure)
                && final(self)@ == old(self)@,
            dir_exists && !spawn_ok ==> r == Err::<u128, SessionError>(SessionError::SpawnFailure)
                && final(self)@ == old(self)@,
            dir_exists && spawn_ok ==> (r matches Ok(id) && !old(self)@.contains_id(id) && final(self)@.records == old(self)@.records.push(
                (RecordModel {
                    session: SessionModel {
                        id,
                        working_dir: working_dir@,
                        created_at: created_at@,
                        log_path: log_path_chars(old(self)@.home, id),
                    },
                    status: SessionStatus::Running,
                }),
            ) && final(self)@.live == old(self)@.live.push(id)),
    {
        if !dir_exists {
            return Err(SessionError::ValidationFailure);
        }
        if !spawn_ok {
            return Err(SessionError::SpawnFailure);
        }
        let id = self.fresh_session_id();
        let session = Session::new(id, working_dir, created_at, self.home.as_str());
        let record = SessionRecord { session, status: SessionStatus::Running };
        let ghost before = self@;
        self.records.push(record);
        self.live.push(id);
        proof {
            assert(self@.records =~= before.records.push(record@));
            assert(self@.live =~= before.live.push(id));
            assert forall|i: int, j: int|
                0 <= i < j < self@.records.len() implies (#[trigger] self@.records[i]).session.id
                != (#[trigger] self@.records[j]).session.id by {
                if j == self@.records.len() - 1 {
                    assert(self@.records[i] == before.records[i]);
                    assert(before.contains_id(before.records[i].session.id));
                }
            }
            assert forall|i: int| 0 <= i < self@.live.len() implies self@.contains_id(
                #[trigger] self@.live[i],
            ) by {
                if i < before.live.len() {
                    let w = choose|w: int|
                        0 <= w < before.records.len() && before.records[w].session.id
                            == before.live[i];
                    assert(self@.records[w].session.id == self@.live[i]);
                } else {
                    assert(self@.records[self@.records.len() - 1].session.id == id);
                }
            }
            assert(self@.live.no_duplicates()) by {
                if before.live.contains(id) {
                    let w = choose|w: int| 0 <= w < before.live.len() && before.live[w] == id;
                    assert(before.contains_id(before.live[w]));
                }
            }
        }
        Ok(id)
    }

    /// Starts a session in a working directory: probes the directory,
    /// stamps the clock, and registers under a fresh id. The caller
    /// reports whether its spawn of the agent process succeeded; on any
    /// failure the registry is untouched.
    pub fn start_session(&mut self, working_dir: String, spawn_ok: bool) -> (r: Result<
        u128,
        SessionError,
    >)
        requires
            old(self)@.wf(),
        ensures
            final(self)@.wf(),
            final(self)@.home == old(self)@.home,
            r is Err ==> final(self)@ == old(self)@ && (r == Err::<u128, SessionError>(
                SessionError::ValidationFailure,
            ) || r == Err::<u128, SessionError>(SessionError::SpawnFailure)),
            !spawn_ok ==> r is Err,
            r matches Ok(id) ==> !old(self)@.contains_id(id) && final(self)@.live == old(self)@.live.push(id) && final(self)@.records.len() == old(self)@.records.len() + 1
                && final(self)@.records.last().session.id == id && final(self)@.records.last().session.working_dir == working_dir@ && final(self)@.records.last().session.log_path == log_path_chars(old(self)@.home, id) && final(self)@.records.last().status == SessionStatus::Running && final(self)@.records == old(self)@.records.push(final(self)@.records.last()),
    {
        let dir_exists = path_exists(working_dir.as_str());
        let created_at = now_rfc3339();
        self.start_session_at(working_dir, created_at, dir_exists, spawn_ok)
    }

    /// Stops a session: unknown ids fail with `NotFoundFailure` and
    /// change nothing; otherwise the session leaves both the record
    /// table and the live set — deleted, not demoted.
    pub fn stop_session(&mut self, session_id: u128) -> (r: Result<(), SessionError>)
        requires
            old(self)@.wf(),
        ensures
            final(self)@.wf(),
            final(self)@.home == old(self)@.home,
            !old(self)@.contains_id(session_id) ==> r == Err::<(), SessionError>(
                SessionError::NotFoundFailure,
            ) && final(self)@ == old(self)@,
            old(self)@.contains_id(session_id) ==> r == Ok::<(), SessionError>(()) && (exists|
                k: int,
            |
                0 <= k < old(self)@.records.len() && old(self)@.records[k].session.id == session_id
                    && final(self)@.records == old(self)@.records.remove(k)) && !final(self)@.contains_id(session_id),
            old(self)@.contains_id(session_id) && old(self)@.is_live(session_id) ==> (exists|
                m: int,
            |
                0 <= m < old(self)@.live.len() && old(self)@.live[m] == session_id && final(self)@.live == old(self)@.live.remove(m)),
            old(self)@.contains_id(session_id) && !old(self)@.is_live(session_id) ==> final(self)@.live == old(self)@.live,
            forall|x: u128|
                #[trigger] final(self)@.is_live(x) <==> old(self)@.is_live(x) && x != session_id,
    {
        let idx = self.find_index(session_id);
        match idx {
            None => Err(SessionError::NotFoundFailure),
            Some(k) => {
                let ghost before = self@;
                self.records.remove(k);
                proof {
                    assert(self@.records =~= before.records.remove(k as int));
                    lemma_remove_wf(before, k as int);
                }
                let ghost mid = self@;
                let mut m: usize = 0;
                let mut found: bool = false;
                while m < self.live.len() && !found
                    invariant
                        0 <= m <= self@.live.len(),
                        self@.home == mid.home,
                        self@.records == mid.records,
                        !found ==> self@.live == mid.live && forall|w: int|
                            0 <= w < m ==> mid.live[w] != session_id,
                        found ==> (exists|w: int|
                            0 <= w < mid.live.len() && mid.live[w] == session_id && self@.live
                                == mid.live.remove(w)),
                    decreases self@.live.len() - m,
                {
                    if self.live[m] == session_id {
                        self.live.remove(m);
                        found = true;
                    } else {
                        m = m + 1;
                    }
                }
                proof {
                    lemma_live_after_removal(before, mid, self@, session_id, k as int);
                }
                Ok(())
            },
        }
    }

    /// Lists all sessions: a pure read. Each entry carries the id in
    /// text form and status `running` exactly when a live handle
    /// exists, else `stale`.
    pub fn list_sessions(&self) -> (r: Vec<SessionInfo>)
        ensures
            r@.len() == self@.records.len(),
            forall|k: int|
                0 <= k < r@.len() ==> (#[trigger] r@[k])@ == info_model_of(
                    self@.records[k],
                    self@.is_live(self@.records[k].session.id),
                ),
    {
        let mut out: Vec<SessionInfo> = Vec::new();
        let mut k: usize = 0;
        while k < self.records.len()
            invariant
                0 <= k <= self@.records.len(),
                self@.records.len() == self.records@.len(),
                out@.len() == k,
                forall|m: int|
                    0 <= m < k ==> (#[trigger] out@[m])@ == info_model_of(
                        self@.records[m],
                        self@.is_live(self@.records[m].session.id),
                    ),
            decreases self@.records.len() - k,
        {
            let rec = &self.records[k];
            let running = self.is_live_x(rec.session.id);
            let status = if running {
                String::from_str("running")
            } else {
                String::from_str("stale")
            };
            let info = SessionInfo {
                id: crate::ids::uuid_string(rec.session.id),
                working_dir: rec.session.working_dir.clone(),
                created_at: rec.session.created_at.clone(),
                status,
                log_path: rec.session.log_path.clone(),
            };
            out.push(info);
            k = k + 1;
        }
        out
    }

    /// Prepares input for a session's terminal: fails with
    /// `NotFoundFailure` unless the id has a live handle, and appends
    /// a trailing newline if the text lacks one. The returned payload
    /// is exactly what the caller must write to the terminal.
    pub fn send_input(&self, session_id: u128, text: String) -> (r: Result<String, SessionError>)
        ensures
            r is Ok <==> self@.is_live(session_id),
            !self@.is_live(session_id) ==> r == Err::<String, SessionError>(
                SessionError::NotFoundFailure,
            ),
            r matches Ok(t) ==> t@ == (if text@.len() > 0 && text@.last() == '\n' {
                text@
            } else {
                text@.push('\n')
            }),
    {
        if !self.is_live_x(session_id) {
            return Err(SessionError::NotFoundFailure);
        }
        let n = text.as_str().unicode_len();
        let mut payload = text;
        if n == 0 || payload.as_str().get_char(n - 1) != '\n' {
            payload.push('\n');
        }
        Ok(payload)
    }

    /// Rebuilds the table from the durable records at startup. Each
    /// record's status is reclassified from its pid and the injected
    /// liveness probe answer; the rebuilt sessions carry metadata only
    /// and no live handle — no recovered session is `Running`. The
    /// returned records are the same sessions with their statuses
    /// updated, ready to be re-persisted.
    pub fn recover_sessions(
        &mut self,
        persisted: &Vec<PersistedSession>,
        alive: &Vec<bool>,
    ) -> (r: Vec<PersistedSession>)
        requires
            old(self)@.wf(),
            old(self)@.records.len() == 0,
            old(self)@.live.len() == 0,
            alive@.len() == persisted@.len(),
            ids_distinct(models_of(persisted@)),
        ensures
            final(self)@.wf(),
            final(self)@.home == old(self)@.home,
            final(self)@.live.len() == 0,
            final(self)@.records.len() == persisted@.len(),
            forall|k: int|
                0 <= k < persisted@.len() ==> (#[trigger] final(self)@.records[k]) == (RecordModel {
                    session: SessionModel {
                        id: persisted@[k]@.id,
                        working_dir: persisted@[k]@.working_dir,
                        created_at: persisted@[k]@.created_at,
                        log_path: persisted@[k]@.log_path,
                    },
                    status: classify_spec(persisted@[k]@.pid, alive@[k]),
                }),
            r@.len() == persisted@.len(),
            forall|k: int|
                0 <= k < persisted@.len() ==> (#[trigger] r@[k])@ == (PersistedModel {
                    status: classify_spec(persisted@[k]@.pid, alive@[k]),
                    ..persisted@[k]@
                }),
    {
        let ghost before = self@;
        let mut updated: Vec<PersistedSession> = Vec::new();
        let mut k: usize = 0;
        while k < persisted.len()
            invariant
                0 <= k <= persisted@.len(),
                alive@.len() == persisted@.len(),
                ids_distinct(models_of(persisted@)),
                self@.home == before.home,
                self@.live == before.live,
                before.live.len() == 0,
                self@.records.len() == k,
                updated@.len() == k,
                forall|m: int|
                    0 <= m < k ==> (#[trigger] self@.records[m]) == (RecordModel {
                        session: SessionModel {
                            id: persisted@[m]@.id,
                            working_dir: persisted@[m]@.working_dir,
                            created_at: persisted@[m]@.created_at,
                            log_path: persisted@[m]@.log_path,
                        },
                        status: classify_spec(persisted@[m]@.pid, alive@[m]),
                    }),
                forall|m: int|
                    0 <= m < k ==> (#[trigger] updated@[m])@ == (PersistedModel {
                        status: classify_spec(persisted@[m]@.pid, alive@[m]),
                        ..persisted@[m]@
                    }),
            decreases persisted@.len() - k,
        {
            let p = &persisted[k];
            let status = classify_recovery(p.pid, alive[k]);
            let session = Session {
                id: p.id,
                working_dir: p.working_dir.clone(),
                created_at: p.created_at.clone(),
                log_path: p.log_path.clone(),
            };
            let ghost prev = self@.records;
            let rec = SessionRecord { session, status };
            let ghost recm = rec@;
            self.records.push(rec);
            proof {
                assert(self@.records =~= prev.push(recm));
            }
            updated.push(
                PersistedSession {
                    id: p.id,
                    working_dir: p.working_dir.clone(),
                    created_at: p.created_at.clone(),
                    log_path: p.log_path.clone(),
                    pid: p.pid,
                    status,
                },
            );
            proof {
                assert(models_of(persisted@)[k as int] == persisted@[k as int]@);
            }
            k = k + 1;
        }
        proof {
            assert forall|i: int, j: int|
                0 <= i < j < self@.records.len() implies (#[trigger] self@.records[i]).session.id
                != (#[trigger] self@.records[j]).session.id by {
                assert(models_of(persisted@)[i].id == persisted@[i]@.id);
                assert(models_of(persisted@)[j].id == persisted@[j]@.id);
            }
        }
        updated
    }

    /// The durable snapshot of the current table: one record per
    /// session, no pid recorded, status `Running` exactly for sessions
    /// with a live handle. Its ids are distinct, so writing and
    /// reloading it yields it back.
    pub fn persisted_snapshot(&self) -> (r: Vec<PersistedSession>)
        requires
            self@.wf(),
        ensures
            r@.len() == self@.records.len(),
            forall|k: int|
                0 <= k < r@.len() ==> (#[trigger] r@[k])@ == snapshot_model(
                    self@.records[k],
                    self@.is_live(self@.records[k].session.id),
                ),
            ids_distinct(models_of(r@)),
    {
        let mut out: Vec<PersistedSession> = Vec::new();
        let mut k: usize = 0;
        while k < self.records.len()
            invariant
                0 <= k <= self@.records.len(),
                self@.records.len() == self.records@.len(),
                out@.len() == k,
                forall|m: int|
                    0 <= m < k ==> (#[trigger] out@[m])@ == snapshot_model(
                        self@.records[m],
                        self@.is_live(self@.records[m].session.id),
                    ),
            decreases self@.records.len() - k,
        {
            let rec = &self.records[k];
            let running = self.is_live_x(rec.session.id);
            let status = if running {
                SessionStatus::Running
            } else {
                rec.status
            };
            out.push(
                PersistedSession {
                    id: rec.session.id,
                    working_dir: rec.session.working_dir.clone(),
                    created_at: rec.session.created_at.clone(),
                    log_path: rec.session.log_path.clone(),
                    pid: None,
                    status,
                },
            );
            k = k + 1;
        }
        proof {
            assert forall|i: int, j: int| 0 <= i < j < models_of(out@).len() implies (
            #[trigger] models_of(out@)[i]).id != (#[trigger] models_of(out@)[j]).id by {
                assert(models_of(out@)[i] == out@[i]@);
                assert(models_of(out@)[j] == out@[j]@);
                assert(out@[i]@.id == self@.records[i].session.id);
                assert(out@[j]@.id == self@.records[j].session.id);
            }
        }
        out
    }

    /// The home directory this manager is rooted at.
    pub fn home_dir(&self) -> (r: &String)
        ensures
            r@ == self@.home,
    {
        &self.home
    }
}

proof fn lemma_remove_wf(before: ManagerModel, k: int)
    requires
        before.wf(),
        0 <= k < before.records.len(),
    ensures
        forall|i: int, j: int|
            0 <= i < j < before.records.remove(k).len() ==> (#[trigger] before.records.remove(
                k,
            )[i]).session.id != (#[trigger] before.records.remove(k)[j]).session.id,
{
    let after = before.records.remove(k);
    assert forall|i: int, j: int| 0 <= i < j < after.len() implies (#[trigger] after[i]).session.id
        != (#[trigger] after[j]).session.id by {
        let i0 = if i < k { i } else { i + 1 };
        let j0 = if j < k { j } else { j + 1 };
        assert(after[i] == before.records[i0]);
        assert(after[j] == before.records[j0]);
    }
}

proof fn lemma_live_after_removal(
    before: ManagerModel,
    mid: ManagerModel,
    after: ManagerModel,
    session_id: u128,
    k: int,
)
    requires
        before.wf(),
        0 <= k < before.records.len(),
        before.records[k].session.id == session_id,
        mid.home == before.home,
        mid.records == before.records.remove(k),
        mid.live == before.live,
        after.home == mid.home,
        after.records == mid.records,
        (after.live == mid.live && !mid.live.contains(session_id)) || (exists|w: int|
            0 <= w < mid.live.len() && mid.live[w] == session_id && after.live == mid.live.remove(
                w,
            )),
    ensures
        after.wf(),
        !after.contains_id(session_id),
        before.is_live(session_id) ==> (exists|m: int|
            0 <= m < before.live.len() && before.live[m] == session_id && after.live
                == before.live.remove(m)),
        !before.is_live(session_id) ==> after.live == before.live,
        forall|x: u128| #[trigger] after.is_live(x) <==> before.is_live(x) && x != session_id,
    decreases 0int,
{
    lemma_remove_wf(before, k);
    // no session with the removed id remains
    assert forall|w: int| 0 <= w < after.records.len() implies (#[trigger] after.records[w]).session.id
        != session_id by {
        let w0 = if w < k { w } else { w + 1 };
        assert(after.records[w] == before.records[w0]);
    }
    if before.live.contains(session_id) {
        let w = choose|w: int|
            0 <= w < mid.live.len() && mid.live[w] == session_id && after.live == mid.live.remove(
                w,
            );
        before.live.unique_seq_to_set();
        assert(after.live =~= before.live.remove(w));
        // removing one index from a duplicate-free sequence keeps it
        // duplicate-free and drops exactly that value
        assert forall|i: int, j: int| 0 <= i < j < after.live.len() implies after.live[i]
            != after.live[j] by {
            let i0 = if i < w { i } else { i + 1 };
            let j0 = if j < w { j } else { j + 1 };
            assert(after.live[i] == before.live[i0]);
            assert(after.live[j] == before.live[j0]);
        }
        assert(after.live.no_duplicates());
        assert forall|x: u128| #[trigger] after.live.contains(x) implies before.live.contains(x)
            && x != session_id by {
            let m = choose|m: int| 0 <= m < after.live.len() && after.live[m] == x;
            let m0 = if m < w { m } else { m + 1 };
            assert(before.live[m0] == x);
            if x == session_id {
                assert(before.live[w] == session_id);
            }
        }
        assert forall|x: u128| before.live.contains(x) && x != session_id implies
            #[trigger] after.live.contains(x) by {
            let m = choose|m: int| 0 <= m < before.live.len() && before.live[m] == x;
            if m < w {
                assert(after.live[m] == x);
            } else {
                assert(m != w);
                assert(after.live[m - 1] == x);
            }
        }
    } else {
        assert(after.live == before.live);
    }
    // every surviving live id still has its session
    assert forall|i: int| 0 <= i < after.live.len() implies after.contains_id(
        #[trigger] after.live[i],
    ) by {
        let x = after.live[i];
        assert(after.live.contains(x));
        assert(before.live.contains(x) && x != session_id);
        let w2 = choose|w2: int|
            0 <= w2 < before.records.len() && before.records[w2].session.id == x;
        assert(w2 != k);
        let w3 = if w2 < k { w2 } else { w2 - 1 };
        assert(after.records[w3] == before.records[w2]);
    }
}

} // verus!
