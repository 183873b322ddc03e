//! The tracker: a two-state machine over the two storage artifacts.
//!
//! The states are `Idle` (no lock marker) and `Running` (lock marker
//! present); the marker is the only state bit. `start` acquires the marker,
//! `stop` appends the completed session to the record store and only then
//! releases the marker, so that a failure in between leaves the system
//! `Running` (the user can retry) rather than silently losing the session.
//!
//! Every operation is specified against `TrackerModel`, the abstract state
//! made of the two artifact contents, so the whole state machine is a pure
//! function of storage content and the injected clock instants.

use vstd::prelude::*;

use crate::codec::{
    lemma_encode_records_len, lemma_lock_round_trip, lemma_parse_records_valid,
    lemma_records_round_trip, records_valid, spec_encode_lock, spec_encode_records,
};
use crate::instant::{EndTime, StartTime, TimeRecord};
use crate::storage::{
    doc_view, spec_load, spec_read_lock, AcquireOutcome, LockError, LockState, RecordStore,
    StoreError,
};

verus! {

/// The outcome of `start`: either this call began tracking, or a session
/// was already running and nothing changed.
#[derive(Debug, Clone, Copy, PartialEq, Eq, Structural)]
pub enum StartupStatus {
    /// Time tracking started.
    Started,
    /// Time tracking was already running.
    Running,
}

/// What went wrong in a tracker operation.
#[derive(Debug, Clone, Copy, PartialEq, Eq, Structural)]
pub enum TrackerErrorKind {
    /// `stop` was called with no session running.
    NotRunning,
    /// The lock marker exists but its content cannot be read.
    CorruptLock,
    /// The record document exists but its content cannot be read.
    CorruptStore,
    /// The stop instant lies before the recorded start instant; storing it
    /// would create a record with a negative duration.
    NegativeInterval,
}

/// A tracker operation failed; `kind` says in which phase.
#[derive(Debug, Clone, Copy, PartialEq, Eq, Structural)]
pub struct TrackerError {
    pub kind: TrackerErrorKind,
}

/// The tracker's abstract state: the contents of the lock marker and of the
/// record document.
#[verifier::ext_equal]
pub ghost struct TrackerModel {
    pub lock: Option<Seq<u8>>,
    pub db: Option<Seq<u8>>,
}

/// The `start` transition: with the lock present nothing changes and the
/// caller learns a session was already running; otherwise the lock document
/// for `now` is created.
pub open spec fn spec_start(m: TrackerModel, now: StartTime) -> (TrackerModel, StartupStatus) {
    if m.lock is Some {
        (m, StartupStatus::Running)
    } else {
        (TrackerModel { lock: Some(spec_encode_lock(now)), db: m.db }, StartupStatus::Started)
    }
}

/// The `stop` transition: read the start instant from the lock, append the
/// completed session to the record document, then drop the lock. On any
/// failure nothing changes.
pub open spec fn spec_stop(m: TrackerModel, now: EndTime) -> (TrackerModel, Result<
    (),
    TrackerError,
>) {
    match spec_read_lock(m.lock) {
        Err(LockError::NotLocked) => (m, Err(TrackerError { kind: TrackerErrorKind::NotRunning })),
        Err(LockError::CorruptLock) => (
            m,
            Err(TrackerError { kind: TrackerErrorKind::CorruptLock }),
        ),
        Ok(start) => if now.millis < start.millis {
            (m, Err(TrackerError { kind: TrackerErrorKind::NegativeInterval }))
        } else {
            match spec_load(m.db) {
                None => (m, Err(TrackerError { kind: TrackerErrorKind::CorruptStore })),
                Some(rs) => (
                    TrackerModel {
                        lock: None,
                        db: Some(
                            spec_encode_records(rs.push(TimeRecord { start, end: now })),
                        ),
                    },
                    Ok(()),
                ),
            }
        },
    }
}

/// The tracker over flat-document storage: a record document and a lock
/// marker document.
#[derive(Debug)]
pub struct FlatFileTracker {
    database: RecordStore,
    lockfile: LockState,
}

impl View for FlatFileTracker {
    type V = TrackerModel;

    closed spec fn view(&self) -> TrackerModel {
        TrackerModel { lock: self.lockfile@, db: self.database@ }
    }
}

impl FlatFileTracker {
    /// A tracker over the given artifact contents; `None` means the
    /// artifact does not exist.
    pub fn new(database: Option<Vec<u8>>, lockfile: Option<Vec<u8>>) -> (t: Self)
        ensures
            t@ == (TrackerModel { lock: doc_view(lockfile), db: doc_view(database) }),
    {
        FlatFileTracker { database: RecordStore::new(database), lockfile: LockState::new(lockfile) }
    }

    /// Begins tracking at `now` if no session is running. Calling `start`
    /// while running mutates nothing and reports `Running`, a normal
    /// outcome, never an error.
    pub fn start(&mut self, now: StartTime) -> (r: StartupStatus)
        ensures
            final(self)@ == spec_start(old(self)@, now).0,
            r == spec_start(old(self)@, now).1,
    {
        match self.lockfile.acquire(now) {
            AcquireOutcome::Acquired => StartupStatus::Started,
            AcquireOutcome::AlreadyLocked => StartupStatus::Running,
        }
    }

    /// Whether a session is currently running.
    pub fn is_running(&self) -> (b: bool)
        ensures
            b == (self@.lock is Some),
    {
        self.lockfile.is_locked()
    }

    /// Ends the running session at `now`: appends the completed record to
    /// the store, then releases the lock, in that order, so a failure in
    /// between cannot lose the session.
    pub fn stop(&mut self, now: EndTime) -> (r: Result<(), TrackerError>)
        ensures
            final(self)@ == spec_stop(old(self)@, now).0,
            r == spec_stop(old(self)@, now).1,
    {
        let start = match self.lockfile.read() {
            Ok(t) => t,
            Err(LockError::NotLocked) => {
                return Err(TrackerError { kind: TrackerErrorKind::NotRunning });
            },
            Err(LockError::CorruptLock) => {
                return Err(TrackerError { kind: TrackerErrorKind::CorruptLock });
            },
        };
        if now.millis < start.millis {
            return Err(TrackerError { kind: TrackerErrorKind::NegativeInterval });
        }
        let record = TimeRecord { start, end: now };
        match self.database.append(record) {
            Ok(()) => {},
            Err(StoreError::CorruptStore) => {
                return Err(TrackerError { kind: TrackerErrorKind::CorruptStore });
            },
        }
        let _ = self.lockfile.release();
        Ok(())
    }

    /// Whether any completed session is stored.
    pub fn has_records(&self) -> (r: Result<bool, TrackerError>)
        ensures
            spec_load(self@.db) matches Some(rs) ==> r == Ok::<bool, TrackerError>(rs.len() > 0),
            spec_load(self@.db) is None ==> r == Err::<bool, TrackerError>(
                TrackerError { kind: TrackerErrorKind::CorruptStore },
            ),
    {
        match self.database.load() {
            Ok(db) => Ok(!db.is_empty()),
            Err(StoreError::CorruptStore) => Err(
                TrackerError { kind: TrackerErrorKind::CorruptStore },
            ),
        }
    }

    /// The full ordered sequence of persisted session records, read afresh
    /// from the current storage content.
    pub fn records(&self) -> (r: Result<Vec<TimeRecord>, TrackerError>)
        ensures
            spec_load(self@.db) matches Some(rs) ==> r matches Ok(v) && v@ == rs,
            spec_load(self@.db) is None ==> r == Err::<Vec<TimeRecord>, TrackerError>(
                TrackerError { kind: TrackerErrorKind::CorruptStore },
            ),
    {
        match self.database.load() {
            Ok(db) => Ok(db.into_records()),
            Err(StoreError::CorruptStore) => Err(
                TrackerError { kind: TrackerErrorKind::CorruptStore },
            ),
        }
    }

    /// The record document content to persist.
    pub fn database_content(&self) -> (c: &Option<Vec<u8>>)
        ensures
            doc_view(*c) == self@.db,
    {
        self.database.content()
    }

    /// The lock marker content to persist.
    pub fn lockfile_content(&self) -> (c: &Option<Vec<u8>>)
        ensures
            doc_view(*c) == self@.lock,
    {
        self.lockfile.content()
    }
}

/// The state after a sequence of `start` transitions.
pub open spec fn start_state_at(m: TrackerModel, nows: Seq<StartTime>) -> TrackerModel
    decreases nows.len(),
{
    if nows.len() == 0 {
        m
    } else {
        spec_start(start_state_at(m, nows.drop_last()), nows.last()).0
    }
}

/// The outcome of the `i`-th `start` in a sequence of starts.
pub open spec fn start_outcome_at(m: TrackerModel, nows: Seq<StartTime>, i: int) -> StartupStatus {
    spec_start(start_state_at(m, nows.subrange(0, i)), nows[i]).1
}

/// Mutual exclusion: over any sequence of `start` calls against the same
/// idle storage without an intervening `stop`, exactly the first reports
/// `Started`; every later one reports `Running` and mutates nothing, so the
/// state stays what the first call made it.
pub proof fn lemma_start_mutual_exclusion(m: TrackerModel, nows: Seq<StartTime>, i: int)
    requires
        m.lock is None,
        0 <= i < nows.len(),
    ensures
        start_outcome_at(m, nows, 0) == StartupStatus::Started,
        i > 0 ==> start_outcome_at(m, nows, i) == StartupStatus::Running,
        start_state_at(m, nows.subrange(0, i + 1)) == spec_start(m, nows[0]).0,
    decreases i,
{
    if i == 0 {
        assert(nows.subrange(0, 0) =~= Seq::<StartTime>::empty());
        let s1 = nows.subrange(0, 1);
        assert(s1.drop_last() =~= Seq::<StartTime>::empty());
        assert(s1.last() == nows[0]);
    } else {
        lemma_start_mutual_exclusion(m, nows, i - 1);
        let si1 = nows.subrange(0, i + 1);
        assert(si1.drop_last() =~= nows.subrange(0, i));
        assert(si1.last() == nows[i]);
        assert(start_state_at(m, nows.subrange(0, i)).lock is Some);
    }
}

/// Round trip: against idle storage with a readable record document,
/// `start` then `stop` reports `Started` then succeeds, leaves the system
/// idle, and appends exactly one new record whose interval is exactly the
/// span between the two injected instants.
pub proof fn lemma_start_stop_round_trip(m: TrackerModel, begin: StartTime, finish: EndTime)
    requires
        m.lock is None,
        spec_load(m.db) is Some,
        begin.millis <= finish.millis,
    ensures
        ({
            let m1 = spec_start(m, begin).0;
            let m2 = spec_stop(m1, finish).0;
            let record = TimeRecord { start: begin, end: finish };
            &&& spec_start(m, begin).1 == StartupStatus::Started
            &&& spec_stop(m1, finish).1 == Ok::<(), TrackerError>(())
            &&& m2.lock is None
            &&& spec_load(m2.db) == Some(spec_load(m.db).unwrap().push(record))
            &&& record.spec_duration_millis() == finish.millis - begin.millis
        }),
{
    lemma_lock_round_trip(begin);
    let rs = spec_load(m.db).unwrap();
    if let Some(b) = m.db {
        if b.len() != 0 {
            lemma_parse_records_valid(b);
        }
    }
    let record = TimeRecord { start: begin, end: finish };
    assert(records_valid(rs.push(record)));
    lemma_records_round_trip(rs.push(record));
    lemma_encode_records_len(rs.push(record));
}

/// Stopping while idle fails with `NotRunning` and mutates nothing.
pub proof fn lemma_stop_idle_fails(m: TrackerModel, now: EndTime)
    requires
        m.lock is None,
    ensures
        spec_stop(m, now).0 == m,
        spec_stop(m, now).1 == Err::<(), TrackerError>(
            TrackerError { kind: TrackerErrorKind::NotRunning },
        ),
{
}

/// Persistence across instances: after one tracker starts and stops a
/// session, a tracker newly constructed over the persisted record document
/// reports exactly the records of the first, the new session included —
/// what `records` yields depends on the record document alone.
pub proof fn lemma_persistence_across_instances(
    m: TrackerModel,
    begin: StartTime,
    finish: EndTime,
    fresh_lock: Option<Seq<u8>>,
)
    requires
        m.lock is None,
        spec_load(m.db) is Some,
        begin.millis <= finish.millis,
    ensures
        ({
            let written = spec_stop(spec_start(m, begin).0, finish).0;
            let fresh = TrackerModel { lock: fresh_lock, db: written.db };
            spec_load(fresh.db) == Some(
                spec_load(m.db).unwrap().push(TimeRecord { start: begin, end: finish }),
            )
        }),
{
    lemma_start_stop_round_trip(m, begin, finish);
}

} // verus!
