//! The two durable artifacts, held as in-memory document contents.
//!
//! `RecordStore` is the append-only collection of completed sessions,
//! persisted as one record document. `LockState` is the optional marker of a
//! running session; its presence alone is the "running" signal, and its
//! content is the session's start instant. `None` stands for an absent
//! artifact. The binary around the library moves these contents between
//! memory and the backing files.

use vstd::prelude::*;

use crate::codec::{
    encode_lock, encode_records, lemma_encode_records_len, lemma_parse_records_valid,
    lemma_records_round_trip, parse_lock, parse_records, records_valid, spec_encode_lock,
    spec_encode_records, spec_parse_lock, spec_parse_records,
};
use crate::instant::{StartTime, TimeRecord};

verus! {

/// The content of an optional document, as a sequence of bytes.
pub open spec fn doc_view(content: Option<Vec<u8>>) -> Option<Seq<u8>> {
    match content {
        Some(bytes) => Some(bytes@),
        None => None,
    }
}

/// The ordered collection of completed sessions, in append order.
#[derive(Debug)]
pub struct FlatFileDatabase {
    records: Vec<TimeRecord>,
}

impl View for FlatFileDatabase {
    type V = Seq<TimeRecord>;

    closed spec fn view(&self) -> Seq<TimeRecord> {
        self.records@
    }
}

impl Default for FlatFileDatabase {
    /// An empty collection.
    fn default() -> (db: Self)
        ensures
            db@ == Seq::<TimeRecord>::empty(),
    {
        FlatFileDatabase { records: Vec::new() }
    }
}

impl FlatFileDatabase {
    /// Appends one record.
    pub fn push(&mut self, value: TimeRecord)
        ensures
            final(self)@ == old(self)@.push(value),
    {
        self.records.push(value)
    }

    /// The records, in append order.
    pub fn records(&self) -> (r: &Vec<TimeRecord>)
        ensures
            r@ == self@,
    {
        &self.records
    }

    /// The records, in append order, as an owned vector.
    pub fn into_records(self) -> (r: Vec<TimeRecord>)
        ensures
            r@ == self@,
    {
        self.records
    }

    /// Whether the collection holds no record.
    pub fn is_empty(&self) -> (b: bool)
        ensures
            b == (self@.len() == 0),
    {
        self.records.len() == 0
    }
}

/// Failure of the record store: the document exists but cannot be read as a
/// sequence of records. Never auto-repaired; that would destroy history.
#[derive(Debug, Clone, Copy, PartialEq, Eq, Structural)]
pub enum StoreError {
    CorruptStore,
}

/// What a record document content holds: records, an empty sequence for an
/// absent or empty document (first use is not an error), or nothing when
/// the content is corrupt.
pub open spec fn spec_load(c: Option<Seq<u8>>) -> Option<Seq<TimeRecord>> {
    match c {
        None => Some(Seq::<TimeRecord>::empty()),
        Some(b) => if b.len() == 0 {
            Some(Seq::<TimeRecord>::empty())
        } else {
            spec_parse_records(b)
        },
    }
}

/// The durable, append-only store of completed sessions, as the content of
/// its backing document.
#[derive(Debug)]
pub struct RecordStore {
    content: Option<Vec<u8>>,
}

impl View for RecordStore {
    type V = Option<Seq<u8>>;

    closed spec fn view(&self) -> Option<Seq<u8>> {
        doc_view(self.content)
    }
}

impl RecordStore {
    /// A store over the given document content; `None` means the document
    /// does not exist yet.
    pub fn new(content: Option<Vec<u8>>) -> (s: Self)
        ensures
            s@ == doc_view(content),
    {
        RecordStore { content }
    }

    /// The document content to persist.
    pub fn content(&self) -> (c: &Option<Vec<u8>>)
        ensures
            doc_view(*c) == self@,
    {
        &self.content
    }

    /// Reads the persisted records. An absent or empty document is an empty
    /// collection; unreadable content fails with `CorruptStore` and is never
    /// silently discarded.
    pub fn load(&self) -> (r: Result<FlatFileDatabase, StoreError>)
        ensures
            match r {
                Ok(db) => spec_load(self@) == Some(db@),
                Err(e) => spec_load(self@) is None && e == StoreError::CorruptStore,
            },
    {
        match &self.content {
            None => Ok(FlatFileDatabase { records: Vec::new() }),
            Some(bytes) => {
                if bytes.len() == 0 {
                    Ok(FlatFileDatabase { records: Vec::new() })
                } else {
                    match parse_records(bytes) {
                        Some(records) => Ok(FlatFileDatabase { records }),
                        None => Err(StoreError::CorruptStore),
                    }
                }
            },
        }
    }

    /// Appends one completed session: load, modify, save, as one transaction
    /// from the caller's view. After a successful append a load returns all
    /// previously stored records plus the new one, in append order.
    pub fn append(&mut self, record: TimeRecord) -> (r: Result<(), StoreError>)
        requires
            record.valid(),
        ensures
            match r {
                Ok(()) => {
                    &&& spec_load(old(self)@) matches Some(rs)
                    &&& final(self)@ == Some(
                        spec_encode_records(spec_load(old(self)@).unwrap().push(record)),
                    )
                    &&& spec_load(final(self)@) == Some(
                        spec_load(old(self)@).unwrap().push(record),
                    )
                },
                Err(e) => {
                    &&& spec_load(old(self)@) is None
                    &&& final(self)@ == old(self)@
                    &&& e == StoreError::CorruptStore
                },
            },
    {
        let mut db = match self.load() {
            Ok(db) => db,
            Err(e) => {
                return Err(e);
            },
        };
        db.push(record);
        proof {
            let ghost rs = spec_load(self@).unwrap();
            if let Some(b) = self@ {
                if b.len() != 0 {
                    lemma_parse_records_valid(b);
                }
            }
            assert(records_valid(rs.push(record)));
            lemma_records_round_trip(rs.push(record));
            lemma_encode_records_len(rs.push(record));
        }
        let encoded = encode_records(db.records());
        self.content = Some(encoded);
        Ok(())
    }
}

/// Failure of a lock-state operation.
#[derive(Debug, Clone, Copy, PartialEq, Eq, Structural)]
pub enum LockError {
    /// No session is running: the marker does not exist.
    NotLocked,
    /// The marker exists but its content cannot be read as a start instant.
    CorruptLock,
}

/// The outcome of trying to acquire the lock.
#[derive(Debug, Clone, Copy, PartialEq, Eq, Structural)]
pub enum AcquireOutcome {
    /// The marker did not exist and was created.
    Acquired,
    /// The marker already existed; nothing changed.
    AlreadyLocked,
}

/// What a present lock document content holds: the start instant, or
/// nothing when the content is corrupt.
pub open spec fn spec_read_lock(c: Option<Seq<u8>>) -> Result<StartTime, LockError> {
    match c {
        None => Err(LockError::NotLocked),
        Some(b) => match spec_parse_lock(b) {
            Some(t) => Ok(t),
            None => Err(LockError::CorruptLock),
        },
    }
}

/// The durable marker of a running session, as the content of its backing
/// document. Its existence is the mutual-exclusion primitive: at most one
/// session runs against one storage target.
#[derive(Debug)]
pub struct LockState {
    content: Option<Vec<u8>>,
}

impl View for LockState {
    type V = Option<Seq<u8>>;

    closed spec fn view(&self) -> Option<Seq<u8>> {
        doc_view(self.content)
    }
}

impl LockState {
    /// A lock state over the given marker content; `None` means the marker
    /// does not exist.
    pub fn new(content: Option<Vec<u8>>) -> (s: Self)
        ensures
            s@ == doc_view(content),
    {
        LockState { content }
    }

    /// The marker content to persist.
    pub fn content(&self) -> (c: &Option<Vec<u8>>)
        ensures
            doc_view(*c) == self@,
    {
        &self.content
    }

    /// Whether a session is running: a cheap existence check. Never fails.
    pub fn is_locked(&self) -> (b: bool)
        ensures
            b == (self@ is Some),
    {
        self.content.is_some()
    }

    /// Creates the marker for a session started at `start`. If the marker
    /// already exists nothing changes and the outcome says so: a second
    /// start is a normal, distinct outcome, not an error.
    pub fn acquire(&mut self, start: StartTime) -> (r: AcquireOutcome)
        ensures
            old(self)@ is Some ==> r == AcquireOutcome::AlreadyLocked && final(self)@ == old(
                self,
            )@,
            old(self)@ is None ==> r == AcquireOutcome::Acquired && final(self)@ == Some(
                spec_encode_lock(start),
            ),
    {
        if self.content.is_some() {
            AcquireOutcome::AlreadyLocked
        } else {
            self.content = Some(encode_lock(start));
            AcquireOutcome::Acquired
        }
    }

    /// Reads the running session's start instant.
    pub fn read(&self) -> (r: Result<StartTime, LockError>)
        ensures
            r == spec_read_lock(self@),
    {
        match &self.content {
            None => Err(LockError::NotLocked),
            Some(bytes) => match parse_lock(bytes) {
                Some(t) => Ok(t),
                None => Err(LockError::CorruptLock),
            },
        }
    }

    /// Removes the marker. Removing an absent marker is a caller error,
    /// surfaced as `NotLocked`, never silently ignored.
    pub fn release(&mut self) -> (r: Result<(), LockError>)
        ensures
            match r {
                Ok(()) => old(self)@ is Some && final(self)@ is None,
                Err(e) => {
                    &&& old(self)@ is None
                    &&& final(self)@ == old(self)@
                    &&& e == LockError::NotLocked
                },
            },
    {
        if self.content.is_some() {
            self.content = None;
            Ok(())
        } else {
            Err(LockError::NotLocked)
        }
    }
}

} // verus!
