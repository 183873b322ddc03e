//! The storage components and their document format.

use time_tracker::codec::{encode_lock, encode_records, parse_lock, parse_records};
use time_tracker::instant::{EndTime, StartTime, TimeRecord};
use time_tracker::storage::{AcquireOutcome, FlatFileDatabase, LockError, LockState, RecordStore, StoreError};

fn record(start: u64, end: u64) -> TimeRecord {
    TimeRecord { start: StartTime { millis: start }, end: EndTime { millis: end } }
}

#[test]
fn record_document_round_trips() {
    let records = vec![record(0, 1), record(5_000, 7_250), record(u64::MAX, u64::MAX)];
    let encoded = encode_records(&records);
    assert_eq!(parse_records(&encoded), Some(records));
}

#[test]
fn record_document_is_sortable_text() {
    let encoded = encode_records(&vec![record(12, 345)]);
    assert_eq!(
        encoded,
        b"00000000000000000012,00000000000000000345\n".to_vec(),
    );
}

#[test]
fn corrupt_record_documents_are_rejected() {
    // Not a whole number of lines.
    assert_eq!(parse_records(&b"0001".to_vec()), None);
    // A digit replaced by a letter.
    assert_eq!(parse_records(&b"0000000000000000001x,00000000000000000345\n".to_vec()), None);
    // Wrong separators.
    assert_eq!(parse_records(&b"00000000000000000012;00000000000000000345\n".to_vec()), None);
    // A value past the largest representable instant.
    assert_eq!(parse_records(&b"99999999999999999999,99999999999999999999\n".to_vec()), None);
    // A session that ends before it starts stands for a negative duration.
    assert_eq!(parse_records(&b"00000000000000000345,00000000000000000012\n".to_vec()), None);
}

#[test]
fn lock_document_round_trips() {
    let start = StartTime { millis: 42 };
    let encoded = encode_lock(start);
    assert_eq!(encoded, b"00000000000000000042".to_vec());
    assert_eq!(parse_lock(&encoded), Some(start));
    assert_eq!(parse_lock(&b"epoch".to_vec()), None);
}

#[test]
fn store_load_treats_absent_and_empty_as_no_records() {
    assert!(RecordStore::new(None).load().unwrap().is_empty());
    assert!(RecordStore::new(Some(Vec::new())).load().unwrap().is_empty());
    assert_eq!(
        RecordStore::new(Some(b"???".to_vec())).load().unwrap_err(),
        StoreError::CorruptStore,
    );
}

#[test]
fn store_append_keeps_prior_records_in_order() {
    let mut store = RecordStore::new(None);
    store.append(record(1, 2)).unwrap();
    store.append(record(9, 10)).unwrap();
    // Insertion order is stop order: a later session may start earlier.
    store.append(record(5, 6)).unwrap();

    let loaded = store.load().unwrap().into_records();
    assert_eq!(loaded, vec![record(1, 2), record(9, 10), record(5, 6)]);
}

#[test]
fn database_push_appends() {
    let mut db = FlatFileDatabase::default();
    assert!(db.is_empty());
    db.push(record(1, 2));
    db.push(record(3, 4));
    assert_eq!(db.records(), &vec![record(1, 2), record(3, 4)]);
}

#[test]
fn lock_acquire_is_exclusive() {
    let mut lock = LockState::new(None);
    assert!(!lock.is_locked());
    assert_eq!(lock.acquire(StartTime { millis: 7 }), AcquireOutcome::Acquired);
    assert!(lock.is_locked());
    // The second acquire is refused and changes nothing.
    assert_eq!(lock.acquire(StartTime { millis: 8 }), AcquireOutcome::AlreadyLocked);
    assert_eq!(lock.read(), Ok(StartTime { millis: 7 }));
}

#[test]
fn lock_read_and_release_report_their_failures() {
    let mut absent = LockState::new(None);
    assert_eq!(absent.read(), Err(LockError::NotLocked));
    assert_eq!(absent.release(), Err(LockError::NotLocked));

    let mut corrupt = LockState::new(Some(b"not twenty digits".to_vec()));
    assert_eq!(corrupt.read(), Err(LockError::CorruptLock));
    // A corrupt marker still exists, and release still removes it.
    assert!(corrupt.is_locked());
    assert_eq!(corrupt.release(), Ok(()));
    assert!(!corrupt.is_locked());
}
