//! Tracker state-machine behaviour over fresh in-memory storage.

use time_tracker::instant::{EndTime, StartTime};
use time_tracker::tracker::{FlatFileTracker, StartupStatus, TrackerErrorKind};

#[test]
fn starts_tracking_with_default_tracker() {
    // Given a new tracker
    let mut tracker = FlatFileTracker::new(None, None);

    // When the tracker is started
    tracker.start(StartTime { millis: 1_000 });

    // Then the tracker is running
    assert!(tracker.is_running());
}

#[test]
fn is_running_returns_false_after_stopping_tracker() {
    // Given a new tracker
    let mut tracker = FlatFileTracker::new(None, None);

    // When the tracker is started and stopped
    tracker.start(StartTime { millis: 1_000 });
    tracker.stop(EndTime { millis: 2_000 }).unwrap();

    // Then the tracker is not running
    assert!(!tracker.is_running());
}

#[test]
fn time_record_created_when_tracking_stops() {
    // Given a new tracker
    let mut tracker = FlatFileTracker::new(None, None);

    // When the tracker runs for one second
    tracker.start(StartTime { millis: 1_000 });
    tracker.stop(EndTime { millis: 2_000 }).unwrap();

    // Then a record is saved
    assert!(tracker.records().unwrap().first().is_some());
}

#[test]
fn initial_start_returns_started_state() {
    // Given a new tracker
    let mut tracker = FlatFileTracker::new(None, None);

    // When the tracker is started
    let started = tracker.start(StartTime { millis: 1_000 });

    // Then the "started" state is returned
    assert_eq!(started, StartupStatus::Started);
}

#[test]
fn multiple_starts_returns_already_running_state() {
    // Given a new tracker
    let mut tracker = FlatFileTracker::new(None, None);

    // When the tracker is started twice
    tracker.start(StartTime { millis: 1_000 });
    let started = tracker.start(StartTime { millis: 2_000 });

    // Then the "already running" state is returned
    assert_eq!(started, StartupStatus::Running);
}

#[test]
fn repeated_starts_mutate_nothing() {
    let mut tracker = FlatFileTracker::new(None, None);
    assert_eq!(tracker.start(StartTime { millis: 1_000 }), StartupStatus::Started);
    let lock_after_first = tracker.lockfile_content().clone();
    let db_after_first = tracker.database_content().clone();

    for later in [2_000u64, 3_000, 4_000] {
        assert_eq!(tracker.start(StartTime { millis: later }), StartupStatus::Running);
        assert_eq!(tracker.lockfile_content(), &lock_after_first);
        assert_eq!(tracker.database_content(), &db_after_first);
    }
}

#[test]
fn stop_on_fresh_storage_fails_with_not_running() {
    let mut tracker = FlatFileTracker::new(None, None);

    let err = tracker.stop(EndTime { millis: 1_000 }).unwrap_err();

    assert_eq!(err.kind, TrackerErrorKind::NotRunning);
    assert!(tracker.records().unwrap().is_empty());
    assert!(!tracker.is_running());
}

#[test]
fn stop_before_start_instant_fails_and_keeps_running() {
    let mut tracker = FlatFileTracker::new(None, None);
    tracker.start(StartTime { millis: 2_000 });

    let err = tracker.stop(EndTime { millis: 1_000 }).unwrap_err();

    assert_eq!(err.kind, TrackerErrorKind::NegativeInterval);
    assert!(tracker.is_running());
    assert!(tracker.records().unwrap().is_empty());
}

#[test]
fn corrupt_lock_content_fails_stop() {
    let mut tracker = FlatFileTracker::new(None, Some(b"not an instant".to_vec()));

    let err = tracker.stop(EndTime { millis: 1_000 }).unwrap_err();

    assert_eq!(err.kind, TrackerErrorKind::CorruptLock);
    assert!(tracker.is_running());
}

#[test]
fn corrupt_record_document_fails_reads_and_stop() {
    let corrupt = Some(b"scribble".to_vec());
    let mut tracker = FlatFileTracker::new(corrupt.clone(), None);

    assert_eq!(tracker.records().unwrap_err().kind, TrackerErrorKind::CorruptStore);
    assert_eq!(tracker.has_records().unwrap_err().kind, TrackerErrorKind::CorruptStore);

    // A stop that cannot append leaves the system running and the store
    // untouched.
    tracker.start(StartTime { millis: 1_000 });
    let err = tracker.stop(EndTime { millis: 2_000 }).unwrap_err();
    assert_eq!(err.kind, TrackerErrorKind::CorruptStore);
    assert!(tracker.is_running());
    assert_eq!(tracker.database_content(), &corrupt);
}

#[test]
fn records_persist_across_instances() {
    let mut first = FlatFileTracker::new(None, None);
    first.start(StartTime { millis: 1_000 });
    first.stop(EndTime { millis: 3_500 }).unwrap();

    // A new tracker pointed at the same storage contents sees the records.
    let second = FlatFileTracker::new(
        first.database_content().clone(),
        first.lockfile_content().clone(),
    );
    assert_eq!(second.records().unwrap(), first.records().unwrap());
    assert!(second.has_records().unwrap());
    assert!(!second.is_running());
}

#[test]
fn end_to_end_session_is_recorded() {
    // Fresh storage: start reports Started.
    let mut tracker = FlatFileTracker::new(None, None);
    assert_eq!(tracker.start(StartTime { millis: 5_000 }), StartupStatus::Started);

    // One second later the stop succeeds.
    tracker.stop(EndTime { millis: 6_000 }).unwrap();

    // Exactly one record exists, at least one second long, and the tracker
    // is idle again.
    let records = tracker.records().unwrap();
    assert_eq!(records.len(), 1);
    assert!(records[0].duration_millis() >= 1_000);
    assert!(!tracker.is_running());
}

#[test]
fn system_clock_drives_a_session() {
    let mut tracker = FlatFileTracker::new(None, None);
    assert_eq!(tracker.start(StartTime::now()), StartupStatus::Started);
    let result = tracker.stop(EndTime::now());
    match result {
        Ok(()) => {
            assert_eq!(tracker.records().unwrap().len(), 1);
            assert!(!tracker.is_running());
        },
        // Only a clock that jumped backwards between the two readings may
        // refuse the stop, and then nothing has changed.
        Err(err) => {
            assert_eq!(err.kind, TrackerErrorKind::NegativeInterval);
            assert!(tracker.is_running());
        },
    }
}
