//! Reporter aggregation over stored sessions.

use std::time::Duration;

use time_tracker::instant::{EndTime, StartTime};
use time_tracker::reporter::{ReportTimespan, ReporterError};
use time_tracker::tracker::FlatFileTracker;

#[test]
fn calculate_correct_duration_when_there_are_no_records() {
    let tracker = FlatFileTracker::new(None, None);

    let duration = tracker
        .total_duration(EndTime { millis: 10_000 }, ReportTimespan::Last(1_000))
        .unwrap();

    assert_eq!(duration, Duration::from_millis(0).as_millis());
}

#[test]
fn calculate_correct_duration_when_there_are_two_records() {
    let mut tracker = FlatFileTracker::new(None, None);

    tracker.start(StartTime { millis: 1_500 });
    tracker.stop(EndTime { millis: 1_510 }).unwrap();

    tracker.start(StartTime { millis: 2_000 });
    tracker.stop(EndTime { millis: 2_010 }).unwrap();

    let duration = tracker
        .total_duration(
            EndTime { millis: 2_010 },
            ReportTimespan::Last(Duration::from_secs(1).as_millis() as u64),
        )
        .unwrap();

    assert!(duration >= Duration::from_millis(20).as_millis());
}

#[test]
fn window_filters_on_start_instant_only() {
    let hour: u64 = 3_600_000;
    let now: u64 = 10 * hour;
    let mut tracker = FlatFileTracker::new(None, None);

    // One session started two hours ago, ten minutes long.
    tracker.start(StartTime { millis: now - 2 * hour });
    tracker.stop(EndTime { millis: now - 2 * hour + 600_000 }).unwrap();

    // One session started half an hour ago, five minutes long.
    tracker.start(StartTime { millis: now - hour / 2 });
    tracker.stop(EndTime { millis: now - hour / 2 + 300_000 }).unwrap();

    // A one-hour window counts only the second session.
    let total = tracker
        .total_duration(EndTime { millis: now }, ReportTimespan::Last(hour))
        .unwrap();
    assert_eq!(total, 300_000);

    // A three-hour window counts both.
    let total = tracker
        .total_duration(EndTime { millis: now }, ReportTimespan::Last(3 * hour))
        .unwrap();
    assert_eq!(total, 900_000);
}

#[test]
fn window_larger_than_elapsed_time_counts_everything() {
    let mut tracker = FlatFileTracker::new(None, None);
    tracker.start(StartTime { millis: 100 });
    tracker.stop(EndTime { millis: 350 }).unwrap();

    // The cutoff saturates at the epoch, so a huge window keeps the record.
    let total = tracker
        .total_duration(EndTime { millis: 400 }, ReportTimespan::Last(u64::MAX))
        .unwrap();
    assert_eq!(total, 250);
}

#[test]
fn corrupt_store_is_a_reporter_error() {
    let tracker = FlatFileTracker::new(Some(b"garbage".to_vec()), None);

    let err = tracker
        .total_duration(EndTime { millis: 1_000 }, ReportTimespan::Last(1_000))
        .unwrap_err();

    assert_eq!(err, ReporterError);
}
