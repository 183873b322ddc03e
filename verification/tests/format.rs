//! Duration formatting.

use std::time::Duration;

use time_tracker::report_fmt::HMSFormatter;

#[test]
fn formats_seconds() {
    let duration = Duration::from_secs(5);

    let formatter = HMSFormatter::default();

    let text = formatter.format(duration.as_millis());

    assert_eq!(text, "00:00:05");
}

#[test]
fn formats_hours_minutes_and_seconds() {
    let formatter = HMSFormatter::default();
    assert_eq!(formatter.format(Duration::from_secs(3_661).as_millis()), "01:01:01");
    assert_eq!(formatter.format(0), "00:00:00");
    assert_eq!(formatter.format(59_999), "00:00:59");
}

#[test]
fn hours_grow_past_two_digits() {
    let formatter = HMSFormatter::default();
    let hundred_hours = Duration::from_secs(100 * 3_600);
    assert_eq!(formatter.format(hundred_hours.as_millis()), "100:00:00");
}
