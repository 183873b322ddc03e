//! Instants and session records.
//!
//! An instant is an absolute point in time, held as milliseconds since the
//! Unix epoch in UTC. All comparisons and arithmetic happen on that plain
//! number; display concerns belong to collaborators.

use vstd::prelude::*;

verus! {

/// The start instant of a session, in milliseconds since the Unix epoch (UTC).
#[derive(Debug, Clone, Copy, PartialEq, Eq, Structural)]
pub struct StartTime {
    pub millis: u64,
}

/// The end instant of a session, in milliseconds since the Unix epoch (UTC).
#[derive(Debug, Clone, Copy, PartialEq, Eq, Structural)]
pub struct EndTime {
    pub millis: u64,
}

/// One completed session: the interval from `start` to `end`.
///
/// A record is well formed when `end >= start`; a negative interval is a
/// data-corruption signal and is surfaced as an error wherever it could
/// arise, never clamped.
#[derive(Debug, Clone, Copy, PartialEq, Eq, Structural)]
pub struct TimeRecord {
    pub start: StartTime,
    pub end: EndTime,
}

impl TimeRecord {
    /// Well-formedness: the session ends no earlier than it starts.
    pub open spec fn valid(self) -> bool {
        self.start.millis <= self.end.millis
    }

    /// The session's length in milliseconds.
    pub open spec fn spec_duration_millis(self) -> int {
        self.end.millis - self.start.millis
    }

    /// The session's length in milliseconds.
    pub fn duration_millis(&self) -> (d: u64)
        requires
            self.valid(),
        ensures
            d == self.spec_duration_millis(),
    {
        self.end.millis - self.start.millis
    }
}

/// A raw wall-clock reading: whether the clock stood before the Unix epoch,
/// and its distance from the epoch in milliseconds.
///
/// Relies on `std::time::SystemTime::now` for the reading and on
/// `SystemTime::duration_since(UNIX_EPOCH)` to place it: per its
/// documentation, that call returns `Ok` with the elapsed duration for a
/// clock at or after the epoch, and `Err` holding how far before the epoch
/// the clock stands otherwise — it never panics, unlike clock entry points
/// that unwrap this very result. Nothing can be promised of what the clock
/// reads.
#[verifier::external_body]
fn read_system_clock() -> (bool, u128) {
    match std::time::SystemTime::now().duration_since(std::time::UNIX_EPOCH) {
        Ok(elapsed) => (false, elapsed.as_millis()),
        Err(err) => (true, err.duration().as_millis()),
    }
}

/// What a raw clock reading becomes as an instant: a clock before the epoch
/// reads as the epoch itself, and one past the largest representable
/// instant reads as that largest instant.
pub open spec fn spec_clamp_clock(before_epoch: bool, millis_from_epoch: u128) -> u64 {
    if before_epoch {
        0u64
    } else if millis_from_epoch > u64::MAX {
        u64::MAX
    } else {
        millis_from_epoch as u64
    }
}

/// Clamps a raw clock reading to the representable instants.
pub fn clamp_clock_reading(before_epoch: bool, millis_from_epoch: u128) -> (m: u64)
    ensures
        m == spec_clamp_clock(before_epoch, millis_from_epoch),
{
    if before_epoch {
        0
    } else if millis_from_epoch > u64::MAX as u128 {
        u64::MAX
    } else {
        millis_from_epoch as u64
    }
}

impl StartTime {
    /// The current instant, by the system clock.
    pub fn now() -> Self {
        let (before_epoch, millis_from_epoch) = read_system_clock();
        StartTime { millis: clamp_clock_reading(before_epoch, millis_from_epoch) }
    }
}

impl EndTime {
    /// The current instant, by the system clock.
    pub fn now() -> Self {
        let (before_epoch, millis_from_epoch) = read_system_clock();
        EndTime { millis: clamp_clock_reading(before_epoch, millis_from_epoch) }
    }
}

} // verus!
