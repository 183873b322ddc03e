//! The reporter: aggregate tracked time over a trailing window.
//!
//! A record counts when its start instant lies at or after the cutoff
//! `now - window`; the filter is on the start instant only, so a session
//! that began before the cutoff is excluded entirely even if it ended
//! inside the window. That is the documented current semantics.

use vstd::prelude::*;
use vstd::arithmetic::mul::lemma_mul_inequality;

use crate::codec::{lemma_parse_records_valid, records_valid};
use crate::instant::{EndTime, TimeRecord};
use crate::storage::spec_load;
use crate::tracker::FlatFileTracker;

verus! {

/// The trailing window a report covers.
#[derive(Debug, Clone, Copy, PartialEq, Eq, Structural)]
pub enum ReportTimespan {
    /// Sessions whose start lies within the last so many milliseconds.
    Last(u64),
}

/// The reporter could not read the stored sessions.
#[derive(Debug, Clone, Copy, PartialEq, Eq, Structural)]
pub struct ReporterError;

/// The window's cutoff instant: `now` less the window, saturating at the
/// epoch.
pub open spec fn spec_cutoff(now: EndTime, timespan: ReportTimespan) -> u64 {
    match timespan {
        ReportTimespan::Last(d) => if now.millis >= d {
            (now.millis - d) as u64
        } else {
            0u64
        },
    }
}

/// The summed duration, in milliseconds, of the records whose start instant
/// is at or after `cutoff`.
pub open spec fn spec_window_total(rs: Seq<TimeRecord>, cutoff: u64) -> int
    decreases rs.len(),
{
    if rs.len() == 0 {
        0
    } else {
        spec_window_total(rs.drop_last(), cutoff) + if rs.last().start.millis >= cutoff {
            rs.last().spec_duration_millis()
        } else {
            0
        }
    }
}

/// An empty store reports a zero duration, never an error.
pub proof fn lemma_empty_report(cutoff: u64)
    ensures
        spec_window_total(Seq::<TimeRecord>::empty(), cutoff) == 0,
{
}

/// Sums the durations of the records whose start lies at or after `cutoff`.
pub fn window_total(records: &Vec<TimeRecord>, cutoff: u64) -> (total: u128)
    requires
        records_valid(records@),
    ensures
        total == spec_window_total(records@, cutoff),
{
    let mut total: u128 = 0;
    let mut i: usize = 0;
    while i < records.len()
        invariant
            i <= records.len(),
            records_valid(records@),
            total == spec_window_total(records@.subrange(0, i as int), cutoff),
            total <= (i as int) * (u64::MAX as int),
        decreases records.len() - i,
    {
        let r = records[i];
        proof {
            assert(records@.subrange(0, i + 1).drop_last() =~= records@.subrange(0, i as int));
            assert(records@.subrange(0, i + 1).last() == records@[i as int]);
            assert(records@[i as int].valid());
            lemma_mul_inequality(i as int, usize::MAX - 1, u64::MAX as int);
        }
        if r.start.millis >= cutoff {
            let d = r.duration_millis();
            total = total + d as u128;
        }
        i = i + 1;
    }
    proof {
        assert(records@.subrange(0, records@.len() as int) =~= records@);
    }
    total
}

impl FlatFileTracker {
    /// The total tracked duration, in milliseconds, over the sessions whose
    /// start lies within the window ending at `now`. No stored sessions, or
    /// none in the window, yield zero, never an error; an unreadable record
    /// document is an error.
    pub fn total_duration(&self, now: EndTime, timespan: ReportTimespan) -> (r: Result<
        u128,
        ReporterError,
    >)
        ensures
            spec_load(self@.db) matches Some(rs) ==> r matches Ok(t) && t == spec_window_total(
                rs,
                spec_cutoff(now, timespan),
            ),
            spec_load(self@.db) is None ==> r == Err::<u128, ReporterError>(ReporterError),
    {
        let cutoff = match timespan {
            ReportTimespan::Last(window) => if now.millis >= window {
                now.millis - window
            } else {
                0
            },
        };
        let records = match self.records() {
            Ok(v) => v,
            Err(_) => {
                return Err(ReporterError);
            },
        };
        proof {
            if let Some(b) = self@.db {
                if b.len() != 0 {
                    lemma_parse_records_valid(b);
                }
            }
            assert(records_valid(records@));
        }
        Ok(window_total(&records, cutoff))
    }
}

} // verus!
