//! Points in time, as the board status records them.

use vstd::prelude::*;

verus! {

/// Nanoseconds in one second.
pub const NANOS_PER_SEC: i128 = 1_000_000_000;

/// Largest value that the elapsed-time panel can show.
pub const MAX_DISPLAY_SECONDS: isize = 999;

/// A point in time: whole seconds since the Unix epoch and the nanoseconds
/// past that second.
#[derive(Copy, Clone, PartialEq, Eq, Debug, Structural)]
pub struct Timestamp {
    pub secs: i64,
    pub nanos: u32,
}

impl Timestamp {
    /// The point in time as nanoseconds since the Unix epoch.
    pub open spec fn total_nanos(self) -> int {
        self.secs * 1_000_000_000 + self.nanos
    }

    /// Whole seconds from `self` to `end`, shown as 0 when `end` is earlier
    /// and as 999 when more than 999 seconds have passed.
    pub open spec fn display_seconds_until(self, end: Timestamp) -> int {
        let whole = (end.total_nanos() - self.total_nanos()) / 1_000_000_000;
        if whole < 0 {
            0
        } else if whole > 999 {
            999
        } else {
            whole
        }
    }

    /// Reads the system clock.
    ///
    /// Trusted: calls `chrono::Local::now` and copies `DateTime::timestamp`
    /// and `DateTime::timestamp_subsec_nanos` out of its result. Nothing is
    /// claimed of the value, which depends on the machine's clock.
    #[verifier::external_body]
    pub(crate) fn now() -> Timestamp {
        let t = chrono::Local::now();
        Timestamp { secs: t.timestamp(), nanos: t.timestamp_subsec_nanos() }
    }

    /// Computes the seconds between two points in time for the elapsed-time
    /// panel, clamped to what three digits can show.
    pub fn seconds_until(&self, end: &Timestamp) -> (r: isize)
        ensures
            r == self.display_seconds_until(*end),
            0 <= r <= MAX_DISPLAY_SECONDS,
    {
        let start_nanos: i128 = (self.secs as i128) * NANOS_PER_SEC + (self.nanos as i128);
        let end_nanos: i128 = (end.secs as i128) * NANOS_PER_SEC + (end.nanos as i128);
        let diff: i128 = end_nanos - start_nanos;
        if diff < 0 {
            0
        } else {
            let whole: i128 = diff / NANOS_PER_SEC;
            if whole > 999 {
                MAX_DISPLAY_SECONDS
            } else {
                whole as isize
            }
        }
    }
}

} // verus!
