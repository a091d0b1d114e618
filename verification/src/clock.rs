//! Wall-clock instants as plain integers.
use vstd::prelude::*;

verus! {

/// An instant: whole seconds since the Unix epoch and the nanoseconds past
/// that second.
#[derive(Clone, Copy, Debug, PartialEq, Eq, Structural)]
pub struct Timestamp {
    pub secs: i64,
    pub nanos: u32,
}

/// One day in nanoseconds.
pub const DAY_NANOS: i128 = 86_400_000_000_000i128;

impl Timestamp {
    /// The instant in nanoseconds since the epoch.
    pub open spec fn total_nanos(self) -> int {
        self.secs * 1_000_000_000 + self.nanos
    }

    /// Nanoseconds from `earlier` to `self` (negative when `earlier` is later).
    pub fn nanos_since(self, earlier: Timestamp) -> (r: i128)
        ensures
            r == self.total_nanos() - earlier.total_nanos(),
    {
        let a: i128 = self.secs as i128 * 1_000_000_000i128 + self.nanos as i128;
        let b: i128 = earlier.secs as i128 * 1_000_000_000i128 + earlier.nanos as i128;
        a - b
    }

    /// More than one day lies between `earlier` and `self`.
    pub open spec fn more_than_a_day_after(self, earlier: Timestamp) -> bool {
        self.total_nanos() - earlier.total_nanos() > DAY_NANOS
    }
}

/// Reads the clock with `chrono::Utc::now` and splits the instant into
/// `timestamp()` and `timestamp_subsec_nanos()`. Claimed: only the range that
/// chrono documents for the sub-second part (below two seconds' worth, the
/// excess standing for a leap second). Which instant comes back is not claimed.
#[verifier::external_body]
pub(crate) fn utc_now() -> (t: Timestamp)
    ensures
        t.nanos < 2_000_000_000,
{
    let now = chrono::Utc::now();
    Timestamp { secs: now.timestamp(), nanos: now.timestamp_subsec_nanos() }
}

} // verus!
