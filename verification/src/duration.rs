//! A span of time in whole nanoseconds.

use vstd::prelude::*;

verus! {

/// Nanoseconds in one second.
pub const NANOS_PER_SEC: u128 = 1_000_000_000;

/// Nanoseconds in one millisecond.
pub const NANOS_PER_MILLI: u128 = 1_000_000;

/// A length of time, counted in nanoseconds.
#[derive(Clone, Copy, Debug, PartialEq, Eq, PartialOrd, Ord, Hash, Structural)]
pub struct Duration {
    /// How many nanoseconds.
    pub nanos: u128,
}

impl Duration {
    /// A span of `secs` whole seconds.
    pub fn from_secs(secs: u64) -> (d: Self)
        ensures
            d.nanos == secs as int * 1_000_000_000,
    {
        Duration { nanos: secs as u128 * NANOS_PER_SEC }
    }

    /// A span of `millis` whole milliseconds.
    pub fn from_millis(millis: u64) -> (d: Self)
        ensures
            d.nanos == millis as int * 1_000_000,
    {
        Duration { nanos: millis as u128 * NANOS_PER_MILLI }
    }

    /// A span of `nanos` nanoseconds.
    pub fn from_nanos(nanos: u128) -> (d: Self)
        ensures
            d.nanos == nanos,
    {
        Duration { nanos }
    }

    /// The whole milliseconds in this span.
    pub fn as_millis(&self) -> (ms: u128)
        ensures
            ms == self.nanos as int / 1_000_000,
    {
        self.nanos / NANOS_PER_MILLI
    }

    /// The whole seconds in this span.
    pub fn as_secs(&self) -> (secs: u128)
        ensures
            secs == self.nanos as int / 1_000_000_000,
    {
        self.nanos / NANOS_PER_SEC
    }

    /// This span, but no shorter than `low` and no longer than `high`.
    pub fn clamp(self, low: Duration, high: Duration) -> (d: Self)
        requires
            low.nanos <= high.nanos,
        ensures
            d.nanos == clamped(self.nanos as int, low.nanos as int, high.nanos as int),
    {
        if self.nanos < low.nanos {
            low
        } else if self.nanos > high.nanos {
            high
        } else {
            self
        }
    }
}

/// `n` moved into the range from `low` to `high`.
pub open spec fn clamped(n: int, low: int, high: int) -> int {
    if n < low {
        low
    } else if n > high {
        high
    } else {
        n
    }
}

/// What is moved into a range lies in it, and is moved only if it did not, and
/// then no further than to the nearer end.
pub proof fn law_moved_no_further_than_needed(n: int, low: int, high: int)
    requires
        low <= high,
    ensures
        low <= clamped(n, low, high) <= high,
        low <= n <= high ==> clamped(n, low, high) == n,
        n <= low ==> clamped(n, low, high) == low,
        n >= high ==> clamped(n, low, high) == high,
{
}

} // verus!
