//! Wall-clock instants, and how they are read from text.

use time::format_description::well_known::Rfc3339;
use time::OffsetDateTime;
use vstd::prelude::*;

verus! {

/// An instant: whole seconds since the Unix epoch, and nanoseconds beyond them.
#[derive(Clone, Copy, Debug, PartialEq, Eq, Structural)]
pub struct Timestamp {
    /// Whole seconds since the epoch.
    pub secs: i64,
    /// Nanoseconds beyond `secs`.
    pub nanos: u32,
}

impl Timestamp {
    /// Nanoseconds since the epoch.
    pub open spec fn since_epoch(self) -> int {
        self.secs * 1_000_000_000 + self.nanos
    }

    /// Nanoseconds since the epoch.
    pub fn unix_nanos(&self) -> (n: i128)
        ensures
            n == self.since_epoch(),
    {
        self.secs as i128 * 1_000_000_000 + self.nanos as i128
    }

    /// How many nanoseconds this instant is after `earlier`; negative if before.
    pub fn nanos_since(&self, earlier: &Timestamp) -> (n: i128)
        ensures
            n == self.since_epoch() - earlier.since_epoch(),
    {
        self.unix_nanos() - earlier.unix_nanos()
    }
}

/// What the `time` crate reads from a text in the RFC 3339 format: the Unix
/// timestamp in seconds and the nanoseconds within the second.
pub uninterp spec fn rfc3339_reading(text: Seq<char>) -> Option<(i64, u32)>;

/// `time::OffsetDateTime::parse` with the RFC 3339 format, followed by
/// `unix_timestamp` and `nanosecond`: the instant that the text names, or none
/// where the text is not in that format.
#[verifier::external_body]
fn read_rfc3339(text: &str) -> (r: Option<(i64, u32)>)
    ensures
        r == rfc3339_reading(text@),
{
    match OffsetDateTime::parse(text, &Rfc3339) {
        Ok(instant) => Some((instant.unix_timestamp(), instant.nanosecond())),
        Err(_) => None,
    }
}

/// The instant that a text names.
pub open spec fn timestamp_spec(text: Seq<char>) -> Option<Timestamp> {
    match rfc3339_reading(text) {
        Some((secs, nanos)) => Some(Timestamp { secs, nanos }),
        None => None,
    }
}

/// Read an instant in the RFC 3339 format.
pub fn parse_timestamp(text: &str) -> (r: Option<Timestamp>)
    ensures
        r == timestamp_spec(text@),
{
    match read_rfc3339(text) {
        Some((secs, nanos)) => Some(Timestamp { secs, nanos }),
        None => None,
    }
}

/// An instant read from text is the one that the text names, second by second
/// and nanosecond by nanosecond.
pub proof fn law_instant_is_the_one_named(text: Seq<char>, secs: i64, nanos: u32)
    ensures
        timestamp_spec(text) == Some(Timestamp { secs, nanos }) <==> rfc3339_reading(text) == Some((secs, nanos)),
        timestamp_spec(text) is None <==> rfc3339_reading(text) is None,
{
}

/// A later second is later, whatever the nanoseconds within the seconds are,
/// and within one second the nanoseconds decide; a second is a thousand million
/// of them.
pub proof fn law_instants_are_on_one_line(a: Timestamp, b: Timestamp)
    ensures
        a.secs < b.secs && a.nanos < 1_000_000_000 ==> a.since_epoch() < b.since_epoch(),
        a.secs == b.secs ==> b.since_epoch() - a.since_epoch() == b.nanos - a.nanos,
        a.nanos == b.nanos ==> b.since_epoch() - a.since_epoch() == (b.secs - a.secs) * 1_000_000_000,
{
    if a.secs < b.secs && a.nanos < 1_000_000_000 {
        assert(a.secs * 1_000_000_000 + 1_000_000_000 <= b.secs * 1_000_000_000);
    }
}

} // verus!
