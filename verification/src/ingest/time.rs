//! Points in time.

use vstd::prelude::*;

verus! {

/// Seconds since the epoch of the first moment that can be told.
pub const MIN_SECS: i64 = -8334601228800;

/// Seconds since the epoch of the last second that can be told.
pub const MAX_SECS: i64 = 8210266876799;

/// A point in time, to the nanosecond.
#[derive(Debug, Clone, Copy, PartialEq, Eq, Structural)]
pub struct Timestamp {
    secs: i64,
    nanos: u32,
}

/// `micros` lies in the range of times that can be told.
pub open spec fn micros_in_range(micros: int) -> bool {
    MIN_SECS * 1_000_000 <= micros <= MAX_SECS * 1_000_000 + 999_999
}

/// `chrono::DateTime::<Utc>::from_timestamp_micros`, as whole seconds and the
/// nanoseconds above them. Claims that it fails exactly outside the range of
/// times that `chrono` can hold, and else splits the count exactly.
#[verifier::external_body]
fn split_micros(micros: i64) -> (parts: Option<(i64, u32)>)
    ensures
        match parts {
            Some((secs, nanos)) => micros_in_range(micros as int) && nanos < 1_000_000_000
                && secs * 1_000_000_000 + nanos == micros * 1_000,
            None => !micros_in_range(micros as int),
        },
{
    chrono::DateTime::<chrono::Utc>::from_timestamp_micros(micros).map(
        |t| (t.timestamp(), t.timestamp_subsec_nanos()),
    )
}

impl Timestamp {
    /// Nanoseconds since the epoch.
    pub closed spec fn nanos_since_epoch(self) -> int {
        self.secs * 1_000_000_000 + self.nanos
    }

    #[verifier::type_invariant]
    closed spec fn wf(self) -> bool {
        MIN_SECS <= self.secs <= MAX_SECS && self.nanos < 1_000_000_000
    }

    /// The time of whole seconds since the epoch and nanoseconds above them,
    /// where it can be told.
    pub fn new(secs: i64, nanos: u32) -> (time: Option<Timestamp>)
        ensures
            match time {
                Some(t) => MIN_SECS <= secs <= MAX_SECS && nanos < 1_000_000_000
                    && t.nanos_since_epoch() == secs * 1_000_000_000 + nanos,
                None => secs < MIN_SECS || secs > MAX_SECS || nanos >= 1_000_000_000,
            },
    {
        if MIN_SECS <= secs && secs <= MAX_SECS && nanos < 1_000_000_000 {
            Some(Timestamp { secs, nanos })
        } else {
            None
        }
    }

    /// The time of a count of microseconds since the epoch, where it can be
    /// told.
    pub fn from_timestamp_micros(micros: i64) -> (time: Option<Timestamp>)
        ensures
            match time {
                Some(t) => micros_in_range(micros as int) && t.nanos_since_epoch() == micros
                    * 1_000,
                None => !micros_in_range(micros as int),
            },
    {
        match split_micros(micros) {
            Some((secs, nanos)) => Some(Timestamp { secs, nanos }),
            None => None,
        }
    }

    /// Whole microseconds since the epoch, rounded down.
    pub fn timestamp_micros(&self) -> (micros: i64)
        ensures
            micros == self.nanos_since_epoch() / 1_000,
            micros_in_range(micros as int),
    {
        proof {
            use_type_invariant(self);
        }
        self.secs * 1_000_000 + (self.nanos / 1_000) as i64
    }

    /// Whether two times are the same to the microsecond, which is what a table
    /// keeps of a time.
    pub fn same_micros(&self, other: &Timestamp) -> (yes: bool)
        ensures
            yes == (self.nanos_since_epoch() / 1_000 == other.nanos_since_epoch() / 1_000),
    {
        self.timestamp_micros() == other.timestamp_micros()
    }
}

} // verus!
