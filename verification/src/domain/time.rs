//! Instants on the UTC time line, as plain numbers.

use vstd::prelude::*;

verus! {

/// An instant: whole seconds since 1970-01-01T00:00:00Z and the nanoseconds
/// into that second.
#[derive(Debug, Clone, Copy, PartialEq, Eq, Structural)]
pub struct Timestamp {
    pub seconds: i64,
    pub nanos: u32,
}

/// Seconds in 24 hours.
pub const DAY_SECONDS: i64 = 86_400;

impl Timestamp {
    /// Whether `self` lies strictly after `other`.
    pub open spec fn is_after(self, other: Timestamp) -> bool {
        self.seconds > other.seconds || (self.seconds == other.seconds && self.nanos > other.nanos)
    }

    /// The instant `seconds` later, held to the last second that `i64` can
    /// express.
    pub open spec fn later_by(self, seconds: i64) -> Timestamp {
        Timestamp {
            seconds: if self.seconds + seconds > i64::MAX {
                i64::MAX
            } else {
                (self.seconds + seconds) as i64
            },
            nanos: self.nanos,
        }
    }

    /// Seconds since the epoch as the rate limiter scores them: an instant
    /// before the epoch counts as the epoch.
    pub open spec fn epoch_seconds(self) -> u64 {
        if self.seconds < 0 {
            0
        } else {
            self.seconds as u64
        }
    }

    /// Decides [`Self::is_after`].
    pub fn after(&self, other: &Timestamp) -> (later: bool)
        ensures
            later == self.is_after(*other),
    {
        self.seconds > other.seconds || (self.seconds == other.seconds && self.nanos > other.nanos)
    }

    /// Computes [`Self::later_by`] for a span that is not negative.
    pub fn plus_seconds(&self, seconds: i64) -> (later: Timestamp)
        requires
            seconds >= 0,
        ensures
            later == self.later_by(seconds),
    {
        let sum: i64 = if self.seconds > i64::MAX - seconds {
            i64::MAX
        } else {
            self.seconds + seconds
        };
        Timestamp { seconds: sum, nanos: self.nanos }
    }

    /// Computes [`Self::epoch_seconds`].
    pub fn unix_seconds(&self) -> (seconds: u64)
        ensures
            seconds == self.epoch_seconds(),
    {
        if self.seconds < 0 {
            0
        } else {
            self.seconds as u64
        }
    }

    /// Whole seconds from `earlier` to `self`; `None` unless `self` lies at
    /// least one whole second after `earlier`.
    pub fn seconds_since(&self, earlier: &Timestamp) -> (span: Option<u64>)
        ensures
            match span {
                Some(s) => s == self.seconds - earlier.seconds && s > 0,
                None => self.seconds - earlier.seconds <= 0,
            },
    {
        if self.seconds > earlier.seconds {
            let wide: i128 = self.seconds as i128 - earlier.seconds as i128;
            Some(wide as u64)
        } else {
            None
        }
    }
}

/// Reads the system clock through `chrono::Utc::now`, and takes the
/// reading apart with `DateTime::timestamp` and
/// `DateTime::timestamp_subsec_nanos`. Nothing is claimed of the reading:
/// two calls may even go backwards. Like `Utc::now` it panics on a machine
/// whose clock is set before 1970.
#[verifier::external_body]
pub(crate) fn utc_now() -> Timestamp {
    let now = chrono::Utc::now();
    Timestamp { seconds: now.timestamp(), nanos: now.timestamp_subsec_nanos() }
}

} // verus!
