//! Spans and points of time, counted in nanoseconds.
//!
//! A [`Duration`] is a length of time and an [`Instant`] is a reading of a
//! monotonic clock, measured from an origin that stays fixed while the process
//! runs. The code that owns the clock converts its readings into these.
use vstd::prelude::*;

verus! {

pub const NANOS_PER_MICRO: u128 = 1_000;

pub const NANOS_PER_MILLI: u128 = 1_000_000;

pub const NANOS_PER_SEC: u128 = 1_000_000_000;

/// The longest span: `u64::MAX` seconds and 999_999_999 nanoseconds.
pub const MAX_DURATION_NANOS: u128 = 18_446_744_073_709_551_615_999_999_999;

/// A length of time.
#[derive(Clone, Copy, Debug, PartialEq, Eq, Structural, Hash)]
pub struct Duration {
    pub nanos: u128,
}

impl Duration {
    pub fn zero() -> (r: Duration)
        ensures
            r.nanos == 0,
    {
        Duration { nanos: 0 }
    }

    pub fn from_secs(secs: u64) -> (r: Duration)
        ensures
            r.nanos == secs * NANOS_PER_SEC,
    {
        Duration { nanos: secs as u128 * NANOS_PER_SEC }
    }

    pub fn from_millis(millis: u64) -> (r: Duration)
        ensures
            r.nanos == millis * NANOS_PER_MILLI,
    {
        Duration { nanos: millis as u128 * NANOS_PER_MILLI }
    }

    pub fn from_micros(micros: u64) -> (r: Duration)
        ensures
            r.nanos == micros * NANOS_PER_MICRO,
    {
        Duration { nanos: micros as u128 * NANOS_PER_MICRO }
    }

    pub fn from_nanos(nanos: u64) -> (r: Duration)
        ensures
            r.nanos == nanos,
    {
        Duration { nanos: nanos as u128 }
    }

    pub fn is_zero(self) -> (r: bool)
        ensures
            r == (self.nanos == 0),
    {
        self.nanos == 0
    }

    pub fn as_nanos(self) -> (r: u128)
        ensures
            r == self.nanos,
    {
        self.nanos
    }

    pub fn as_micros(self) -> (r: u128)
        ensures
            r == self.nanos / NANOS_PER_MICRO,
    {
        self.nanos / NANOS_PER_MICRO
    }

    pub fn as_secs(self) -> (r: u128)
        ensures
            r == self.nanos / NANOS_PER_SEC,
    {
        self.nanos / NANOS_PER_SEC
    }

    /// The shorter of two spans.
    pub fn shorter(self, other: Duration) -> (r: Duration)
        ensures
            r == (if self.nanos <= other.nanos {
                self
            } else {
                other
            }),
    {
        if self.nanos <= other.nanos {
            self
        } else {
            other
        }
    }

    /// The longer of two spans.
    pub fn longer(self, other: Duration) -> (r: Duration)
        ensures
            r == (if self.nanos >= other.nanos {
                self
            } else {
                other
            }),
    {
        if self.nanos >= other.nanos {
            self
        } else {
            other
        }
    }

    /// The span `factor` times over, or `None` past [`MAX_DURATION_NANOS`].
    pub fn checked_mul(self, factor: u32) -> (r: Option<Duration>)
        ensures
            r == (if self.nanos * factor <= MAX_DURATION_NANOS {
                Some(Duration { nanos: (self.nanos * factor) as u128 })
            } else {
                None
            }),
    {
        match self.nanos.checked_mul(factor as u128) {
            Some(nanos) => if nanos <= MAX_DURATION_NANOS {
                Some(Duration { nanos })
            } else {
                None
            },
            None => None,
        }
    }
}

/// A reading of the monotonic clock.
#[derive(Clone, Copy, Debug, PartialEq, Eq, Structural, Hash)]
pub struct Instant {
    pub nanos: u128,
}

impl Instant {
    /// The reading `nanos` nanoseconds after the clock's origin.
    pub fn from_nanos(nanos: u128) -> (r: Instant)
        ensures
            r.nanos == nanos,
    {
        Instant { nanos }
    }

    /// The time from `earlier` to this reading, zero if `earlier` is later.
    pub open spec fn spec_since(self, earlier: Instant) -> Duration {
        if self.nanos >= earlier.nanos {
            Duration { nanos: (self.nanos - earlier.nanos) as u128 }
        } else {
            Duration { nanos: 0 }
        }
    }

    /// The time from `earlier` to this reading, zero if `earlier` is later.
    pub fn saturating_duration_since(self, earlier: Instant) -> (r: Duration)
        ensures
            r == self.spec_since(earlier),
    {
        if self.nanos >= earlier.nanos {
            Duration { nanos: self.nanos - earlier.nanos }
        } else {
            Duration { nanos: 0 }
        }
    }

    /// This reading moved on by `span`, or `None` past the clock's range.
    pub open spec fn spec_checked_add(self, span: Duration) -> Option<Instant> {
        if self.nanos + span.nanos <= u128::MAX {
            Some(Instant { nanos: (self.nanos + span.nanos) as u128 })
        } else {
            None
        }
    }

    /// This reading moved on by `span`, or `None` past the clock's range.
    pub fn checked_add(self, span: Duration) -> (r: Option<Instant>)
        ensures
            r == self.spec_checked_add(span),
    {
        match self.nanos.checked_add(span.nanos) {
            Some(nanos) => Some(Instant { nanos }),
            None => None,
        }
    }

    /// This reading moved on by `span`.
    pub fn plus(self, span: Duration) -> (r: Instant)
        requires
            self.nanos + span.nanos <= u128::MAX,
        ensures
            r.nanos == self.nanos + span.nanos,
    {
        Instant { nanos: self.nanos + span.nanos }
    }
}

} // verus!
