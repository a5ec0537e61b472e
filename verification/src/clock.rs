//! Spans of time and readings of a monotonic clock, in whole nanoseconds.

use vstd::prelude::*;

pub mod passing;

verus! {

/// Nanoseconds in one second.
pub const NANOS_PER_SEC: u128 = 1_000_000_000;

/// Nanoseconds in the longest span: `u64::MAX` seconds and 999,999,999 nanoseconds.
pub const MAX_NANOS: u128 = 18_446_744_073_709_551_615_999_999_999;

/// A span of time.
#[derive(Clone, Copy, Debug, PartialEq, Eq, Structural)]
pub struct Duration {
    /// Length in nanoseconds, at most [`MAX_NANOS`] in a valid span.
    pub nanos: u128,
}

impl Duration {
    /// Whether the span is no longer than the longest one.
    pub open spec fn valid(self) -> bool {
        self.nanos <= MAX_NANOS
    }

    /// The empty span.
    pub fn zero() -> (span: Duration)
        ensures
            span.nanos == 0,
            span.valid(),
    {
        Duration { nanos: 0 }
    }

    /// A span of whole seconds.
    pub fn from_secs(secs: u64) -> (span: Duration)
        ensures
            span.nanos == secs * NANOS_PER_SEC,
            span.valid(),
    {
        Duration { nanos: (secs as u128) * NANOS_PER_SEC }
    }

    /// A span of whole milliseconds.
    pub fn from_millis(millis: u64) -> (span: Duration)
        ensures
            span.nanos == millis * 1_000_000,
            span.valid(),
    {
        Duration { nanos: (millis as u128) * 1_000_000 }
    }

    /// The shorter of two spans.
    pub fn min(self, other: Duration) -> (span: Duration)
        ensures
            span.nanos == (if self.nanos <= other.nanos {
                self.nanos
            } else {
                other.nanos
            }),
            span == self || span == other,
    {
        if self.nanos <= other.nanos {
            self
        } else {
            other
        }
    }

    /// The longer of two spans.
    pub fn max(self, other: Duration) -> (span: Duration)
        ensures
            span.nanos == (if self.nanos <= other.nanos {
                other.nanos
            } else {
                self.nanos
            }),
            span == self || span == other,
    {
        if self.nanos <= other.nanos {
            other
        } else {
            self
        }
    }
}

/// One reading of a monotonic clock.
#[derive(Clone, Copy, Debug, PartialEq, Eq, Structural)]
pub struct Instant {
    /// Nanoseconds since the clock was started.
    pub nanos: u128,
}

/// Time from `earlier` to `later`, and zero when `later` is not the later one.
pub open spec fn nanos_since(later: Instant, earlier: Instant) -> int {
    if later.nanos <= earlier.nanos {
        0
    } else {
        later.nanos - earlier.nanos
    }
}

/// The reading `span` after `now`.
pub open spec fn later(now: Instant, span: Duration) -> Instant {
    Instant { nanos: (now.nanos + span.nanos) as u128 }
}

impl Instant {
    /// Whether the clock has run for a valid span when it gave this reading.
    pub open spec fn current(self) -> bool {
        self.nanos <= MAX_NANOS
    }

    /// Time that passed from `earlier` to this reading; zero if none did.
    pub fn saturating_duration_since(self, earlier: Instant) -> (span: Duration)
        ensures
            span.nanos == nanos_since(self, earlier),
            self.current() ==> span.valid(),
    {
        Duration {
            nanos: if self.nanos <= earlier.nanos {
                0
            } else {
                self.nanos - earlier.nanos
            },
        }
    }

    /// The reading that the clock gives after `span` more.
    pub fn plus(self, span: Duration) -> (reading: Instant)
        requires
            self.nanos + span.nanos <= u128::MAX,
        ensures
            reading == later(self, span),
            reading.nanos == self.nanos + span.nanos,
    {
        Instant { nanos: self.nanos + span.nanos }
    }
}

} // verus!
