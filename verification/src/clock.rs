//! Points in time and lengths of time, in nanoseconds.

use vstd::prelude::*;

verus! {

/// The earliest point in time that the clock can hold, in nanoseconds from its
/// origin: the smallest signed 64-bit count of seconds.
pub const EARLIEST: i128 = -9_223_372_036_854_775_808_000_000_000;

/// The latest point in time that the clock can hold, in nanoseconds from its
/// origin: the largest signed 64-bit count of seconds, and a last fraction.
pub const LATEST: i128 = 9_223_372_036_854_775_807_999_999_999;

/// The longest length of time, in nanoseconds: the largest unsigned 64-bit
/// count of seconds, and a last fraction.
pub const LONGEST: u128 = 18_446_744_073_709_551_615_999_999_999;

/// A length of time.
#[derive(Clone, Copy, Debug, PartialEq, Eq, Structural)]
pub struct Span {
    pub secs: u64,
    pub subsec_nanos: u32,
}

/// A reading of a clock that never runs backwards: nanoseconds since its origin.
#[derive(Clone, Copy, Debug, PartialEq, Eq, Structural)]
pub struct Moment {
    pub nanos: u64,
}

/// Whether the clock can hold the point `at`.
pub open spec fn on_clock(at: int) -> bool {
    EARLIEST <= at <= LATEST
}

/// The number of seconds that cover `nanos` nanoseconds.
pub open spec fn ceil_seconds(nanos: int) -> int {
    (nanos + 999_999_999) / 1_000_000_000
}

/// How long `later` is after `earlier`; nothing where it is not after it.
pub open spec fn elapsed(earlier: int, later: int) -> int {
    if earlier <= later {
        later - earlier
    } else {
        0
    }
}

/// The end of what a sliding window of length `window` has left behind at
/// `now`. Where the clock cannot reach back so far, it is `now` itself.
pub open spec fn cutoff(now: int, window: int) -> int {
    if on_clock(now - window) {
        now - window
    } else {
        now
    }
}

impl Span {
    /// The length in nanoseconds.
    pub open spec fn nanos(self) -> int {
        self.secs * 1_000_000_000 + self.subsec_nanos
    }

    /// The fraction is less than a second.
    pub open spec fn valid(self) -> bool {
        self.subsec_nanos < 1_000_000_000
    }

    pub fn from_secs(secs: u64) -> (span: Span)
        ensures
            span.valid(),
            span.nanos() == secs * 1_000_000_000,
    {
        Span { secs, subsec_nanos: 0 }
    }

    pub fn from_millis(millis: u64) -> (span: Span)
        ensures
            span.valid(),
            span.nanos() == millis * 1_000_000,
    {
        Span { secs: millis / 1000, subsec_nanos: ((millis % 1000) * 1_000_000) as u32 }
    }

    /// The span of that many nanoseconds.
    pub fn from_nanos(nanos: u128) -> (span: Span)
        requires
            nanos <= LONGEST,
        ensures
            span.valid(),
            span.nanos() == nanos,
    {
        Span {
            secs: (nanos / 1_000_000_000) as u64,
            subsec_nanos: (nanos % 1_000_000_000) as u32,
        }
    }

    pub fn as_nanos(&self) -> (nanos: u128)
        ensures
            nanos == self.nanos(),
    {
        self.secs as u128 * 1_000_000_000 + self.subsec_nanos as u128
    }

    /// Twice the span, or the longest one where that is longer still.
    pub fn doubled(&self) -> (span: Span)
        ensures
            span.valid(),
            span.nanos() == (if 2 * self.nanos() <= LONGEST {
                2 * self.nanos()
            } else {
                LONGEST as int
            }),
    {
        let twice: u128 = 2 * self.as_nanos();
        if twice <= LONGEST {
            Span::from_nanos(twice)
        } else {
            Span::from_nanos(LONGEST)
        }
    }
}

impl Moment {
    /// Where a sliding window of length `window` begins at this moment.
    pub fn cutoff(&self, window: Span) -> (at: i128)
        ensures
            at == cutoff(self.nanos as int, window.nanos()),
    {
        let at: i128 = self.nanos as i128 - window.as_nanos() as i128;
        if EARLIEST <= at {
            at
        } else {
            self.nanos as i128
        }
    }

    /// The moment that lies `span` later, where the clock can hold it.
    pub fn checked_add(&self, span: Span) -> (at: Option<i128>)
        ensures
            match at {
                Some(t) => on_clock(self.nanos + span.nanos()) && t == self.nanos + span.nanos(),
                None => !on_clock(self.nanos + span.nanos()),
            },
    {
        let at: i128 = self.nanos as i128 + span.as_nanos() as i128;
        if at <= LATEST {
            Some(at)
        } else {
            None
        }
    }

    /// How long `at` is after this moment; nothing where it is not after it.
    pub fn until(&self, at: i128) -> (span: Span)
        requires
            at <= LATEST,
        ensures
            span.valid(),
            span.nanos() == elapsed(self.nanos as int, at as int),
    {
        let now: i128 = self.nanos as i128;
        if now <= at {
            Span::from_nanos((at - now) as u128)
        } else {
            Span::from_nanos(0)
        }
    }

    /// How long this moment is after `earlier`; nothing where it is not after it.
    pub fn since(&self, earlier: Moment) -> (span: Span)
        ensures
            span.valid(),
            span.nanos() == elapsed(earlier.nanos as int, self.nanos as int),
    {
        earlier.until(self.nanos as i128)
    }
}

/// The number of seconds that cover the span.
pub fn ceil_duration_to_seconds(duration: Span) -> (secs: u64)
    requires
        duration.valid(),
        ceil_seconds(duration.nanos()) <= u64::MAX,
    ensures
        secs == ceil_seconds(duration.nanos()),
{
    if duration.subsec_nanos > 0 {
        duration.secs + 1
    } else {
        duration.secs
    }
}

} // verus!
