//! Time as the library counts it: whole microseconds. The embedder reads
//! its clock and hands in the reading; nothing here reads a clock, so every
//! run on the same readings gives the same result.

use vstd::prelude::*;

verus! {

/// A span of time in microseconds.
#[derive(Clone, Copy, Debug, PartialEq, Eq, Structural, PartialOrd, Ord, Hash)]
pub struct Duration {
    pub micros: u64,
}

/// A point in time: microseconds since an origin that the embedder picks.
#[derive(Clone, Copy, Debug, PartialEq, Eq, Structural, PartialOrd, Ord, Hash)]
pub struct Instant {
    pub micros: u64,
}

impl Duration {
    /// A span of `micros` microseconds.
    pub fn from_micros(micros: u64) -> (r: Duration)
        ensures
            r.micros == micros,
    {
        Duration { micros }
    }

    /// The span in microseconds.
    pub fn as_micros(&self) -> (r: u64)
        ensures
            r == self.micros,
    {
        self.micros
    }

    /// Whether the span is empty.
    pub fn is_zero(&self) -> (r: bool)
        ensures
            r == (self.micros == 0),
    {
        self.micros == 0
    }

    /// The sum of two spans, held to the largest span there is.
    pub open spec fn plus(self, other: Duration) -> Duration {
        if self.micros + other.micros > u64::MAX {
            Duration { micros: u64::MAX }
        } else {
            Duration { micros: (self.micros + other.micros) as u64 }
        }
    }

    /// The sum of two spans, held to the largest span there is.
    pub fn saturating_add(&self, other: Duration) -> (r: Duration)
        ensures
            r == self.plus(other),
    {
        if self.micros > u64::MAX - other.micros {
            Duration { micros: u64::MAX }
        } else {
            Duration { micros: self.micros + other.micros }
        }
    }
}

impl Default for Duration {
    fn default() -> (r: Duration)
        ensures
            r.micros == 0,
    {
        Duration { micros: 0 }
    }
}

impl Instant {
    /// The point `micros` microseconds after the origin.
    pub fn from_micros(micros: u64) -> (r: Instant)
        ensures
            r.micros == micros,
    {
        Instant { micros }
    }

    /// Microseconds since the origin.
    pub fn as_micros(&self) -> (r: u64)
        ensures
            r == self.micros,
    {
        self.micros
    }

    /// The time from `earlier` to `self`, or nothing if `earlier` is later.
    pub open spec fn since(self, earlier: Instant) -> Duration {
        if self.micros >= earlier.micros {
            Duration { micros: (self.micros - earlier.micros) as u64 }
        } else {
            Duration { micros: 0 }
        }
    }

    /// The time from `earlier` to `self`, or nothing if `earlier` is later.
    pub fn duration_since(&self, earlier: Instant) -> (r: Duration)
        ensures
            r == self.since(earlier),
    {
        if self.micros >= earlier.micros {
            Duration { micros: self.micros - earlier.micros }
        } else {
            Duration { micros: 0 }
        }
    }

    /// The point `span` after `self`, held to the latest point there is.
    pub open spec fn plus(self, span: Duration) -> Instant {
        if self.micros + span.micros > u64::MAX {
            Instant { micros: u64::MAX }
        } else {
            Instant { micros: (self.micros + span.micros) as u64 }
        }
    }

    /// The point `span` after `self`, held to the latest point there is.
    pub fn saturating_add(&self, span: Duration) -> (r: Instant)
        ensures
            r == self.plus(span),
    {
        if self.micros > u64::MAX - span.micros {
            Instant { micros: u64::MAX }
        } else {
            Instant { micros: self.micros + span.micros }
        }
    }

    /// The point `span` after `self`, if it can be counted.
    pub fn checked_add(&self, span: Duration) -> (r: Option<Instant>)
        ensures
            self.micros + span.micros <= u64::MAX ==> r == Some(
                Instant { micros: (self.micros + span.micros) as u64 },
            ),
            self.micros + span.micros > u64::MAX ==> r.is_none(),
    {
        if self.micros > u64::MAX - span.micros {
            None
        } else {
            Some(Instant { micros: self.micros + span.micros })
        }
    }
}

} // verus!
