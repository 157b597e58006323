//! Time as plain numbers.
//!
//! The library measures and compares time and never reads a clock: whoever has one hands in moments,
//! counted from an origin of its choice.

use vstd::prelude::*;

verus! {

/// A point in time, in nanoseconds since the origin.
#[derive(Clone, Copy, Debug, PartialEq, Eq, PartialOrd, Ord, Structural)]
pub struct Moment {
    pub nanos: u64,
}

/// A length of time, in nanoseconds.
#[derive(Clone, Copy, Debug, PartialEq, Eq, PartialOrd, Ord, Structural)]
pub struct Span {
    pub nanos: u128,
}

/// The longest span: 2^64 - 1 seconds and 999,999,999 nanoseconds.
pub const LONGEST_NANOS: u128 = 18_446_744_073_709_551_615_999_999_999;

impl Span {
    /// No longer than the longest span.
    pub open spec fn wf(self) -> bool {
        self.nanos <= LONGEST_NANOS
    }

    /// No time at all.
    pub fn zero() -> (r: Self)
        ensures
            r.wf(),
            r.nanos == 0,
    {
        Span { nanos: 0 }
    }

    pub fn from_micros(n: u64) -> (r: Self)
        ensures
            r.wf(),
            r.nanos == n * 1_000,
    {
        Span { nanos: n as u128 * 1_000 }
    }

    pub fn from_millis(n: u64) -> (r: Self)
        ensures
            r.wf(),
            r.nanos == n * 1_000_000,
    {
        Span { nanos: n as u128 * 1_000_000 }
    }

    /// The sum, or the longest span where the sum is longer.
    pub fn saturating_add(self, more: Span) -> (r: Self)
        requires
            self.wf(),
            more.wf(),
        ensures
            r.wf(),
            r.nanos == (if self.nanos + more.nanos <= LONGEST_NANOS {
                self.nanos + more.nanos
            } else {
                LONGEST_NANOS as int
            }),
    {
        let sum: u128 = self.nanos + more.nanos;
        if sum <= LONGEST_NANOS {
            Span { nanos: sum }
        } else {
            Span { nanos: LONGEST_NANOS }
        }
    }
}

impl Moment {
    /// How long after `earlier` this is; no time at all where it is not after it.
    pub open spec fn nanos_since(self, earlier: Moment) -> int {
        if self.nanos >= earlier.nanos {
            self.nanos - earlier.nanos
        } else {
            0
        }
    }

    /// How long after `earlier` this is; no time at all where it is not after it.
    pub fn since(self, earlier: Moment) -> (r: Span)
        ensures
            r.wf(),
            r.nanos == self.nanos_since(earlier),
            earlier.nanos <= self.nanos ==> earlier.nanos + r.nanos == self.nanos,
            self.nanos <= earlier.nanos ==> r.nanos == 0,
    {
        if self.nanos >= earlier.nanos {
            Span { nanos: (self.nanos - earlier.nanos) as u128 }
        } else {
            Span { nanos: 0 }
        }
    }
}

/// A moment is as long after another as has to be added to that one to get it, and no time at all after
/// any that is later.
pub proof fn a_moment_is_what_was_added_later(at: Moment, later: u64)
    requires
        at.nanos + later <= u64::MAX,
    ensures
        (Moment { nanos: (at.nanos + later) as u64 }).nanos_since(at) == later,
        at.nanos_since(Moment { nanos: (at.nanos + later) as u64 }) == 0,
{
}

} // verus!
