//! A span of time with nanosecond resolution.
use vstd::prelude::*;

verus! {

/// Nanoseconds in one second.
pub const NANOS_PER_SEC: u128 = 1_000_000_000;

/// Nanoseconds in one millisecond.
pub const NANOS_PER_MILLI: u128 = 1_000_000;

/// The longest span: `u64::MAX` whole seconds and one nanosecond short of another.
pub const MAX_NANOS: u128 = 18_446_744_073_709_551_615_999_999_999;

/// A span of time, at most `u64::MAX` seconds and 999 999 999 nanoseconds long.
///
/// Its view is its length in nanoseconds.
#[derive(Clone, Copy, Debug, PartialEq, Eq, PartialOrd, Ord, Structural)]
pub struct Duration {
    nanos: u128,
}

impl View for Duration {
    type V = nat;

    closed spec fn view(&self) -> nat {
        self.nanos as nat
    }
}

impl Duration {
    #[verifier::type_invariant]
    spec fn in_range(self) -> bool {
        self.nanos <= MAX_NANOS
    }

    /// The span of the given length in nanoseconds.
    pub closed spec fn of_nanos(n: nat) -> Duration {
        Duration { nanos: n as u128 }
    }

    /// The span of `secs` seconds and `nanos` nanoseconds, which may make up more seconds.
    pub fn new(secs: u64, nanos: u32) -> (d: Duration)
        requires
            secs * NANOS_PER_SEC + nanos <= MAX_NANOS,
        ensures
            d@ == secs * NANOS_PER_SEC + nanos,
    {
        Duration { nanos: secs as u128 * NANOS_PER_SEC + nanos as u128 }
    }

    /// The span of `secs` seconds.
    pub fn from_secs(secs: u64) -> (d: Duration)
        ensures
            d@ == secs * NANOS_PER_SEC,
    {
        Duration { nanos: secs as u128 * NANOS_PER_SEC }
    }

    /// The span of `millis` milliseconds.
    pub fn from_millis(millis: u64) -> (d: Duration)
        ensures
            d@ == millis * NANOS_PER_MILLI,
    {
        Duration { nanos: millis as u128 * NANOS_PER_MILLI }
    }

    /// The longest span.
    pub fn longest() -> (d: Duration)
        ensures
            d@ == MAX_NANOS,
    {
        Duration { nanos: MAX_NANOS }
    }

    /// Whole seconds in the span.
    pub fn as_secs(self) -> (secs: u64)
        ensures
            secs == self@ / NANOS_PER_SEC as nat,
    {
        proof {
            use_type_invariant(&self);
        }
        (self.nanos / NANOS_PER_SEC) as u64
    }

    /// Nanoseconds beyond the whole seconds.
    pub fn subsec_nanos(self) -> (nanos: u32)
        ensures
            nanos == self@ % NANOS_PER_SEC as nat,
            nanos < NANOS_PER_SEC,
    {
        (self.nanos % NANOS_PER_SEC) as u32
    }

    /// Whole milliseconds in the span.
    pub fn as_millis(self) -> (millis: u128)
        ensures
            millis == self@ / NANOS_PER_MILLI as nat,
    {
        self.nanos / NANOS_PER_MILLI
    }

    /// Whether the span has no length.
    pub fn is_zero(self) -> (b: bool)
        ensures
            b == (self@ == 0),
    {
        self.nanos == 0
    }

    /// Whether this span is strictly shorter than `other`.
    pub fn shorter_than(self, other: Duration) -> (b: bool)
        ensures
            b == (self@ < other@),
    {
        self.nanos < other.nanos
    }

    /// Twice the span, or the longest span where that is too long.
    pub fn saturating_double(self) -> (d: Duration)
        ensures
            d@ == if 2 * self@ <= MAX_NANOS {
                2 * self@
            } else {
                MAX_NANOS as nat
            },
    {
        proof {
            use_type_invariant(&self);
        }
        let twice: u128 = self.nanos * 2;
        if twice <= MAX_NANOS {
            Duration { nanos: twice }
        } else {
            Duration { nanos: MAX_NANOS }
        }
    }

    /// Half the span, in whole nanoseconds.
    pub fn halved(self) -> (d: Duration)
        ensures
            d@ == self@ / 2,
            2 * d@ <= MAX_NANOS,
    {
        proof {
            use_type_invariant(&self);
        }
        Duration { nanos: self.nanos / 2 }
    }

    /// The two spans one after the other.
    pub fn plus(self, other: Duration) -> (d: Duration)
        requires
            self@ + other@ <= MAX_NANOS,
        ensures
            d@ == self@ + other@,
    {
        Duration { nanos: self.nanos + other.nanos }
    }

    /// The shorter of the two spans.
    pub fn min(self, other: Duration) -> (d: Duration)
        ensures
            d == if self@ <= other@ {
                self
            } else {
                other
            },
            self@ <= MAX_NANOS,
            other@ <= MAX_NANOS,
    {
        proof {
            use_type_invariant(&self);
            use_type_invariant(&other);
        }
        if self.nanos <= other.nanos {
            self
        } else {
            other
        }
    }
}

/// A span is determined by its length.
pub proof fn lemma_same_length(a: Duration, b: Duration)
    requires
        a@ == b@,
    ensures
        a == b,
{
}

/// Every representable length is the length of a span.
pub proof fn lemma_of_nanos(n: nat)
    requires
        n <= MAX_NANOS,
    ensures
        Duration::of_nanos(n)@ == n,
{
}

} // verus!
