//! Spans of time, to the nanosecond.

use vstd::prelude::*;

verus! {

/// The nanoseconds of a second.
pub const NANOS_PER_SEC: u128 = 1_000_000_000;

/// The nanoseconds of the longest span: as many seconds as a `u64` holds, and just no second more.
pub const MAX_NANOS: u128 = 18_446_744_073_709_551_615_999_999_999;

/// A span of time. Its view is its length in nanoseconds.
#[derive(Debug, Clone, Copy, PartialEq, Eq, Structural)]
pub struct Duration {
    nanos: u128,
}

impl View for Duration {
    type V = nat;

    closed spec fn view(&self) -> nat {
        self.nanos as nat
    }
}

impl DeepView for Duration {
    type V = Duration;

    open spec fn deep_view(&self) -> Duration {
        *self
    }
}

impl Duration {
    #[verifier::type_invariant]
    spec fn in_range(self) -> bool {
        self.nanos <= MAX_NANOS
    }

    /// The span of a number of nanoseconds, of which there are at most [`MAX_NANOS`].
    pub closed spec fn of_nanos(nanos: nat) -> Duration {
        Duration { nanos: nanos as u128 }
    }

    /// The span of a number of seconds.
    pub open spec fn of_secs(secs: u64) -> Duration {
        Duration::of_nanos(secs as nat * NANOS_PER_SEC as nat)
    }

    /// The span of whole seconds and nanoseconds beyond them.
    pub fn new(secs: u64, nanos: u32) -> (res: Duration)
        requires
            nanos < NANOS_PER_SEC,
        ensures
            res@ == secs * NANOS_PER_SEC + nanos,
    {
        Duration { nanos: secs as u128 * NANOS_PER_SEC + nanos as u128 }
    }

    /// The span of a number of seconds.
    pub fn from_secs(secs: u64) -> (res: Duration)
        ensures
            res == Duration::of_secs(secs),
            res@ == secs * NANOS_PER_SEC,
    {
        Duration { nanos: secs as u128 * NANOS_PER_SEC }
    }

    /// The span of a number of milliseconds.
    pub fn from_millis(millis: u64) -> (res: Duration)
        ensures
            res@ == millis * 1_000_000,
    {
        Duration { nanos: millis as u128 * 1_000_000 }
    }

    /// The whole seconds of the span.
    pub fn as_secs(&self) -> (res: u64)
        ensures
            res == self@ / NANOS_PER_SEC as nat,
    {
        proof {
            use_type_invariant(self);
        }
        (self.nanos / NANOS_PER_SEC) as u64
    }

    /// The nanoseconds of the span beyond its whole seconds.
    pub fn subsec_nanos(&self) -> (res: u32)
        ensures
            res == self@ % NANOS_PER_SEC as nat,
            res < NANOS_PER_SEC,
    {
        (self.nanos % NANOS_PER_SEC) as u32
    }

    /// Whether the span is shorter than another.
    pub fn is_shorter(&self, other: &Duration) -> (res: bool)
        ensures
            res == (self@ < other@),
    {
        self.nanos < other.nanos
    }

    /// What is left of the span when another is taken away, and nothing where that is longer.
    pub fn saturating_sub(&self, other: &Duration) -> (res: Duration)
        ensures
            res@ == if self@ >= other@ {
                (self@ - other@) as nat
            } else {
                0
            },
    {
        proof {
            use_type_invariant(self);
        }
        if self.nanos >= other.nanos {
            Duration { nanos: self.nanos - other.nanos }
        } else {
            Duration { nanos: 0 }
        }
    }

    /// The span twice, or the longest span where twice is longer.
    pub fn doubled(&self) -> (res: Duration)
        ensures
            res@ == if 2 * self@ <= MAX_NANOS {
                (2 * self@) as nat
            } else {
                MAX_NANOS as nat
            },
    {
        proof {
            use_type_invariant(self);
        }
        if self.nanos <= MAX_NANOS / 2 {
            Duration { nanos: 2 * self.nanos }
        } else {
            Duration { nanos: MAX_NANOS }
        }
    }

    /// A quarter of the span, rounded down to the nanosecond.
    pub fn quarter(&self) -> (res: Duration)
        ensures
            res@ == self@ / 4,
    {
        proof {
            use_type_invariant(self);
        }
        Duration { nanos: self.nanos / 4 }
    }

    /// The shorter of two spans.
    pub fn min(self, other: Duration) -> (res: Duration)
        ensures
            res == if self@ <= other@ {
                self
            } else {
                other
            },
    {
        if self.nanos <= other.nanos {
            self
        } else {
            other
        }
    }

    /// The longer of two spans.
    pub fn max(self, other: Duration) -> (res: Duration)
        ensures
            res == if self@ >= other@ {
                self
            } else {
                other
            },
    {
        if self.nanos >= other.nanos {
            self
        } else {
            other
        }
    }
}

/// The length of a number of seconds.
pub broadcast proof fn lemma_of_secs(secs: u64)
    ensures
        #[trigger] Duration::of_secs(secs)@ == secs * NANOS_PER_SEC,
{
}

/// A second has a thousand million nanoseconds, and the longest span is just short of a second more
/// than a `u64` can count.
pub proof fn seconds_are_made_of_nanoseconds(secs: u64)
    ensures
        NANOS_PER_SEC == 1_000_000_000,
        MAX_NANOS == 18_446_744_073_709_551_615 * 1_000_000_000 + 999_999_999,
        Duration::of_secs(secs)@ == secs * 1_000_000_000,
{
}

} // verus!
