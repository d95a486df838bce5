//! Lengths of time, as the interpreter counts them.

use vstd::prelude::*;

verus! {

/// A length of time, in nanoseconds.
#[derive(Debug, Copy, Clone, PartialEq, Eq, Structural)]
pub struct Duration {
    pub nanos: u128,
}

impl Duration {
    /// No time at all.
    pub open spec fn spec_zero() -> Duration {
        Duration { nanos: 0 }
    }

    /// No time at all.
    #[verifier::when_used_as_spec(spec_zero)]
    pub fn zero() -> (out: Duration)
        ensures
            out == Duration::spec_zero(),
    {
        Duration { nanos: 0 }
    }

    /// So many seconds.
    pub open spec fn spec_from_secs(secs: u64) -> Duration {
        Duration { nanos: (secs * 1_000_000_000) as u128 }
    }

    /// So many seconds.
    #[verifier::when_used_as_spec(spec_from_secs)]
    pub fn from_secs(secs: u64) -> (out: Duration)
        ensures
            out == Duration::spec_from_secs(secs),
    {
        Duration { nanos: secs as u128 * 1_000_000_000 }
    }

    /// So many milliseconds.
    pub open spec fn spec_from_millis(millis: u64) -> Duration {
        Duration { nanos: (millis * 1_000_000) as u128 }
    }

    /// So many milliseconds.
    #[verifier::when_used_as_spec(spec_from_millis)]
    pub fn from_millis(millis: u64) -> (out: Duration)
        ensures
            out == Duration::spec_from_millis(millis),
    {
        Duration { nanos: millis as u128 * 1_000_000 }
    }

    /// What is left of this time once `other` has passed; nothing where
    /// `other` is the longer one.
    pub open spec fn spec_saturating_sub(self, other: Duration) -> Duration {
        Duration {
            nanos: if self.nanos >= other.nanos {
                (self.nanos - other.nanos) as u128
            } else {
                0
            },
        }
    }

    /// What is left of this time once `other` has passed.
    #[verifier::when_used_as_spec(spec_saturating_sub)]
    pub fn saturating_sub(self, other: Duration) -> (out: Duration)
        ensures
            out == self.spec_saturating_sub(other),
    {
        Duration {
            nanos: if self.nanos >= other.nanos {
                self.nanos - other.nanos
            } else {
                0
            },
        }
    }

    /// The two times together, held to the longest time there is.
    pub open spec fn spec_saturating_add(self, other: Duration) -> Duration {
        Duration {
            nanos: if self.nanos + other.nanos > u128::MAX {
                u128::MAX
            } else {
                (self.nanos + other.nanos) as u128
            },
        }
    }

    /// The two times together.
    #[verifier::when_used_as_spec(spec_saturating_add)]
    pub fn saturating_add(self, other: Duration) -> (out: Duration)
        ensures
            out == self.spec_saturating_add(other),
    {
        Duration {
            nanos: if self.nanos > u128::MAX - other.nanos {
                u128::MAX
            } else {
                self.nanos + other.nanos
            },
        }
    }

    /// Whether this is no time at all.
    pub open spec fn spec_is_zero(&self) -> bool {
        self.nanos == 0
    }

    /// Whether this is no time at all.
    #[verifier::when_used_as_spec(spec_is_zero)]
    pub fn is_zero(&self) -> (out: bool)
        ensures
            out == self.spec_is_zero(),
    {
        self.nanos == 0
    }
}

} // verus!
