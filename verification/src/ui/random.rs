//! The source of jitter: a small generator of pseudo-random numbers.

use vstd::prelude::*;

verus! {

/// The state that follows `state`: three rounds of shifting and mixing.
pub open spec fn scramble(state: u64) -> u64 {
    let a = state ^ (state >> 13);
    let b = a ^ (a << 5);
    b ^ (b >> 17)
}

/// A generator of pseudo-random numbers. The same seed gives the same numbers.
pub struct Random {
    state: u64,
}

impl View for Random {
    type V = u64;

    closed spec fn view(&self) -> u64 {
        self.state
    }
}

impl Random {
    /// The generator that starts from `seed`.
    pub fn new(seed: u64) -> (out: Self)
        ensures
            out@ == seed,
    {
        Self { state: seed }
    }

    /// The next number below `max`; zero where `max` is zero.
    pub fn next(&mut self, max: u64) -> (out: u64)
        ensures
            final(self)@ == scramble(old(self)@),
            out == if max == 0 {
                0
            } else {
                scramble(old(self)@) % max
            },
            max > 0 ==> out < max,
    {
        self.state ^= self.state >> 13;
        self.state ^= self.state << 5;
        self.state ^= self.state >> 17;
        if max == 0 {
            0
        } else {
            self.state % max
        }
    }
}

} // verus!
