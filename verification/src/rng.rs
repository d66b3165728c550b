//! Seedable pseudo-random source for the rotation draw.
//!
//! A linear congruential generator over `u64`. The stream is a pure function
//! of the seed, so layouts are reproducible: seeding two engines alike makes
//! them draw the same rotations.

use vstd::prelude::*;

verus! {

pub const LCG_MUL: u64 = 6364136223846793005;

pub const LCG_ADD: u64 = 1442695040888963407;

/// The successor state of the generator.
pub open spec fn spec_next_state(s: u64) -> u64 {
    ((s * LCG_MUL + LCG_ADD) % 0x1_0000_0000_0000_0000) as u64
}

pub struct RandomSource {
    state: u64,
}

impl RandomSource {
    pub closed spec fn spec_state(self) -> u64 {
        self.state
    }

    pub fn new(seed: u64) -> (r: RandomSource)
        ensures
            r.spec_state() == seed,
    {
        RandomSource { state: seed }
    }

    /// Advances the generator and returns the new state as the draw.
    pub fn next_u64(&mut self) -> (v: u64)
        ensures
            final(self).spec_state() == spec_next_state(old(self).spec_state()),
            v == final(self).spec_state(),
    {
        proof {
            assert((self.state as int) * (LCG_MUL as int) <= 0xFFFF_FFFF_FFFF_FFFF * (
            LCG_MUL as int)) by (nonlinear_arith)
                requires
                    0 <= self.state as int <= 0xFFFF_FFFF_FFFF_FFFF,
            ;
        }
        let wide: u128 = (self.state as u128) * (LCG_MUL as u128) + (LCG_ADD as u128);
        let next: u64 = (wide % 0x1_0000_0000_0000_0000u128) as u64;
        self.state = next;
        next
    }

    /// A draw in `[0, bound)`.
    pub fn next_in_range(&mut self, bound: u64) -> (v: u64)
        requires
            bound > 0,
        ensures
            final(self).spec_state() == spec_next_state(old(self).spec_state()),
            v == final(self).spec_state() % bound,
            v < bound,
    {
        let raw = self.next_u64();
        raw % bound
    }
}

} // verus!
