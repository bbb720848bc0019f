//! The pseudo-random source: a SplitMix64 stream with an explicit seed.

use vstd::prelude::*;

verus! {

/// The amount by which the state grows at every draw.
pub const GOLDEN_GAMMA: u64 = 0x9E37_79B9_7F4A_7C15;

/// The first multiplier of the output mix.
pub const MIX_A: u64 = 0xBF58_476D_1CE4_E5B9;

/// The second multiplier of the output mix.
pub const MIX_B: u64 = 0x94D0_49BB_1331_11EB;

/// The state that follows `state`.
pub open spec fn step(state: u64) -> u64 {
    state.wrapping_add(GOLDEN_GAMMA)
}

/// The number that is handed out when the source has reached `state`.
pub open spec fn mix(state: u64) -> u64 {
    let a = (state ^ (state >> 30)).wrapping_mul(MIX_A);
    let b = (a ^ (a >> 27)).wrapping_mul(MIX_B);
    b ^ (b >> 31)
}

/// A stream of 64-bit numbers that is a function of its seed alone.
pub struct RandomSource {
    pub state: u64,
}

impl RandomSource {
    /// A source that starts at `seed`.
    pub fn new(seed: u64) -> (source: Self)
        ensures
            source.state == seed,
    {
        RandomSource { state: seed }
    }

    /// Advances the source by one step and hands out the number of the new state.
    pub fn next_u64(&mut self) -> (raw: u64)
        ensures
            final(self).state == step(old(self).state),
            raw == mix(step(old(self).state)),
    {
        self.state = self.state.wrapping_add(GOLDEN_GAMMA);
        let a: u64 = (self.state ^ (self.state >> 30)).wrapping_mul(MIX_A);
        let b: u64 = (a ^ (a >> 27)).wrapping_mul(MIX_B);
        b ^ (b >> 31)
    }
}

} // verus!
