//! The random source of the simulation.
//!
//! Every tick draws its randomness from a [`SimRng`] that the caller hands
//! in: a seedable, deterministic generator, so a run can be replayed from
//! its seed.  Only [`SimRng::from_entropy`] reaches outside, to draw a
//! fresh seed.

use vstd::prelude::*;

verus! {

const SPLIT_GOLDEN: u64 = 0x9E37_79B9_7F4A_7C15;
const SPLIT_MIX_A: u64 = 0xBF58_476D_1CE4_E5B9;
const SPLIT_MIX_B: u64 = 0x94D0_49BB_1331_11EB;

/// A seedable, deterministic random source (a splitmix generator).
pub struct SimRng {
    state: u64,
}

impl SimRng {
    /// A source that will replay the same draws for the same seed.
    pub fn new(seed: u64) -> SimRng {
        SimRng { state: seed }
    }

    /// The next raw draw.  No distribution is promised of it.
    pub fn next_u64(&mut self) -> u64 {
        let s: u64 = self.state.wrapping_add(SPLIT_GOLDEN);
        self.state = s;
        let z0: u64 = s ^ (s >> 30);
        let z1: u64 = z0.wrapping_mul(SPLIT_MIX_A);
        let z2: u64 = z1 ^ (z1 >> 27);
        let z3: u64 = z2.wrapping_mul(SPLIT_MIX_B);
        z3 ^ (z3 >> 31)
    }

    /// A draw below `n`.
    pub fn below(&mut self, n: u64) -> (r: u64)
        requires
            n > 0,
        ensures
            r < n,
    {
        let x = self.next_u64();
        x % n
    }

    /// Whether an event with the given probability, in parts per million,
    /// fires on this draw.  A certain event always fires and an impossible
    /// one never does; anything in between depends on the draw.
    pub fn chance_ppm(&mut self, ppm: u32) -> (r: bool)
        ensures
            ppm >= 1_000_000 ==> r,
            ppm == 0 ==> !r,
    {
        let x = self.below(1_000_000);
        x < ppm as u64
    }

    /// A source seeded from outside entropy, for runs that need no replay.
    pub fn from_entropy() -> SimRng {
        SimRng::new(random_seed())
    }
}

/// Relies on rand::random with the StandardUniform distribution to draw a
/// fresh seed.  Nothing is assumed of the value drawn.
#[verifier::external_body]
fn random_seed() -> u64 {
    rand::random::<u64>()
}

} // verus!
