//! Injected pseudo-random source for grain placement and trigger jitter.
//!
//! The render path needs randomness (spawn offsets, stereo positions, timing
//! jitter) but must stay reproducible under test, so the core draws from a
//! linear congruential generator whose step is fully specified; only the
//! seed may come from the machine, through one trusted call.

use vstd::arithmetic::mul::lemma_mul_upper_bound;
use vstd::prelude::*;

use crate::fx::FX_ONE;

verus! {

/// Multiplier of the linear congruential step.
pub const LCG_MUL: u64 = 6364136223846793005;

/// Increment of the linear congruential step.
pub const LCG_ADD: u64 = 1442695040888963407;

/// The generator state after one linear congruential step.
pub open spec fn lcg_next(s: u64) -> u64 {
    ((s * LCG_MUL + LCG_ADD) % 0x1_0000_0000_0000_0000) as u64
}

/// The value a step hands out: the high 32 bits of the new state, a Q32
/// fraction in `[0, 1)`.
pub open spec fn lcg_unit(s: u64) -> int {
    lcg_next(s) as int / 0x1_0000_0000
}

/// The same draw mapped affinely onto `[-1, 1)` in Q32.
pub open spec fn lcg_bipolar(s: u64) -> int {
    2 * lcg_unit(s) - FX_ONE as int
}

/// Deterministic pseudo-random source; its whole behaviour is a function of
/// the seed.
pub struct Noise {
    pub state: u64,
}

impl View for Noise {
    type V = u64;

    open spec fn view(&self) -> u64 {
        self.state
    }
}

impl Noise {
    /// A source that will replay the same draws for the same seed.
    pub fn from_seed(seed: u64) -> (r: Noise)
        ensures
            r@ == seed,
    {
        Noise { state: seed }
    }

    /// A source seeded from the machine; nothing is known of its draws.
    pub fn from_entropy() -> Noise {
        Noise { state: entropy_seed() }
    }

    /// Draw a Q32 fraction in `[0, 1)`.
    pub fn next_unit(&mut self) -> (r: i64)
        ensures
            final(self)@ == lcg_next(old(self)@),
            r == lcg_unit(old(self)@),
            0 <= r < FX_ONE,
    {
        proof {
            lemma_mul_upper_bound(
                self.state as int,
                0xFFFF_FFFF_FFFF_FFFF,
                LCG_MUL as int,
                LCG_MUL as int,
            );
        }
        let p: u128 = (self.state as u128) * (LCG_MUL as u128) + (LCG_ADD as u128);
        let s2: u64 = (p % 0x1_0000_0000_0000_0000) as u64;
        self.state = s2;
        let hi: u64 = s2 / 0x1_0000_0000;
        hi as i64
    }

    /// Draw a Q32 value in `[-1, 1)`.
    pub fn next_bipolar(&mut self) -> (r: i64)
        ensures
            final(self)@ == lcg_next(old(self)@),
            r == lcg_bipolar(old(self)@),
            -FX_ONE <= r < FX_ONE,
    {
        let u = self.next_unit();
        2 * u - FX_ONE
    }
}

/// Relies on rand::random: one machine-random 64-bit value from the
/// thread-local generator, used only as a seed.  Nothing is promised of it;
/// every consumer of `Noise` is verified for every possible seed.
#[verifier::external_body]
fn entropy_seed() -> u64 {
    rand::random::<u64>()
}

} // verus!
