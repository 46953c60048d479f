//! Grain amplitude envelope: a cheap recursive sinusoid generator in
//! coupled form.  Seeded with an increment of `1 / length`, the recurrence
//! `sin[n] = dsin * sin[n-1] - sin[n-2]` walks through one cycle of
//! `sin(2 * pi * n * inc)` without evaluating the sine per sample; the
//! stored samples are clamped into `[-1, 1]` so rounding drift can never
//! grow the state.

use vstd::prelude::*;

use crate::fx::cos_two_pi;
use crate::fx::cos_two_pi_spec;
use crate::fx::fx_abs;
use crate::fx::fx_clamp;
use crate::fx::fx_clamp_spec;
use crate::fx::fx_mul;
use crate::fx::fx_mul_spec;
use crate::fx::lemma_fx_mul_le;
use crate::fx::sin_two_pi;
use crate::fx::sin_two_pi_spec;
use crate::fx::FX_ONE;

verus! {

/// Mathematical state of the oscillator.
#[verifier::ext_equal]
pub struct EnvModel {
    pub inc: int,
    pub sin0: int,
    pub sin1: int,
    pub dsin: int,
}

impl EnvModel {
    pub open spec fn wf(&self) -> bool {
        &&& 0 <= self.inc <= FX_ONE
        &&& fx_abs(self.sin0) <= FX_ONE
        &&& fx_abs(self.sin1) <= FX_ONE
        &&& fx_abs(self.dsin) <= 2 * FX_ONE as int
    }
}

/// The state right after seeding with increment `inc`: phase zero, the
/// previous sample one increment back, and the recurrence coefficient
/// `2 * cos(2 * pi * inc)`.
pub open spec fn env_reset_spec(inc: int) -> EnvModel {
    EnvModel { inc, sin0: 0, sin1: -sin_two_pi_spec(inc), dsin: 2 * cos_two_pi_spec(inc) }
}

/// One step of the coupled-form recurrence, clamped into `[-1, 1]`.
pub open spec fn env_step_spec(e: EnvModel) -> EnvModel {
    EnvModel {
        inc: e.inc,
        sin0: fx_clamp_spec(fx_mul_spec(e.dsin, e.sin0) - e.sin1, FX_ONE as int),
        sin1: e.sin0,
        dsin: e.dsin,
    }
}

#[derive(Clone, Copy)]
pub struct Envelope {
    inc: i64,
    sin0: i64,
    sin1: i64,
    dsin: i64,
}

impl View for Envelope {
    type V = EnvModel;

    closed spec fn view(&self) -> EnvModel {
        EnvModel {
            inc: self.inc as int,
            sin0: self.sin0 as int,
            sin1: self.sin1 as int,
            dsin: self.dsin as int,
        }
    }
}

impl Envelope {
    /// A dormant oscillator; seeded later by `set_inc`.
    pub fn new() -> (r: Envelope)
        ensures
            r@ == (EnvModel { inc: 0, sin0: 0, sin1: 0, dsin: 0 }),
            r@.wf(),
    {
        Envelope { inc: 0, sin0: 0, sin1: 0, dsin: 0 }
    }

    /// Rewind to phase zero, keeping the increment.
    pub fn reset(&mut self)
        requires
            0 <= old(self)@.inc <= FX_ONE,
        ensures
            final(self)@ == env_reset_spec(old(self)@.inc),
            final(self)@.wf(),
    {
        self.sin0 = 0;
        let s = sin_two_pi(self.inc);
        self.sin1 = -s;
        let c = cos_two_pi(self.inc);
        self.dsin = 2 * c;
    }

    /// Seed with a new increment (one over the grain length) and rewind.
    pub fn set_inc(&mut self, inc: i64)
        requires
            0 <= inc <= FX_ONE,
        ensures
            final(self)@ == env_reset_spec(inc as int),
            final(self)@.wf(),
    {
        self.inc = inc;
        self.reset();
    }

    /// Advance the recurrence one sample and return the new value.
    pub fn next_sample(&mut self) -> (r: i64)
        requires
            old(self)@.wf(),
        ensures
            final(self)@ == env_step_spec(old(self)@),
            r == final(self)@.sin0,
            final(self)@.wf(),
            fx_abs(r as int) <= FX_ONE,
    {
        proof {
            lemma_fx_mul_le(
                self@.dsin,
                self@.sin0,
                0x2_0000_0000,
                0x1_0000_0000,
                0x2_0000_0000,
            );
        }
        let prod = fx_mul(self.dsin, self.sin0);
        let sinx = fx_clamp(prod - self.sin1, FX_ONE);
        self.sin1 = self.sin0;
        self.sin0 = sinx;
        sinx
    }
}

} // verus!
