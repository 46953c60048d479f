//! Feedback-path tone shaping: a low-pass biquad per channel.
//!
//! Coefficients follow the classic cookbook low-pass form,
//! `omega = 2 * pi * cutoff / sample_rate`, `alpha = sin(omega) / (2 * q)`,
//! all normalized by `a0 = 1 + alpha`; the cutoff fraction is clamped at
//! Nyquist so `alpha` stays non-negative and the normalization can never
//! divide by less than one.  `process` applies the two-pole/two-zero
//! difference equation -- feedforward taps over the two past inputs,
//! feedback taps over the two past outputs -- and clamps its result, which
//! bounds the feedback loop whatever the coefficients are.

use vstd::prelude::*;

use crate::fx::cos_two_pi;
use crate::fx::cos_two_pi_spec;
use crate::fx::fx_abs;
use crate::fx::fx_clamp;
use crate::fx::fx_clamp_spec;
use crate::fx::fx_div;
use crate::fx::fx_div_spec;
use crate::fx::fx_mul;
use crate::fx::fx_mul_spec;
use crate::fx::lemma_fx_div_le;
use crate::fx::lemma_fx_div_nonneg;
use crate::fx::lemma_fx_mul_le;
use crate::fx::lemma_sin_first_half_nonneg;
use crate::fx::sin_two_pi;
use crate::fx::sin_two_pi_spec;
use crate::fx::FX_HALF;
use crate::fx::FX_ONE;
use crate::trigger::SAMPLE_RATE_LIMIT;

verus! {

/// Saturation bound on the filter output (8.0 in Q32); the stability guard
/// of the feedback loop.
pub const FILTER_LIMIT: i64 = 0x8_0000_0000;

/// Magnitude bound on what the feedback path may hand the filter.
pub const FILTER_IN_LIMIT: i64 = 0x1000_0000_0000_0000;

/// The default cutoff in Q32 Hz, used when only the sample rate changes.
pub const DEFAULT_CUTOFF: i64 = 0x1388_0000_0000;

/// The default resonance (0.707, a Butterworth-style response) in Q32.
pub const Q_DEFAULT: i64 = 3037000500;

/// Mathematical state of one biquad channel.
#[verifier::ext_equal]
pub struct FilterModel {
    pub b0: int,
    pub b1: int,
    pub b2: int,
    pub a1: int,
    pub a2: int,
    pub x1: int,
    pub x2: int,
    pub z1: int,
    pub z2: int,
    pub sample_rate: int,
    pub q: int,
}

impl FilterModel {
    pub open spec fn wf(&self) -> bool {
        &&& 0 <= self.b0 <= FX_ONE
        &&& 0 <= self.b1 <= 2 * FX_ONE as int
        &&& 0 <= self.b2 <= FX_ONE
        &&& fx_abs(self.a1) <= 2 * FX_ONE as int
        &&& 0 <= self.a2 <= FX_ONE
        &&& fx_abs(self.x1) <= FILTER_IN_LIMIT
        &&& fx_abs(self.x2) <= FILTER_IN_LIMIT
        &&& fx_abs(self.z1) <= FILTER_LIMIT
        &&& fx_abs(self.z2) <= FILTER_LIMIT
        &&& 1 <= self.sample_rate <= SAMPLE_RATE_LIMIT
        &&& FX_HALF <= self.q <= FX_ONE
    }
}

/// The cutoff as a Q32 fraction of the sample rate, clamped at Nyquist.
pub open spec fn cutoff_fraction_spec(cutoff: int, sample_rate: int) -> int {
    let x = cutoff / sample_rate;
    if x > FX_HALF {
        FX_HALF as int
    } else {
        x
    }
}

/// The filter with its coefficients recomputed for `cutoff`, history kept.
pub open spec fn filter_tuned_spec(f: FilterModel, cutoff: int) -> FilterModel {
    let x = cutoff_fraction_spec(cutoff, f.sample_rate);
    let sin_o = sin_two_pi_spec(x);
    let cos_o = cos_two_pi_spec(x);
    let alpha = fx_div_spec(sin_o, 2 * f.q);
    let a0 = FX_ONE + alpha;
    FilterModel {
        b0: fx_div_spec((FX_ONE - cos_o) / 2, a0),
        b1: fx_div_spec(FX_ONE - cos_o, a0),
        b2: fx_div_spec((FX_ONE - cos_o) / 2, a0),
        a1: -fx_div_spec(2 * cos_o, a0),
        a2: fx_div_spec(FX_ONE - alpha, a0),
        ..f
    }
}

/// The clamped output of the two-pole/two-zero difference equation for
/// input `x`: `b0*x + b1*x1 + b2*x2 - a1*z1 - a2*z2` over the two past
/// inputs `x1`, `x2` and the two past outputs `z1`, `z2`.
pub open spec fn filter_out_spec(f: FilterModel, x: int) -> int {
    fx_clamp_spec(
        fx_mul_spec(f.b0, x) + fx_mul_spec(f.b1, f.x1) + fx_mul_spec(f.b2, f.x2) - fx_mul_spec(
            f.a1,
            f.z1,
        ) - fx_mul_spec(f.a2, f.z2),
        FILTER_LIMIT as int,
    )
}

/// One processed sample: output computed, both histories shifted.
pub open spec fn filter_step_spec(f: FilterModel, x: int) -> FilterModel {
    FilterModel { x1: x, x2: f.x1, z1: filter_out_spec(f, x), z2: f.z1, ..f }
}

pub struct BiquadLowPass {
    b0: i64,
    b1: i64,
    b2: i64,
    a1: i64,
    a2: i64,
    x1: i64,
    x2: i64,
    z1: i64,
    z2: i64,
    sample_rate: u32,
    q: i64,
}

impl View for BiquadLowPass {
    type V = FilterModel;

    closed spec fn view(&self) -> FilterModel {
        FilterModel {
            b0: self.b0 as int,
            b1: self.b1 as int,
            b2: self.b2 as int,
            a1: self.a1 as int,
            a2: self.a2 as int,
            x1: self.x1 as int,
            x2: self.x2 as int,
            z1: self.z1 as int,
            z2: self.z2 as int,
            sample_rate: self.sample_rate as int,
            q: self.q as int,
        }
    }
}

impl BiquadLowPass {
    /// A quiet filter tuned to `cutoff` (Q32 Hz).
    pub fn new(cutoff: i64, sample_rate: u32, q: i64) -> (r: BiquadLowPass)
        requires
            0 <= cutoff,
            1 <= sample_rate <= SAMPLE_RATE_LIMIT,
            FX_HALF <= q <= FX_ONE,
        ensures
            r@ == filter_tuned_spec(
                FilterModel {
                    b0: 0,
                    b1: 0,
                    b2: 0,
                    a1: 0,
                    a2: 0,
                    x1: 0,
                    x2: 0,
                    z1: 0,
                    z2: 0,
                    sample_rate: sample_rate as int,
                    q: q as int,
                },
                cutoff as int,
            ),
            r@.wf(),
    {
        let mut filter = BiquadLowPass {
            b0: 0,
            b1: 0,
            b2: 0,
            a1: 0,
            a2: 0,
            x1: 0,
            x2: 0,
            z1: 0,
            z2: 0,
            sample_rate,
            q,
        };
        filter.update_coefficients(cutoff);
        filter
    }

    /// Retune without resetting history, so parameter sweeps do not click.
    pub fn update_coefficients(&mut self, cutoff: i64)
        requires
            old(self)@.wf() || (old(self)@.x1 == 0 && old(self)@.x2 == 0 && old(self)@.z1 == 0
                && old(self)@.z2 == 0 && 1 <= old(self)@.sample_rate <= SAMPLE_RATE_LIMIT
                && FX_HALF <= old(self)@.q <= FX_ONE),
            0 <= cutoff,
        ensures
            final(self)@ == filter_tuned_spec(old(self)@, cutoff as int),
            final(self)@.wf(),
    {
        let fraction = ((cutoff as u64) / (self.sample_rate as u64)) as i64;
        let x = if fraction > FX_HALF {
            FX_HALF
        } else {
            fraction
        };
        proof {
            vstd::arithmetic::div_mod::lemma_div_pos_is_pos(cutoff as int, self@.sample_rate);
            lemma_sin_first_half_nonneg(x as int);
        }
        let sin_o = sin_two_pi(x);
        let cos_o = cos_two_pi(x);
        proof {
            lemma_fx_div_nonneg(sin_o as int, 2 * self@.q);
            lemma_fx_div_le(sin_o as int, 2 * self@.q, 0x1_0000_0000, 0x1_0000_0000);
        }
        let alpha = fx_div(sin_o, 2 * self.q);
        let a0 = FX_ONE + alpha;
        proof {
            lemma_fx_div_nonneg(((FX_ONE - cos_o) / 2) as int, a0 as int);
            lemma_fx_div_le(((FX_ONE - cos_o) / 2) as int, a0 as int, 0x1_0000_0000, 0x1_0000_0000);
            lemma_fx_div_nonneg((FX_ONE - cos_o) as int, a0 as int);
            lemma_fx_div_le((FX_ONE - cos_o) as int, a0 as int, 0x2_0000_0000, 0x2_0000_0000);
            lemma_fx_div_le(2 * cos_o as int, a0 as int, 0x2_0000_0000, 0x2_0000_0000);
            lemma_fx_div_nonneg((FX_ONE - alpha) as int, a0 as int);
            lemma_fx_div_le((FX_ONE - alpha) as int, a0 as int, 0x1_0000_0000, 0x1_0000_0000);
        }
        let half_gain = (((FX_ONE - cos_o) as u64) / 2) as i64;
        self.b0 = fx_div(half_gain, a0);
        self.b1 = fx_div(FX_ONE - cos_o, a0);
        self.b2 = self.b0;
        self.a1 = -fx_div(2 * cos_o, a0);
        self.a2 = fx_div(FX_ONE - alpha, a0);
    }

    /// Adopt a new sample rate and retune to the default cutoff.
    pub fn update_sample_rate(&mut self, sample_rate: u32)
        requires
            old(self)@.wf(),
            1 <= sample_rate <= SAMPLE_RATE_LIMIT,
        ensures
            final(self)@ == filter_tuned_spec(
                FilterModel { sample_rate: sample_rate as int, ..old(self)@ },
                DEFAULT_CUTOFF as int,
            ),
            final(self)@.wf(),
    {
        self.sample_rate = sample_rate;
        self.update_coefficients(DEFAULT_CUTOFF);
    }

    /// One sample through the difference equation.
    pub fn process(&mut self, input: i64) -> (r: i64)
        requires
            old(self)@.wf(),
            fx_abs(input as int) <= FILTER_IN_LIMIT,
        ensures
            final(self)@ == filter_step_spec(old(self)@, input as int),
            r == filter_out_spec(old(self)@, input as int),
            fx_abs(r as int) <= FILTER_LIMIT,
            final(self)@.wf(),
    {
        proof {
            lemma_fx_mul_le(
                self@.b0,
                input as int,
                0x1_0000_0000,
                FILTER_IN_LIMIT as int,
                FILTER_IN_LIMIT as int,
            );
            lemma_fx_mul_le(
                self@.b1,
                self@.x1,
                0x2_0000_0000,
                FILTER_IN_LIMIT as int,
                2 * (FILTER_IN_LIMIT as int),
            );
            lemma_fx_mul_le(
                self@.b2,
                self@.x2,
                0x1_0000_0000,
                FILTER_IN_LIMIT as int,
                FILTER_IN_LIMIT as int,
            );
            lemma_fx_mul_le(self@.a1, self@.z1, 0x2_0000_0000, 0x8_0000_0000, 0x10_0000_0000);
            lemma_fx_mul_le(self@.a2, self@.z2, 0x1_0000_0000, 0x8_0000_0000, 0x8_0000_0000);
        }
        let acc = fx_mul(self.b0, input) + fx_mul(self.b1, self.x1) + fx_mul(self.b2, self.x2)
            - fx_mul(self.a1, self.z1) - fx_mul(self.a2, self.z2);
        let out = fx_clamp(acc, FILTER_LIMIT);
        self.x2 = self.x1;
        self.x1 = input;
        self.z2 = self.z1;
        self.z1 = out;
        out
    }
}

/// Two independent channels of the same low-pass.
pub struct StereoBiquadLowPass {
    left: BiquadLowPass,
    right: BiquadLowPass,
}

impl View for StereoBiquadLowPass {
    type V = (FilterModel, FilterModel);

    closed spec fn view(&self) -> (FilterModel, FilterModel) {
        (self.left@, self.right@)
    }
}

impl StereoBiquadLowPass {
    pub fn new(cutoff: i64, sample_rate: u32, q: i64) -> (r: StereoBiquadLowPass)
        requires
            0 <= cutoff,
            1 <= sample_rate <= SAMPLE_RATE_LIMIT,
            FX_HALF <= q <= FX_ONE,
        ensures
            r@.0 == r@.1,
            r@.0 == filter_tuned_spec(
                FilterModel {
                    b0: 0,
                    b1: 0,
                    b2: 0,
                    a1: 0,
                    a2: 0,
                    x1: 0,
                    x2: 0,
                    z1: 0,
                    z2: 0,
                    sample_rate: sample_rate as int,
                    q: q as int,
                },
                cutoff as int,
            ),
            r@.0.wf() && r@.1.wf(),
    {
        StereoBiquadLowPass {
            left: BiquadLowPass::new(cutoff, sample_rate, q),
            right: BiquadLowPass::new(cutoff, sample_rate, q),
        }
    }

    pub fn update_coefficients(&mut self, cutoff: i64)
        requires
            old(self)@.0.wf(),
            old(self)@.1.wf(),
            0 <= cutoff,
        ensures
            final(self)@.0 == filter_tuned_spec(old(self)@.0, cutoff as int),
            final(self)@.1 == filter_tuned_spec(old(self)@.1, cutoff as int),
            final(self)@.0.wf() && final(self)@.1.wf(),
    {
        self.left.update_coefficients(cutoff);
        self.right.update_coefficients(cutoff);
    }

    pub fn update_sample_rate(&mut self, sample_rate: u32)
        requires
            old(self)@.0.wf(),
            old(self)@.1.wf(),
            1 <= sample_rate <= SAMPLE_RATE_LIMIT,
        ensures
            final(self)@.0 == filter_tuned_spec(
                FilterModel { sample_rate: sample_rate as int, ..old(self)@.0 },
                DEFAULT_CUTOFF as int,
            ),
            final(self)@.1 == filter_tuned_spec(
                FilterModel { sample_rate: sample_rate as int, ..old(self)@.1 },
                DEFAULT_CUTOFF as int,
            ),
            final(self)@.0.wf() && final(self)@.1.wf(),
    {
        self.left.update_sample_rate(sample_rate);
        self.right.update_sample_rate(sample_rate);
    }

    pub fn process(&mut self, input: (i64, i64)) -> (r: (i64, i64))
        requires
            old(self)@.0.wf(),
            old(self)@.1.wf(),
            fx_abs(input.0 as int) <= FILTER_IN_LIMIT,
            fx_abs(input.1 as int) <= FILTER_IN_LIMIT,
        ensures
            final(self)@.0 == filter_step_spec(old(self)@.0, input.0 as int),
            final(self)@.1 == filter_step_spec(old(self)@.1, input.1 as int),
            r.0 == filter_out_spec(old(self)@.0, input.0 as int),
            r.1 == filter_out_spec(old(self)@.1, input.1 as int),
            fx_abs(r.0 as int) <= FILTER_LIMIT,
            fx_abs(r.1 as int) <= FILTER_LIMIT,
            final(self)@.0.wf() && final(self)@.1.wf(),
    {
        (self.left.process(input.0), self.right.process(input.1))
    }
}

} // verus!
