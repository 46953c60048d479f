//! Jittered periodic grain-activation clock.
//!
//! A phase accumulator gathers the spawn rate once per sample and fires when
//! it crosses one period.  To keep the arithmetic exact, phase is counted in
//! `density * 2^32` units per sample and compared against
//! `sample_rate * (1 + rnd)` in the same units, so no division by the
//! sample rate ever happens.  On each fire a fresh jitter `rnd` in
//! `[-chaos, chaos]` is drawn and the crossed threshold is re-subtracted,
//! which makes the clock non-metronomic for positive chaos and exactly
//! periodic for zero chaos.

use vstd::arithmetic::mul::lemma_mul_inequality;
use vstd::arithmetic::mul::lemma_mul_is_distributive_add_other_way;
use vstd::arithmetic::mul::lemma_mul_upper_bound;
use vstd::prelude::*;

use crate::fx::fx_abs;
use crate::fx::fx_clamp;
use crate::fx::fx_clamp_spec;
use crate::fx::fx_mul;
use crate::fx::fx_mul_spec;
use crate::fx::lemma_fx_mul_contracts;
use crate::fx::lemma_fx_mul_zero;
use crate::fx::FX_ONE;
use crate::noise::lcg_bipolar;
use crate::noise::lcg_next;
use crate::noise::Noise;

verus! {

/// Ceiling on the spawn rate (64 Hz in Q32); the host range stays below it.
pub const DENSITY_LIMIT: i64 = 0x40_0000_0000;

/// Ceiling on the sample rate in Hz.
pub const SAMPLE_RATE_LIMIT: u32 = 1_000_000;

/// Saturation bound on the phase accumulator; far outside the range the
/// accumulator can reach between two fires, it only guards the corner in
/// which maximal jitter keeps re-arming the threshold at zero.
pub const PHASE_CAP: i64 = 0x80_0000_0000_0000;

/// Mathematical state of the trigger.
#[verifier::ext_equal]
pub struct TrigModel {
    pub inc: int,
    pub phase: int,
    pub sample_rate: int,
    pub chaos: int,
    pub rnd: int,
    pub noise: u64,
}

impl TrigModel {
    pub open spec fn wf(&self) -> bool {
        &&& 0 <= self.inc <= DENSITY_LIMIT
        &&& fx_abs(self.phase) <= PHASE_CAP
        &&& 0 <= self.sample_rate <= SAMPLE_RATE_LIMIT
        &&& 0 <= self.chaos <= FX_ONE
        &&& fx_abs(self.rnd) <= FX_ONE
    }
}

/// The phase level a fire must cross: one period, stretched or shrunk by
/// the current jitter.
pub open spec fn trig_threshold(sample_rate: int, rnd: int) -> int {
    sample_rate * (FX_ONE + rnd)
}

/// Whether the coming update fires.
pub open spec fn trig_fires(t: TrigModel) -> bool {
    fx_clamp_spec(t.phase + t.inc, PHASE_CAP as int) > trig_threshold(t.sample_rate, t.rnd)
}

/// One sample of the clock: accumulate, and on a fire draw the next jitter
/// and re-subtract the (freshly jittered) threshold.
pub open spec fn trig_step(t: TrigModel) -> TrigModel {
    let p2 = fx_clamp_spec(t.phase + t.inc, PHASE_CAP as int);
    if p2 > trig_threshold(t.sample_rate, t.rnd) {
        let r2 = fx_mul_spec(lcg_bipolar(t.noise), t.chaos);
        TrigModel {
            phase: p2 - trig_threshold(t.sample_rate, r2),
            rnd: r2,
            noise: lcg_next(t.noise),
            ..t
        }
    } else {
        TrigModel { phase: p2, ..t }
    }
}

/// The trigger after `k` samples.
pub open spec fn trig_after(t: TrigModel, k: nat) -> TrigModel
    decreases k,
{
    if k == 0 {
        t
    } else {
        trig_step(trig_after(t, (k - 1) as nat))
    }
}

pub struct Trig {
    inc: i64,
    phase: i64,
    sample_rate: u32,
    chaos: i64,
    rnd: i64,
    noise: Noise,
}

impl View for Trig {
    type V = TrigModel;

    closed spec fn view(&self) -> TrigModel {
        TrigModel {
            inc: self.inc as int,
            phase: self.phase as int,
            sample_rate: self.sample_rate as int,
            chaos: self.chaos as int,
            rnd: self.rnd as int,
            noise: self.noise@,
        }
    }
}

impl Trig {
    /// A fresh clock: maximal chaos and a full-period jitter, so the first
    /// fire comes only after two periods have accumulated.
    pub fn new(seed: u64) -> (r: Trig)
        ensures
            r@ == (TrigModel {
                inc: 0,
                phase: 0,
                sample_rate: 0,
                chaos: FX_ONE as int,
                rnd: FX_ONE as int,
                noise: seed,
            }),
            r@.wf(),
    {
        Trig {
            inc: 0,
            phase: 0,
            sample_rate: 0,
            chaos: FX_ONE,
            rnd: FX_ONE,
            noise: Noise::from_seed(seed),
        }
    }

    /// Set the spawn rate (`density` in Q32 Hz); the stored increment is in
    /// the same Hz-scaled units the threshold uses, so no precision is lost
    /// against the sample rate.
    pub fn set_inc(&mut self, density: i64)
        requires
            0 <= density <= DENSITY_LIMIT,
        ensures
            final(self)@ == (TrigModel { inc: density as int, ..old(self)@ }),
    {
        self.inc = density;
    }

    pub fn set_sample_rate(&mut self, sample_rate: u32)
        requires
            sample_rate <= SAMPLE_RATE_LIMIT,
        ensures
            final(self)@ == (TrigModel { sample_rate: sample_rate as int, ..old(self)@ }),
    {
        self.sample_rate = sample_rate;
    }

    pub fn set_chaos(&mut self, chaos: i64)
        requires
            0 <= chaos <= FX_ONE,
        ensures
            final(self)@ == (TrigModel { chaos: chaos as int, ..old(self)@ }),
    {
        self.chaos = chaos;
    }

    /// Advance one sample; true exactly when a grain should spawn.
    pub fn update(&mut self) -> (fired: bool)
        requires
            old(self)@.wf(),
        ensures
            final(self)@ == trig_step(old(self)@),
            fired == trig_fires(old(self)@),
            final(self)@.wf(),
    {
        proof {
            lemma_mul_upper_bound(
                self@.sample_rate,
                SAMPLE_RATE_LIMIT as int,
                FX_ONE + self@.rnd,
                2 * (FX_ONE as int),
            );
            vstd::arithmetic::mul::lemma_mul_nonnegative(
                self@.sample_rate,
                FX_ONE + self@.rnd,
            );
        }
        let p2 = fx_clamp(self.phase + self.inc, PHASE_CAP);
        let threshold = (self.sample_rate as i64) * (FX_ONE + self.rnd);
        if p2 > threshold {
            proof {
                lemma_fx_mul_contracts(lcg_bipolar(self@.noise), self@.chaos);
            }
            let r2 = fx_mul(self.noise.next_bipolar(), self.chaos);
            proof {
                lemma_mul_upper_bound(
                    self@.sample_rate,
                    SAMPLE_RATE_LIMIT as int,
                    FX_ONE + r2 as int,
                    2 * (FX_ONE as int),
                );
                vstd::arithmetic::mul::lemma_mul_nonnegative(
                    self@.sample_rate,
                    FX_ONE + r2 as int,
                );
            }
            self.rnd = r2;
            self.phase = p2 - (self.sample_rate as i64) * (FX_ONE + r2);
            true
        } else {
            self.phase = p2;
            false
        }
    }
}

/// Trigger periodicity: with zero chaos and a re-armed jitter of zero, a
/// clock whose one-period threshold is an exact multiple of its increment
/// fires exactly once every `threshold / inc` samples, with zero variance:
/// within one period only the last sample fires, and the fire returns the
/// phase to exactly where the period began.
pub proof fn lemma_trigger_periodic(t: TrigModel, k: nat)
    requires
        t.wf(),
        t.chaos == 0,
        t.rnd == 0,
        0 < t.inc,
        trig_threshold(t.sample_rate, 0) % t.inc == 0,
        0 < t.phase <= t.inc,
        1 <= k <= trig_threshold(t.sample_rate, 0) / t.inc,
    ensures
        trig_fires(trig_after(t, (k - 1) as nat)) <==> k == trig_threshold(
            t.sample_rate,
            0,
        ) / t.inc,
        trig_after(t, k).phase == if k == trig_threshold(t.sample_rate, 0) / t.inc {
            t.phase
        } else {
            t.phase + k * t.inc
        },
        trig_after(t, k).rnd == 0,
        trig_after(t, k).chaos == 0,
        trig_after(t, k).inc == t.inc,
        trig_after(t, k).sample_rate == t.sample_rate,
    decreases k,
{
    let thr = trig_threshold(t.sample_rate, 0);
    let period = thr / t.inc;
    assert(thr == period * t.inc) by {
        vstd::arithmetic::div_mod::lemma_fundamental_div_mod(thr, t.inc);
    }
    assert(0 <= thr) by {
        vstd::arithmetic::mul::lemma_mul_nonnegative(t.sample_rate, FX_ONE as int);
    }
    assert(0 <= period) by {
        vstd::arithmetic::div_mod::lemma_div_pos_is_pos(thr, t.inc);
    }
    assert(thr <= PHASE_CAP - t.inc) by {
        lemma_mul_upper_bound(t.sample_rate, SAMPLE_RATE_LIMIT as int, FX_ONE as int, FX_ONE as int);
    }
    if k == 1 {
        let t1 = trig_step(t);
        assert(fx_clamp_spec(t.phase + t.inc, PHASE_CAP as int) == t.phase + t.inc);
        if period == 1 {
            assert(trig_fires(t)) by {
                vstd::arithmetic::mul::lemma_mul_basics(t.inc);
            }
            lemma_fx_mul_zero(lcg_bipolar(t.noise));
            assert(t1.phase == t.phase + t.inc - thr);
            assert(1 * t.inc == t.inc) by {
                vstd::arithmetic::mul::lemma_mul_basics(t.inc);
            }
        } else {
            assert(2 <= period);
            assert(t.inc <= period * t.inc - t.inc) by {
                lemma_mul_is_distributive_add_other_way(t.inc, period - 1, 1);
                lemma_mul_inequality(1, period - 1, t.inc);
                vstd::arithmetic::mul::lemma_mul_basics(t.inc);
            }
            assert(t.phase + t.inc <= thr);
            assert(!trig_fires(t));
            assert(t1.phase == t.phase + 1 * t.inc) by {
                vstd::arithmetic::mul::lemma_mul_basics(t.inc);
            }
        }
    } else {
        lemma_trigger_periodic(t, (k - 1) as nat);
        let prev = trig_after(t, (k - 1) as nat);
        assert(prev.phase == t.phase + (k - 1) * t.inc);
        assert(prev.wf()) by {
            assert(0 <= (k - 1) * t.inc <= (period - 1) * t.inc) by {
                vstd::arithmetic::mul::lemma_mul_nonnegative((k - 1) as int, t.inc);
                lemma_mul_inequality((k - 1) as int, period - 1, t.inc);
            }
            assert((period - 1) * t.inc == thr - t.inc) by {
                lemma_mul_is_distributive_add_other_way(t.inc, period - 1, 1);
                vstd::arithmetic::mul::lemma_mul_basics(t.inc);
            }
        }
        assert(prev.phase + t.inc == t.phase + k * t.inc) by {
            lemma_mul_is_distributive_add_other_way(t.inc, (k - 1) as int, 1);
            vstd::arithmetic::mul::lemma_mul_basics(t.inc);
        }
        assert(t.phase + k * t.inc <= PHASE_CAP) by {
            lemma_mul_inequality(k as int, period, t.inc);
        }
        assert(fx_clamp_spec(prev.phase + prev.inc, PHASE_CAP as int) == t.phase + k * t.inc);
        if k == period {
            assert(t.phase + k * t.inc > thr);
            assert(trig_fires(prev));
            lemma_fx_mul_zero(lcg_bipolar(prev.noise));
            assert(trig_after(t, k).phase == t.phase + k * t.inc - thr);
            assert(k * t.inc == thr) by {
                vstd::arithmetic::mul::lemma_mul_is_commutative(k as int, t.inc);
            }
        } else {
            assert(k < period);
            assert(t.phase + k * t.inc <= thr) by {
                assert(k * t.inc <= (period - 1) * t.inc) by {
                    lemma_mul_inequality(k as int, period - 1, t.inc);
                }
                assert((period - 1) * t.inc == thr - t.inc) by {
                    lemma_mul_is_distributive_add_other_way(t.inc, period - 1, 1);
                    vstd::arithmetic::mul::lemma_mul_basics(t.inc);
                }
            }
            assert(!trig_fires(prev));
        }
    }
}

} // verus!
