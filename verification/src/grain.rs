//! A single playback voice.
//!
//! A grain is activated at a randomized position around its playhead's
//! distance, lives for a fixed number of samples under a sinusoidal
//! amplitude window, and drifts through the buffer at a constant rate
//! derived from the semitone pitch: the drift per sample is
//! `(1 - 2^(pitch/12)) / buffer_length`, so a pitch of zero freezes the
//! read point and any other pitch slides it relative to the write head.

use vstd::prelude::*;

use crate::env_osc::env_reset_spec;
use crate::env_osc::env_step_spec;
use crate::env_osc::EnvModel;
use crate::env_osc::Envelope;
use crate::fx::fx_abs;
use crate::fx::fx_mul;
use crate::fx::fx_mul_spec;
use crate::fx::lemma_fx_mul_contracts;
use crate::fx::lemma_fx_mul_le;
use crate::fx::FX_ONE;
use crate::fx::FX_QUARTER;

verus! {

/// Longest grain in samples: one second at the highest sample rate.
pub const GRAIN_LEN_LIMIT: u32 = 1_000_000;

/// Largest buffer a grain can address, in samples.
pub const BUF_LEN_LIMIT: u32 = 8_000_000;

/// Smallest buffer a grain can address; keeps the per-sample drift below
/// one whole buffer turn so a single wrap stays inside `[0, 1]`.
pub const BUF_LEN_MIN: u32 = 64;

/// Widest pitch offset in semitones (five octaves either way).
pub const PITCH_LIMIT: i32 = 60;

/// Equal-tempered semitone ratios `2^(k/12)` in Q32, for `k` in `0..12`.
pub open spec fn semi_ratio_spec(k: int) -> int {
    if k == 0 {
        0x1_0000_0000
    } else if k == 1 {
        4550359342
    } else if k == 2 {
        4820937788
    } else if k == 3 {
        5107605667
    } else if k == 4 {
        5411319705
    } else if k == 5 {
        5733093519
    } else if k == 6 {
        6074001000
    } else if k == 7 {
        6435179895
    } else if k == 8 {
        6817835604
    } else if k == 9 {
        7223245206
    } else if k == 10 {
        7652761717
    } else {
        8107818609
    }
}

/// Scale a semitone ratio by `2^oct` for octaves in `[-5, 5]`, rounding
/// toward zero on the way down.
pub open spec fn octave_scale_spec(oct: int, s: int) -> int {
    if oct <= -5 {
        s / 32
    } else if oct == -4 {
        s / 16
    } else if oct == -3 {
        s / 8
    } else if oct == -2 {
        s / 4
    } else if oct == -1 {
        s / 2
    } else if oct == 0 {
        s
    } else if oct == 1 {
        2 * s
    } else if oct == 2 {
        4 * s
    } else if oct == 3 {
        8 * s
    } else if oct == 4 {
        16 * s
    } else {
        32 * s
    }
}

/// The playback-rate ratio `2^(pitch/12)` in Q32.
pub open spec fn pitch_ratio_spec(p: int) -> int {
    octave_scale_spec(p / 12, semi_ratio_spec(p % 12))
}

/// Per-sample position drift in Q32 buffer fractions: `(1 - ratio)`
/// spread over one whole buffer, rounded toward zero.
pub open spec fn drift_spec(ratio: int, buf_len: int) -> int {
    if ratio <= FX_ONE {
        (FX_ONE - ratio) / buf_len
    } else {
        -((ratio - FX_ONE) / buf_len)
    }
}

/// One wrap of a position into `[0, 1]`, exactly as the render path does
/// it: a single correction by one turn.
pub open spec fn wrap_unit_spec(p: int) -> int {
    if p < 0 {
        p + FX_ONE
    } else if p > FX_ONE {
        p - FX_ONE
    } else {
        p
    }
}

/// Mathematical state of a grain.
#[verifier::ext_equal]
pub struct GrainModel {
    pub active: bool,
    pub pos: int,
    pub stereo_pos: int,
    pub buf_len: int,
    pub length: int,
    pub counter: int,
    pub gain: int,
    pub init_gain: int,
    pub env: EnvModel,
}

impl GrainModel {
    pub open spec fn wf(&self) -> bool {
        &&& 0 <= self.pos <= FX_ONE
        &&& fx_abs(self.stereo_pos) <= FX_ONE
        &&& self.active ==> {
            &&& 1 <= self.length <= GRAIN_LEN_LIMIT
            &&& BUF_LEN_MIN <= self.buf_len <= BUF_LEN_LIMIT
        }
        &&& 0 <= self.counter <= self.length
        &&& !self.active ==> self.counter == 0
        &&& fx_abs(self.gain) <= FX_ONE
        &&& 0 <= self.init_gain <= FX_ONE
        &&& self.env.wf()
    }
}

/// The state `activate` produces: spawn position spread around the
/// playhead distance, envelope reseeded for the (at least one sample long)
/// lifetime, pan and compensation gain recorded.
#[verifier::opaque]
pub open spec fn grain_activate_spec(
    g: GrainModel,
    pos_rnd: int,
    stereo_rnd: int,
    length: int,
    init_gain: int,
    window_size: int,
    playhead_distance: int,
    buf_len: int,
) -> GrainModel {
    let len = if length == 0 {
        1
    } else {
        length
    };
    GrainModel {
        active: true,
        pos: wrap_unit_spec(
            fx_mul_spec(fx_mul_spec(window_size, FX_QUARTER as int), pos_rnd) + playhead_distance,
        ),
        stereo_pos: stereo_rnd,
        buf_len,
        length: len,
        counter: g.counter,
        gain: g.gain,
        init_gain,
        env: env_reset_spec(FX_ONE as int / len),
    }
}

/// One sample of an active grain: drift and wrap the position, advance the
/// envelope and the age counter, refresh the output gain, and retire the
/// grain once its age exceeds its length.
pub open spec fn grain_step_spec(g: GrainModel, pitch: int, playhead_gain: int) -> GrainModel {
    let pos2 = wrap_unit_spec(g.pos + drift_spec(pitch_ratio_spec(pitch), g.buf_len));
    let env2 = env_step_spec(g.env);
    let gain2 = fx_mul_spec(fx_mul_spec(env2.sin0, g.init_gain), playhead_gain);
    if g.counter + 1 > g.length {
        GrainModel { active: false, pos: pos2, counter: 0, gain: gain2, env: env2, ..g }
    } else {
        GrainModel { pos: pos2, counter: g.counter + 1, gain: gain2, env: env2, ..g }
    }
}

/// The grain after `k` update samples.
pub open spec fn grain_after(g: GrainModel, pitch: int, playhead_gain: int, k: nat) -> GrainModel
    decreases k,
{
    if k == 0 {
        g
    } else {
        grain_step_spec(grain_after(g, pitch, playhead_gain, (k - 1) as nat), pitch, playhead_gain)
    }
}

#[derive(Clone, Copy)]
pub struct Grain {
    active: bool,
    pos: i64,
    stereo_pos: i64,
    buf_len: u32,
    length: u32,
    counter: u32,
    gain: i64,
    init_gain: i64,
    env: Envelope,
}

impl View for Grain {
    type V = GrainModel;

    closed spec fn view(&self) -> GrainModel {
        GrainModel {
            active: self.active,
            pos: self.pos as int,
            stereo_pos: self.stereo_pos as int,
            buf_len: self.buf_len as int,
            length: self.length as int,
            counter: self.counter as int,
            gain: self.gain as int,
            init_gain: self.init_gain as int,
            env: self.env@,
        }
    }
}

impl Grain {
    /// A dormant slot.
    pub fn new() -> (r: Grain)
        ensures
            r@ == (GrainModel {
                active: false,
                pos: 0,
                stereo_pos: 0,
                buf_len: 0,
                length: 0,
                counter: 0,
                gain: 0,
                init_gain: 0,
                env: (EnvModel { inc: 0, sin0: 0, sin1: 0, dsin: 0 }),
            }),
            r@.wf(),
    {
        Grain {
            active: false,
            pos: 0,
            stereo_pos: 0,
            buf_len: 0,
            length: 0,
            counter: 0,
            gain: 0,
            init_gain: 0,
            env: Envelope::new(),
        }
    }

    pub fn is_active(&self) -> (r: bool)
        ensures
            r == self@.active,
    {
        self.active
    }

    /// Grain data for the mixer and for visualization.
    pub fn data(&self) -> (r: (i64, i64, i64))
        ensures
            r.0 == self@.pos,
            r.1 == self@.gain,
            r.2 == self@.stereo_pos,
    {
        (self.pos, self.gain, self.stereo_pos)
    }

    /// Bring a free slot to life.  A requested length of zero is lifted to
    /// one sample so a zero-length grain state is unreachable.
    pub fn activate(
        &mut self,
        pos_rnd: i64,
        stereo_rnd: i64,
        length: u32,
        init_gain: i64,
        window_size: i64,
        playhead_distance: i64,
        buf_len: u32,
    )
        requires
            !old(self)@.active,
            old(self)@.wf(),
            fx_abs(pos_rnd as int) <= FX_ONE,
            fx_abs(stereo_rnd as int) <= FX_ONE,
            length <= GRAIN_LEN_LIMIT,
            0 <= init_gain <= FX_ONE,
            0 <= window_size <= FX_ONE,
            0 <= playhead_distance <= FX_ONE,
            BUF_LEN_MIN <= buf_len <= BUF_LEN_LIMIT,
        ensures
            final(self)@ == grain_activate_spec(
                old(self)@,
                pos_rnd as int,
                stereo_rnd as int,
                length as int,
                init_gain as int,
                window_size as int,
                playhead_distance as int,
                buf_len as int,
            ),
            final(self)@.wf(),
    {
        proof {
            reveal(grain_activate_spec);
            lemma_fx_mul_le(
                window_size as int,
                FX_QUARTER as int,
                0x1_0000_0000,
                0x4000_0000,
                0x4000_0000,
            );
            lemma_fx_mul_contracts(
                fx_mul_spec(window_size as int, FX_QUARTER as int),
                pos_rnd as int,
            );
        }
        let spread = fx_mul(fx_mul(window_size, FX_QUARTER), pos_rnd);
        let mut pos = spread + playhead_distance;
        if pos < 0 {
            pos = pos + FX_ONE;
        } else if pos > FX_ONE {
            pos = pos - FX_ONE;
        }
        let len = if length == 0 {
            1
        } else {
            length
        };
        self.pos = pos;
        self.active = true;
        self.length = len;
        self.env.set_inc(((FX_ONE as u64) / (len as u64)) as i64);
        self.stereo_pos = stereo_rnd;
        self.init_gain = init_gain;
        self.buf_len = buf_len;
    }

    /// One render sample of an active grain.
    pub fn update(&mut self, pitch: i32, playhead_gain: i64)
        requires
            old(self)@.active,
            old(self)@.wf(),
            -PITCH_LIMIT <= pitch <= PITCH_LIMIT,
            0 <= playhead_gain <= FX_ONE,
        ensures
            final(self)@ == grain_step_spec(old(self)@, pitch as int, playhead_gain as int),
            final(self)@.wf(),
    {
        let ratio = pitch_ratio(pitch);
        let drift: i64 = if ratio <= FX_ONE {
            proof {
                vstd::arithmetic::div_mod::lemma_div_nonincreasing(
                    FX_ONE - ratio,
                    self.buf_len as int,
                );
            }
            (((FX_ONE - ratio) as u64) / (self.buf_len as u64)) as i64
        } else {
            proof {
                vstd::arithmetic::div_mod::lemma_div_is_ordered_by_denominator(
                    ratio - FX_ONE,
                    64,
                    self.buf_len as int,
                );
                vstd::arithmetic::div_mod::lemma_div_is_ordered(
                    ratio - FX_ONE,
                    64 * (FX_ONE as int),
                    64,
                );
                vstd::arithmetic::div_mod::lemma_div_multiples_vanish(FX_ONE as int, 64);
            }
            -((((ratio - FX_ONE) as u64) / (self.buf_len as u64)) as i64)
        };
        let mut pos = self.pos + drift;
        if pos < 0 {
            pos = pos + FX_ONE;
        } else if pos > FX_ONE {
            pos = pos - FX_ONE;
        }
        self.pos = pos;
        self.counter = self.counter + 1;
        let e = self.env.next_sample();
        proof {
            lemma_fx_mul_contracts(e as int, self@.init_gain);
            lemma_fx_mul_contracts(fx_mul_spec(e as int, self@.init_gain), playhead_gain as int);
        }
        self.gain = fx_mul(fx_mul(e, self.init_gain), playhead_gain);
        if self.counter > self.length {
            self.active = false;
            self.counter = 0;
        }
    }
}

/// The playback-rate ratio `2^(pitch/12)` in Q32, exact per
/// `pitch_ratio_spec`.
pub fn pitch_ratio(p: i32) -> (r: i64)
    requires
        -PITCH_LIMIT <= p <= PITCH_LIMIT,
    ensures
        r == pitch_ratio_spec(p as int),
        0 < r <= 64 * (FX_ONE as int),
{
    let (oct, k): (i32, u32) = if p >= 0 {
        ((p as u32 / 12) as i32, p as u32 % 12)
    } else {
        let n = (-p) as u32;
        let q = n / 12;
        let rr = n % 12;
        if rr == 0 {
            (-(q as i32), 0)
        } else {
            (-(q as i32) - 1, 12 - rr)
        }
    };
    proof {
        vstd::arithmetic::div_mod::lemma_fundamental_div_mod_converse(
            p as int,
            12,
            oct as int,
            k as int,
        );
    }
    let s = semi_ratio(k);
    if oct <= -5 {
        (s as u64 / 32) as i64
    } else if oct == -4 {
        (s as u64 / 16) as i64
    } else if oct == -3 {
        (s as u64 / 8) as i64
    } else if oct == -2 {
        (s as u64 / 4) as i64
    } else if oct == -1 {
        (s as u64 / 2) as i64
    } else if oct == 0 {
        s
    } else if oct == 1 {
        2 * s
    } else if oct == 2 {
        4 * s
    } else if oct == 3 {
        8 * s
    } else if oct == 4 {
        16 * s
    } else {
        32 * s
    }
}

/// Equal-tempered semitone ratio table.
pub fn semi_ratio(k: u32) -> (r: i64)
    requires
        k < 12,
    ensures
        r == semi_ratio_spec(k as int),
        FX_ONE <= r < 2 * (FX_ONE as int),
{
    if k == 0 {
        0x1_0000_0000
    } else if k == 1 {
        4550359342
    } else if k == 2 {
        4820937788
    } else if k == 3 {
        5107605667
    } else if k == 4 {
        5411319705
    } else if k == 5 {
        5733093519
    } else if k == 6 {
        6074001000
    } else if k == 7 {
        6435179895
    } else if k == 8 {
        6817835604
    } else if k == 9 {
        7223245206
    } else if k == 10 {
        7652761717
    } else {
        8107818609
    }
}

/// For any semitone offset within range, the playback ratio is positive
/// and at most five octaves up.
pub proof fn lemma_pitch_ratio_bounds(p: int)
    requires
        -PITCH_LIMIT <= p <= PITCH_LIMIT,
    ensures
        0 < pitch_ratio_spec(p) <= 64 * (FX_ONE as int),
{
    let oct = p / 12;
    let k = p % 12;
    assert(-5 <= oct <= 5) by {
        vstd::arithmetic::div_mod::lemma_div_is_ordered(-60, p, 12);
        vstd::arithmetic::div_mod::lemma_div_is_ordered(p, 60, 12);
    }
    assert(0 <= k < 12) by {
        vstd::arithmetic::div_mod::lemma_mod_division_less_than_divisor(p, 12);
    }
    let s = semi_ratio_spec(k);
    assert(FX_ONE <= s < 2 * (FX_ONE as int));
    if oct < 0 {
        assert(0 < s / 32 && 0 < s / 16 && 0 < s / 8 && 0 < s / 4 && 0 < s / 2) by {
            vstd::arithmetic::div_mod::lemma_div_is_ordered(FX_ONE as int, s, 32);
            vstd::arithmetic::div_mod::lemma_div_is_ordered(FX_ONE as int, s, 16);
            vstd::arithmetic::div_mod::lemma_div_is_ordered(FX_ONE as int, s, 8);
            vstd::arithmetic::div_mod::lemma_div_is_ordered(FX_ONE as int, s, 4);
            vstd::arithmetic::div_mod::lemma_div_is_ordered(FX_ONE as int, s, 2);
        }
        assert(s / 32 <= s && s / 16 <= s && s / 8 <= s && s / 4 <= s && s / 2 <= s) by {
            vstd::arithmetic::div_mod::lemma_div_nonincreasing(s, 32);
            vstd::arithmetic::div_mod::lemma_div_nonincreasing(s, 16);
            vstd::arithmetic::div_mod::lemma_div_nonincreasing(s, 8);
            vstd::arithmetic::div_mod::lemma_div_nonincreasing(s, 4);
            vstd::arithmetic::div_mod::lemma_div_nonincreasing(s, 2);
        }
    }
}

/// Pitch-zero stationarity: a grain updated with a pitch of zero keeps its
/// position exactly, for its whole lifetime.
pub proof fn lemma_pitch_zero_stationary(g: GrainModel, playhead_gain: int, k: nat)
    requires
        g.wf(),
        g.active,
    ensures
        grain_after(g, 0, playhead_gain, k).pos == g.pos,
    decreases k,
{
    if k > 0 {
        lemma_pitch_zero_stationary(g, playhead_gain, (k - 1) as nat);
        lemma_grain_after_bounds(g, 0, playhead_gain, (k - 1) as nat);
        let prev = grain_after(g, 0, playhead_gain, (k - 1) as nat);
        assert(pitch_ratio_spec(0) == FX_ONE as int);
        assert(drift_spec(FX_ONE as int, prev.buf_len) == 0) by {
            vstd::arithmetic::div_mod::lemma_div_of0(prev.buf_len);
        }
        assert(wrap_unit_spec(prev.pos + 0) == prev.pos);
    }
}

/// The iterated step keeps positions in range and the grain's geometry
/// fixed.
pub proof fn lemma_grain_after_bounds(g: GrainModel, pitch: int, playhead_gain: int, k: nat)
    requires
        g.wf(),
        g.active,
        -PITCH_LIMIT <= pitch <= PITCH_LIMIT,
    ensures
        0 <= grain_after(g, pitch, playhead_gain, k).pos <= FX_ONE,
        grain_after(g, pitch, playhead_gain, k).buf_len == g.buf_len,
        grain_after(g, pitch, playhead_gain, k).length == g.length,
    decreases k,
{
    if k > 0 {
        lemma_grain_after_bounds(g, pitch, playhead_gain, (k - 1) as nat);
        let prev = grain_after(g, pitch, playhead_gain, (k - 1) as nat);
        lemma_pitch_ratio_bounds(pitch);
        let ratio = pitch_ratio_spec(pitch);
        if ratio <= FX_ONE {
            assert(0 <= drift_spec(ratio, prev.buf_len) <= FX_ONE) by {
                vstd::arithmetic::div_mod::lemma_div_pos_is_pos(FX_ONE - ratio, prev.buf_len);
                vstd::arithmetic::div_mod::lemma_div_nonincreasing(FX_ONE - ratio, prev.buf_len);
            }
        } else {
            assert(0 <= (ratio - FX_ONE) / prev.buf_len <= FX_ONE) by {
                vstd::arithmetic::div_mod::lemma_div_pos_is_pos(ratio - FX_ONE, prev.buf_len);
                vstd::arithmetic::div_mod::lemma_div_is_ordered_by_denominator(
                    ratio - FX_ONE,
                    64,
                    prev.buf_len,
                );
                vstd::arithmetic::div_mod::lemma_div_is_ordered(
                    ratio - FX_ONE,
                    64 * (FX_ONE as int),
                    64,
                );
                vstd::arithmetic::div_mod::lemma_div_multiples_vanish(FX_ONE as int, 64);
            }
        }
    }
}

/// Grain lifecycle: a grain activated with length `L` is active with age
/// `k` after `k` updates for `k` up to `L`, and the update `L + 1` retires
/// it and returns its slot (age zero, inactive) to the pool.
pub proof fn lemma_grain_lifecycle(g: GrainModel, pitch: int, playhead_gain: int, k: nat)
    requires
        g.wf(),
        g.active,
        g.counter == 0,
        1 <= k <= g.length + 1,
    ensures
        grain_after(g, pitch, playhead_gain, k).active <==> k <= g.length,
        k <= g.length ==> grain_after(g, pitch, playhead_gain, k).counter == k,
        k > g.length ==> grain_after(g, pitch, playhead_gain, k).counter == 0,
    decreases k,
{
    if k == 1 {
        assert(grain_after(g, pitch, playhead_gain, 0) == g);
        assert(grain_after(g, pitch, playhead_gain, 1) == grain_step_spec(g, pitch, playhead_gain));
    } else {
        lemma_grain_lifecycle(g, pitch, playhead_gain, (k - 1) as nat);
        let prev = grain_after(g, pitch, playhead_gain, (k - 1) as nat);
        assert(prev.length == g.length && prev.buf_len == g.buf_len) by {
            lemma_grain_after_geometry(g, pitch, playhead_gain, (k - 1) as nat);
        }
        assert(grain_after(g, pitch, playhead_gain, k) == grain_step_spec(
            prev,
            pitch,
            playhead_gain,
        ));
    }
}

/// The iterated step never touches a grain's length or buffer length.
pub proof fn lemma_grain_after_geometry(g: GrainModel, pitch: int, playhead_gain: int, k: nat)
    ensures
        grain_after(g, pitch, playhead_gain, k).buf_len == g.buf_len,
        grain_after(g, pitch, playhead_gain, k).length == g.length,
    decreases k,
{
    if k > 0 {
        lemma_grain_after_geometry(g, pitch, playhead_gain, (k - 1) as nat);
    }
}

} // verus!
