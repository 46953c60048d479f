//! One logical tap into the ring buffer: a pool of grain voices, a spawn
//! trigger, and a smoothed read distance.
//!
//! Every sample the playhead glides its current distance toward the target,
//! polls the trigger, on a fire activates the first free grain slot with a
//! density-compensated gain (saturated pools drop the event on purpose),
//! and advances every active grain.

use vstd::prelude::*;

use crate::fx::fx_abs;
use crate::fx::fx_mul;
use crate::fx::fx_mul_spec;
use crate::fx::lemma_fx_mul_contracts;
use crate::fx::lemma_fx_mul_le;
use crate::fx::lemma_fx_mul_swap;
use crate::fx::lemma_pow07_mono;
use crate::fx::lemma_sqrt_fx_bounds;
use crate::fx::lemma_fx_mul_zero;
use crate::fx::floor_sqrt;
use crate::fx::lemma_floor_sqrt_unique;
use crate::fx::pow07;
use crate::fx::pow07_spec;
use crate::fx::sqrt_fx_spec;
use crate::fx::FX_ONE;
use crate::grain::grain_activate_spec;
use crate::grain::grain_step_spec;
use crate::grain::Grain;
use crate::grain::GrainModel;
use crate::grain::BUF_LEN_LIMIT;
use crate::grain::BUF_LEN_MIN;
use crate::grain::GRAIN_LEN_LIMIT;
use crate::grain::PITCH_LIMIT;
use crate::noise::lcg_bipolar;
use crate::noise::lcg_next;
use crate::noise::Noise;
use crate::trigger::trig_fires;
use crate::trigger::trig_step;
use crate::trigger::Trig;
use crate::trigger::TrigModel;
use crate::trigger::DENSITY_LIMIT;
use crate::trigger::SAMPLE_RATE_LIMIT;

verus! {

/// Grain slots each playhead owns.
pub const GRAIN_NUM: usize = 128;

/// Most grain slots a playhead may own.
pub const GRAIN_POOL_LIMIT: usize = 4096;

/// Floor of the density-compensation gain (0.3 in Q32).
pub const INIT_GAIN_FLOOR: i64 = 1288490189;

/// Coefficient of the exponential distance glide (0.001 in Q32).
pub const SMOOTH_COEFF: i64 = 4294967;

/// Where the feedback tap is drawn from.  The grain-mix variant is kept as
/// a tagged choice but is not validated; the raw buffer tap is the working
/// mode.
#[derive(Clone, Copy, PartialEq, Eq, Structural, Debug)]
pub enum FeedbackSrc {
    Playhead,
    Grain,
}

/// Mathematical state of a playhead.
#[verifier::ext_equal]
pub struct PlayHeadModel {
    pub sample_rate: int,
    pub buf_len: int,
    pub distance: int,
    pub current_distance: int,
    pub window_size: int,
    pub grain_size: int,
    pub trig: TrigModel,
    pub grains: Seq<GrainModel>,
    pub feedback_src: FeedbackSrc,
    pub pitch: int,
    pub gain: int,
    pub noise: u64,
}

impl PlayHeadModel {
    pub open spec fn wf(&self) -> bool {
        &&& 1 <= self.sample_rate <= SAMPLE_RATE_LIMIT
        &&& BUF_LEN_MIN <= self.buf_len <= BUF_LEN_LIMIT
        &&& 0 <= self.distance <= FX_ONE
        &&& 0 <= self.current_distance <= FX_ONE
        &&& 0 <= self.window_size <= FX_ONE
        &&& 0 <= self.grain_size <= FX_ONE
        &&& self.trig.wf()
        &&& 1 <= self.grains.len() <= GRAIN_POOL_LIMIT
        &&& forall|i: int| 0 <= i < self.grains.len() ==> (#[trigger] self.grains[i]).wf()
        &&& -PITCH_LIMIT <= self.pitch <= PITCH_LIMIT
        &&& 0 <= self.gain <= FX_ONE
    }
}

/// How many grains of the pool are live.
pub open spec fn active_count_spec(s: Seq<GrainModel>) -> int
    decreases s.len(),
{
    if s.len() == 0 {
        0
    } else {
        active_count_spec(s.drop_last()) + if s.last().active {
            1int
        } else {
            0int
        }
    }
}

/// The first free slot at or after `k`, or the pool size if none is free.
pub open spec fn first_free_spec(s: Seq<GrainModel>, k: int) -> int
    decreases s.len() - k,
{
    if k < 0 || k >= s.len() {
        s.len() as int
    } else if !s[k].active {
        k
    } else {
        first_free_spec(s, k + 1)
    }
}

/// Density compensation: `max(0.3, (1 - active/total)^0.7)` in Q32.
pub open spec fn init_gain_spec(active: int, total: int) -> int {
    let ratio = active * (FX_ONE as int) / total;
    let scaled = pow07_spec(FX_ONE - ratio);
    if scaled < INIT_GAIN_FLOOR {
        INIT_GAIN_FLOOR as int
    } else {
        scaled
    }
}

/// One step of the exponential glide of the current distance toward the
/// target.
pub open spec fn smooth_spec(current: int, target: int) -> int {
    if current == target {
        current
    } else {
        current + fx_mul_spec(SMOOTH_COEFF as int, target - current)
    }
}

/// Raw grain-data triples as mathematical integers.
pub open spec fn data_triples(s: Seq<(i64, i64, i64)>) -> Seq<(int, int, int)> {
    s.map(|i: int, t: (i64, i64, i64)| (t.0 as int, t.1 as int, t.2 as int))
}

/// `(pos, gain, stereo_pos)` of every live grain, in slot order.
pub open spec fn grain_data_spec(s: Seq<GrainModel>) -> Seq<(int, int, int)>
    decreases s.len(),
{
    if s.len() == 0 {
        Seq::empty()
    } else {
        let rest = grain_data_spec(s.drop_last());
        if s.last().active {
            rest.push((s.last().pos, s.last().gain, s.last().stereo_pos))
        } else {
            rest
        }
    }
}

/// The pool and noise source after one activation attempt: the first free
/// slot comes to life with the current compensation gain and two fresh
/// draws; a saturated pool drops the event.
#[verifier::opaque]
pub open spec fn playhead_spawn_spec(p: PlayHeadModel) -> PlayHeadModel {
    let j = first_free_spec(p.grains, 0);
    if j == p.grains.len() {
        p
    } else {
        let init_gain = init_gain_spec(active_count_spec(p.grains), p.grains.len() as int);
        let pos_rnd = lcg_bipolar(p.noise);
        let n1 = lcg_next(p.noise);
        let stereo_rnd = lcg_bipolar(n1);
        let length = (p.grain_size * p.sample_rate) / (FX_ONE as int);
        PlayHeadModel {
            grains: p.grains.update(
                j,
                grain_activate_spec(
                    p.grains[j],
                    pos_rnd,
                    stereo_rnd,
                    length,
                    init_gain,
                    p.window_size,
                    p.distance,
                    p.buf_len,
                ),
            ),
            noise: lcg_next(n1),
            ..p
        }
    }
}

/// Every live grain advanced one sample; dormant slots untouched.
#[verifier::opaque]
pub open spec fn stepped_grains(s: Seq<GrainModel>, pitch: int, gain: int) -> Seq<GrainModel> {
    s.map(
        |i: int, g: GrainModel|
            if g.active {
                grain_step_spec(g, pitch, gain)
            } else {
                g
            },
    )
}

/// One render sample of the playhead: glide, poll the trigger, maybe
/// spawn, then advance every live grain.
#[verifier::opaque]
pub open spec fn playhead_step_spec(p: PlayHeadModel) -> PlayHeadModel {
    let smoothed = PlayHeadModel {
        current_distance: smooth_spec(p.current_distance, p.distance),
        trig: trig_step(p.trig),
        ..p
    };
    let spawned = if trig_fires(p.trig) {
        playhead_spawn_spec(smoothed)
    } else {
        smoothed
    };
    PlayHeadModel { grains: stepped_grains(spawned.grains, p.pitch, p.gain), ..spawned }
}

pub struct PlayHead {
    sample_rate: u32,
    buf_len: u32,
    distance: i64,
    current_distance: i64,
    window_size: i64,
    grain_size: i64,
    trig: Trig,
    grains: Vec<Grain>,
    feedback_src: FeedbackSrc,
    pitch: i32,
    gain: i64,
    noise: Noise,
}

/// The pool of grain slots as a sequence of grain models.
pub open spec fn pool_view(s: Seq<Grain>) -> Seq<GrainModel> {
    s.map(|i: int, g: Grain| g@)
}

impl View for PlayHead {
    type V = PlayHeadModel;

    closed spec fn view(&self) -> PlayHeadModel {
        PlayHeadModel {
            sample_rate: self.sample_rate as int,
            buf_len: self.buf_len as int,
            distance: self.distance as int,
            current_distance: self.current_distance as int,
            window_size: self.window_size as int,
            grain_size: self.grain_size as int,
            trig: self.trig@,
            grains: pool_view(self.grains@),
            feedback_src: self.feedback_src,
            pitch: self.pitch as int,
            gain: self.gain as int,
            noise: self.noise@,
        }
    }
}

impl PlayHead {
    /// A fresh playhead: `grain_num` dormant slots, safe default geometry
    /// (so rendering before `init` is well-defined), both random streams
    /// seeded.
    pub fn new(distance: i64, grain_num: usize, noise_seed: u64, trig_seed: u64) -> (r: PlayHead)
        requires
            0 <= distance <= FX_ONE,
            1 <= grain_num <= GRAIN_POOL_LIMIT,
        ensures
            r@.wf(),
            r@.sample_rate == 48000,
            r@.buf_len == 1024,
            r@.distance == distance,
            r@.current_distance == distance,
            r@.window_size == 0,
            r@.grain_size == 0,
            r@.trig == (TrigModel {
                inc: 0,
                phase: 0,
                sample_rate: 0,
                chaos: FX_ONE as int,
                rnd: FX_ONE as int,
                noise: trig_seed,
            }),
            r@.grains.len() == grain_num,
            forall|i: int|
                0 <= i < grain_num ==> !(#[trigger] r@.grains[i]).active && r@.grains[i].counter
                    == 0 && r@.grains[i].gain == 0,
            r@.feedback_src == FeedbackSrc::Playhead,
            r@.pitch == 0,
            r@.gain == 0,
            r@.noise == noise_seed,
    {
        let mut grains: Vec<Grain> = Vec::new();
        let mut k: usize = 0;
        while k < grain_num
            invariant
                k == grains@.len(),
                k <= grain_num,
                forall|i: int|
                    0 <= i < k ==> !(#[trigger] grains@[i])@.active && grains@[i]@.counter == 0
                        && grains@[i]@.gain == 0 && grains@[i]@.wf(),
            decreases grain_num - k,
        {
            grains.push(Grain::new());
            k = k + 1;
        }
        proof {
            assert(forall|i: int|
                0 <= i < grain_num ==> #[trigger] pool_view(grains@)[i] == grains@[i]@);
        }
        PlayHead {
            sample_rate: 48000,
            buf_len: 1024,
            distance,
            current_distance: distance,
            window_size: 0,
            grain_size: 0,
            trig: Trig::new(trig_seed),
            grains,
            feedback_src: FeedbackSrc::Playhead,
            pitch: 0,
            gain: 0,
            noise: Noise::from_seed(noise_seed),
        }
    }

    pub fn set_feedback_src(&mut self, feedback_src: FeedbackSrc)
        ensures
            final(self)@ == (PlayHeadModel { feedback_src, ..old(self)@ }),
    {
        self.feedback_src = feedback_src;
    }

    pub fn set_pitch(&mut self, pitch: i32)
        requires
            -PITCH_LIMIT <= pitch <= PITCH_LIMIT,
        ensures
            final(self)@ == (PlayHeadModel { pitch: pitch as int, ..old(self)@ }),
    {
        self.pitch = pitch;
    }

    pub fn set_gain(&mut self, gain: i64)
        requires
            0 <= gain <= FX_ONE,
        ensures
            final(self)@ == (PlayHeadModel { gain: gain as int, ..old(self)@ }),
    {
        self.gain = gain;
    }

    pub fn set_window_size(&mut self, window_size: i64)
        requires
            0 <= window_size <= FX_ONE,
        ensures
            final(self)@ == (PlayHeadModel { window_size: window_size as int, ..old(self)@ }),
    {
        self.window_size = window_size;
    }

    pub fn set_grain_size(&mut self, grain_size: i64)
        requires
            0 <= grain_size <= FX_ONE,
        ensures
            final(self)@ == (PlayHeadModel { grain_size: grain_size as int, ..old(self)@ }),
    {
        self.grain_size = grain_size;
    }

    pub fn set_distance(&mut self, distance: i64)
        requires
            0 <= distance <= FX_ONE,
        ensures
            final(self)@ == (PlayHeadModel { distance: distance as int, ..old(self)@ }),
    {
        self.distance = distance;
    }

    /// Adopt the sample rate and ring length the delay was initialized
    /// with.
    pub fn init(&mut self, sample_rate: u32, buffer_len: u32)
        requires
            1 <= sample_rate <= SAMPLE_RATE_LIMIT,
            BUF_LEN_MIN <= buffer_len <= BUF_LEN_LIMIT,
        ensures
            final(self)@ == (PlayHeadModel {
                sample_rate: sample_rate as int,
                buf_len: buffer_len as int,
                trig: (TrigModel { sample_rate: sample_rate as int, ..old(self)@.trig }),
                ..old(self)@
            }),
    {
        self.sample_rate = sample_rate;
        self.buf_len = buffer_len;
        self.trig.set_sample_rate(sample_rate);
    }

    /// Glide the used distance one step toward the target.
    pub fn set_current_distance(&mut self)
        requires
            old(self)@.wf(),
        ensures
            final(self)@ == (PlayHeadModel {
                current_distance: smooth_spec(old(self)@.current_distance, old(self)@.distance),
                ..old(self)@
            }),
            final(self)@.wf(),
    {
        if self.current_distance != self.distance {
            let d = self.distance - self.current_distance;
            proof {
                lemma_fx_mul_le(
                    SMOOTH_COEFF as int,
                    d as int,
                    SMOOTH_COEFF as int,
                    0x1_0000_0000,
                    SMOOTH_COEFF as int,
                );
                lemma_fx_mul_swap(SMOOTH_COEFF as int, d as int);
                lemma_fx_mul_contracts(d as int, SMOOTH_COEFF as int);
                if d >= 0 {
                    crate::fx::lemma_fx_mul_nonneg(SMOOTH_COEFF as int, d as int);
                } else {
                    vstd::arithmetic::mul::lemma_mul_nonnegative(
                        fx_abs(SMOOTH_COEFF as int),
                        fx_abs(d as int),
                    );
                    vstd::arithmetic::div_mod::lemma_div_pos_is_pos(
                        fx_abs(SMOOTH_COEFF as int) * fx_abs(d as int),
                        FX_ONE as int,
                    );
                }
            }
            let m = fx_mul(SMOOTH_COEFF, d);
            self.current_distance = self.current_distance + m;
        }
    }

    pub fn set_density(&mut self, density: i64)
        requires
            0 <= density <= DENSITY_LIMIT,
        ensures
            final(self)@ == (PlayHeadModel {
                trig: (TrigModel { inc: density as int, ..old(self)@.trig }),
                ..old(self)@
            }),
    {
        self.trig.set_inc(density);
    }

    pub fn set_chaos(&mut self, chaos: i64)
        requires
            0 <= chaos <= FX_ONE,
        ensures
            final(self)@ == (PlayHeadModel {
                trig: (TrigModel { chaos: chaos as int, ..old(self)@.trig }),
                ..old(self)@
            }),
    {
        self.trig.set_chaos(chaos);
    }

    pub fn current_distance(&self) -> (r: i64)
        ensures
            r == self@.current_distance,
    {
        self.current_distance
    }

    pub fn feedback_src(&self) -> (r: FeedbackSrc)
        ensures
            r == self@.feedback_src,
    {
        self.feedback_src
    }

    /// Refill `out` with `(pos, gain, stereo_pos)` of every live grain, in
    /// slot order; the vector is cleared first, so a caller reusing one
    /// allocation stays off the allocator once its capacity has grown.
    pub fn collect_grain_data(&self, out: &mut Vec<(i64, i64, i64)>)
        ensures
            data_triples(final(out)@) == grain_data_spec(self@.grains),
    {
        out.clear();
        let n = self.grains.len();
        let mut i: usize = 0;
        while i < n
            invariant
                i <= n,
                n == self.grains@.len(),
                data_triples(out@) == grain_data_spec(pool_view(self.grains@).take(i as int)),
            decreases n - i,
        {
            let g = self.grains[i];
            proof {
                let pool = pool_view(self.grains@);
                assert(pool.take(i as int + 1).drop_last() =~= pool.take(i as int));
                assert(pool.take(i as int + 1).last() == pool[i as int]);
            }
            if g.is_active() {
                let d = g.data();
                out.push(d);
                proof {
                    assert(data_triples(out@) =~= grain_data_spec(
                        pool_view(self.grains@).take(i as int + 1),
                    ));
                }
            } else {
                proof {
                    assert(data_triples(out@) =~= grain_data_spec(
                        pool_view(self.grains@).take(i as int + 1),
                    ));
                }
            }
            i = i + 1;
        }
        proof {
            assert(pool_view(self.grains@).take(n as int) =~= pool_view(self.grains@));
        }
    }

    /// `(pos, gain, stereo_pos)` of every live grain, in slot order, as a
    /// fresh vector.
    pub fn get_grain_data(&self) -> (r: Vec<(i64, i64, i64)>)
        ensures
            data_triples(r@) == grain_data_spec(self@.grains),
    {
        let mut data: Vec<(i64, i64, i64)> = Vec::new();
        self.collect_grain_data(&mut data);
        data
    }

    /// The compensation gain a grain spawned now would get.
    pub fn get_init_gain(&self) -> (r: i64)
        requires
            self@.wf(),
        ensures
            r == init_gain_spec(active_count_spec(self@.grains), self@.grains.len() as int),
            INIT_GAIN_FLOOR <= r <= FX_ONE,
    {
        let n = self.grains.len();
        let mut count: usize = 0;
        let mut i: usize = 0;
        while i < n
            invariant
                i <= n,
                n == self.grains@.len(),
                count <= i,
                count == active_count_spec(pool_view(self.grains@).take(i as int)),
            decreases n - i,
        {
            let g = self.grains[i];
            proof {
                let pool = pool_view(self.grains@);
                assert(pool.take(i as int + 1).drop_last() =~= pool.take(i as int));
                assert(pool.take(i as int + 1).last() == pool[i as int]);
            }
            if g.is_active() {
                count = count + 1;
            }
            i = i + 1;
        }
        proof {
            assert(pool_view(self.grains@).take(n as int) =~= pool_view(self.grains@));
            vstd::arithmetic::mul::lemma_mul_inequality(count as int, n as int, FX_ONE as int);
            vstd::arithmetic::mul::lemma_mul_nonnegative(count as int, FX_ONE as int);
            vstd::arithmetic::div_mod::lemma_div_pos_is_pos(
                (count as int) * (FX_ONE as int),
                n as int,
            );
            vstd::arithmetic::div_mod::lemma_multiply_divide_le(
                (count as int) * (FX_ONE as int),
                n as int,
                FX_ONE as int,
            );
            vstd::arithmetic::mul::lemma_mul_is_commutative(n as int, FX_ONE as int);
        }
        let ratio = (((count as u64) * (FX_ONE as u64)) / (n as u64)) as i64;
        let scaled = pow07(FX_ONE - ratio);
        if scaled < INIT_GAIN_FLOOR {
            INIT_GAIN_FLOOR
        } else {
            scaled
        }
    }

    /// Try to bring the first free slot to life; a saturated pool drops
    /// the event, which is the intended backpressure policy.
    #[verifier::rlimit(100)]
    fn activate_grain(&mut self)
        requires
            old(self)@.wf(),
        ensures
            final(self)@ == playhead_spawn_spec(old(self)@),
            final(self)@.wf(),
    {
        let ghost p = self@;
        let init_gain = self.get_init_gain();
        proof {
            vstd::arithmetic::mul::lemma_mul_upper_bound(
                self@.grain_size,
                FX_ONE as int,
                self@.sample_rate,
                SAMPLE_RATE_LIMIT as int,
            );
            vstd::arithmetic::mul::lemma_mul_nonnegative(self@.grain_size, self@.sample_rate);
            vstd::arithmetic::mul::lemma_mul_inequality(
                self@.grain_size,
                FX_ONE as int,
                self@.sample_rate,
            );
            vstd::arithmetic::div_mod::lemma_multiply_divide_le(
                self@.grain_size * self@.sample_rate,
                FX_ONE as int,
                self@.sample_rate,
            );
            vstd::arithmetic::mul::lemma_mul_is_commutative(FX_ONE as int, self@.sample_rate);
            vstd::arithmetic::div_mod::lemma_div_pos_is_pos(
                self@.grain_size * self@.sample_rate,
                FX_ONE as int,
            );
        }
        let length = (((self.grain_size as u64) * (self.sample_rate as u64)) / (FX_ONE
            as u64)) as u32;
        let n = self.grains.len();
        let mut i: usize = 0;
        while i < n
            invariant
                i <= n,
                self@ == p,
                p == old(self)@,
                p.wf(),
                n == p.grains.len(),
                init_gain == init_gain_spec(active_count_spec(p.grains), p.grains.len() as int),
                INIT_GAIN_FLOOR <= init_gain <= FX_ONE,
                length == (p.grain_size * p.sample_rate) / (FX_ONE as int),
                length <= GRAIN_LEN_LIMIT,
                forall|j: int| 0 <= j < i ==> (#[trigger] p.grains[j]).active,
            decreases n - i,
        {
            let g = self.grains[i];
            proof {
                assert(p.grains[i as int] == g@);
                assert(p.grains[i as int].wf());
            }
            if !g.is_active() {
                let pos_rnd = self.noise.next_bipolar();
                let stereo_rnd = self.noise.next_bipolar();
                let mut g2 = g;
                g2.activate(
                    pos_rnd,
                    stereo_rnd,
                    length,
                    init_gain,
                    self.window_size,
                    self.distance,
                    self.buf_len,
                );
                self.grains.set(i, g2);
                proof {
                    assert(self@.grains =~= p.grains.update(i as int, g2@));
                    assert(!p.grains[i as int].active);
                    assert(g2@ == grain_activate_spec(
                        p.grains[i as int],
                        lcg_bipolar(p.noise),
                        lcg_bipolar(lcg_next(p.noise)),
                        (p.grain_size * p.sample_rate) / (FX_ONE as int),
                        init_gain_spec(active_count_spec(p.grains), p.grains.len() as int),
                        p.window_size,
                        p.distance,
                        p.buf_len,
                    ));
                    lemma_spawn_found(p, i as int, g2@);
                    assert(final(self)@ =~= playhead_spawn_spec(p));
                }
                return;
            }
            i = i + 1;
        }
        proof {
            lemma_spawn_saturated(p);
            assert(final(self)@ =~= playhead_spawn_spec(p));
        }
    }

    /// One render sample: glide, poll the trigger, maybe spawn, advance
    /// every live grain.
    #[verifier::rlimit(60)]
    pub fn update(&mut self)
        requires
            old(self)@.wf(),
        ensures
            final(self)@ == playhead_step_spec(old(self)@),
            final(self)@.wf(),
    {
        let ghost p = self@;
        self.set_current_distance();
        let fired = self.trig.update();
        if fired {
            self.activate_grain();
        }
        let ghost mid = self@;
        proof {
            assert(mid == if trig_fires(p.trig) {
                playhead_spawn_spec(
                    PlayHeadModel {
                        current_distance: smooth_spec(p.current_distance, p.distance),
                        trig: trig_step(p.trig),
                        ..p
                    },
                )
            } else {
                PlayHeadModel {
                    current_distance: smooth_spec(p.current_distance, p.distance),
                    trig: trig_step(p.trig),
                    ..p
                }
            });
        }
        proof {
            assert(mid.pitch == p.pitch && mid.gain == p.gain) by {
                reveal(playhead_spawn_spec);
            }
        }
        let n = self.grains.len();
        let mut i: usize = 0;
        while i < n
            invariant
                i <= n,
                n == mid.grains.len(),
                mid.wf(),
                mid.pitch == self@.pitch,
                mid.gain == self@.gain,
                self@ == (PlayHeadModel { grains: self@.grains, ..mid }),
                self@.grains.len() == n,
                forall|j: int|
                    0 <= j < i ==> self@.grains[j] == stepped_grains(
                        mid.grains,
                        mid.pitch,
                        mid.gain,
                    )[j],
                forall|j: int| 0 <= j < i ==> (#[trigger] self@.grains[j]).wf(),
                forall|j: int| i <= j < n ==> self@.grains[j] == mid.grains[j],
            decreases n - i,
        {
            let g = self.grains[i];
            proof {
                assert(self@.grains[i as int] == g@);
                assert(mid.grains[i as int].wf());
            }
            if g.is_active() {
                let mut g2 = g;
                g2.update(self.pitch, self.gain);
                let ghost before = self@.grains;
                self.grains.set(i, g2);
                proof {
                    assert(self@.grains =~= before.update(i as int, g2@));
                    assert(self@.grains[i as int] == grain_step_spec(
                        mid.grains[i as int],
                        mid.pitch,
                        mid.gain,
                    ));
                    assert(stepped_grains(mid.grains, mid.pitch, mid.gain)[i as int]
                        == grain_step_spec(mid.grains[i as int], mid.pitch, mid.gain)) by {
                        reveal(stepped_grains);
                    }
                    assert(self@ == (PlayHeadModel { grains: self@.grains, ..mid }));
                }
            } else {
                proof {
                    assert(stepped_grains(mid.grains, mid.pitch, mid.gain)[i as int]
                        == mid.grains[i as int]) by {
                        reveal(stepped_grains);
                    }
                }
            }
            i = i + 1;
        }
        proof {
            assert(self@.grains =~= stepped_grains(mid.grains, mid.pitch, mid.gain)) by {
                reveal(stepped_grains);
            }
            assert(final(self)@ =~= playhead_step_spec(p)) by {
                reveal(playhead_step_spec);
            }
        }
    }
}

/// A spawn that finds its first free slot at `i` replaces exactly that
/// slot and advances the noise stream by the two draws it consumed.
pub proof fn lemma_spawn_found(p: PlayHeadModel, i: int, g: GrainModel)
    requires
        0 <= i < p.grains.len(),
        forall|j: int| 0 <= j < i ==> (#[trigger] p.grains[j]).active,
        !p.grains[i].active,
        g == grain_activate_spec(
            p.grains[i],
            lcg_bipolar(p.noise),
            lcg_bipolar(lcg_next(p.noise)),
            (p.grain_size * p.sample_rate) / (FX_ONE as int),
            init_gain_spec(active_count_spec(p.grains), p.grains.len() as int),
            p.window_size,
            p.distance,
            p.buf_len,
        ),
    ensures
        playhead_spawn_spec(p) == (PlayHeadModel {
            grains: p.grains.update(i, g),
            noise: lcg_next(lcg_next(p.noise)),
            ..p
        }),
{
    reveal(playhead_spawn_spec);
    lemma_first_free_skip(p.grains, 0, i);
    assert(first_free_spec(p.grains, 0) == i);
}

/// A spawn against a saturated pool changes nothing: the event is
/// dropped.
pub proof fn lemma_spawn_saturated(p: PlayHeadModel)
    requires
        forall|j: int| 0 <= j < p.grains.len() ==> (#[trigger] p.grains[j]).active,
    ensures
        playhead_spawn_spec(p) == p,
{
    reveal(playhead_spawn_spec);
    lemma_first_free_skip(p.grains, 0, p.grains.len() as int);
    assert(first_free_spec(p.grains, 0) == p.grains.len());
}

/// Every triple a well-formed pool hands out is within range: positions
/// in the unit interval, gains and pans within one.
pub proof fn lemma_grain_data_bounds(s: Seq<GrainModel>)
    requires
        forall|i: int| 0 <= i < s.len() ==> (#[trigger] s[i]).wf(),
    ensures
        grain_data_spec(s).len() <= s.len(),
        forall|k: int|
            0 <= k < grain_data_spec(s).len() ==> {
                let t = #[trigger] grain_data_spec(s)[k];
                0 <= t.0 <= FX_ONE && fx_abs(t.1) <= FX_ONE && fx_abs(t.2) <= FX_ONE
            },
    decreases s.len(),
{
    if s.len() > 0 {
        assert(forall|i: int|
            0 <= i < s.drop_last().len() ==> (#[trigger] s.drop_last()[i]).wf());
        lemma_grain_data_bounds(s.drop_last());
        assert(s.last().wf());
    }
}

/// The first free slot, when one exists, is indeed free.
pub proof fn lemma_first_free_is_free(s: Seq<GrainModel>, k: int)
    requires
        0 <= k <= s.len(),
    ensures
        first_free_spec(s, k) == s.len() || (k <= first_free_spec(s, k) < s.len() && !s[first_free_spec(
            s,
            k,
        )].active),
    decreases s.len() - k,
{
    if k < s.len() && s[k].active {
        lemma_first_free_is_free(s, k + 1);
    }
}

/// Slot availability at the playhead level: a grain that has lived its
/// full length is retired by the very update that would overrun it; its
/// slot comes out of that update dormant with age zero, eligible for the
/// next trigger fire -- exactly then, and not before.
pub proof fn lemma_slot_frees_on_expiry(p: PlayHeadModel, j: int)
    requires
        p.wf(),
        0 <= j < p.grains.len(),
        p.grains[j].active,
        p.grains[j].counter == p.grains[j].length,
    ensures
        playhead_step_spec(p).grains.len() == p.grains.len(),
        !playhead_step_spec(p).grains[j].active,
        playhead_step_spec(p).grains[j].counter == 0,
{
    reveal(playhead_step_spec);
    reveal(playhead_spawn_spec);
    reveal(stepped_grains);
    let smoothed = PlayHeadModel {
        current_distance: smooth_spec(p.current_distance, p.distance),
        trig: trig_step(p.trig),
        ..p
    };
    let spawned = if trig_fires(p.trig) {
        playhead_spawn_spec(smoothed)
    } else {
        smoothed
    };
    // a spawn only ever fills a free slot, and slot j is live
    lemma_first_free_is_free(p.grains, 0);
    assert(spawned.grains.len() == p.grains.len());
    assert(spawned.grains[j] == p.grains[j]);
    assert(playhead_step_spec(p).grains[j] == grain_step_spec(p.grains[j], p.pitch, p.gain));
}

/// Skipping a live prefix does not change the first free slot.
pub proof fn lemma_first_free_skip(s: Seq<GrainModel>, k: int, i: int)
    requires
        0 <= k <= i <= s.len(),
        forall|j: int| k <= j < i ==> (#[trigger] s[j]).active,
    ensures
        first_free_spec(s, k) == first_free_spec(s, i),
    decreases i - k,
{
    if k < i {
        lemma_first_free_skip(s, k + 1, i);
    }
}

/// Density compensation: a playhead with an empty pool compensates at
/// exactly one, a saturated pool sits exactly on the floor, and the gain
/// never increases as more of the pool is live.
pub proof fn lemma_density_compensation(a1: int, a2: int, total: int)
    requires
        0 <= a1 <= a2 <= total,
        1 <= total,
    ensures
        init_gain_spec(0, total) == FX_ONE,
        init_gain_spec(total, total) == INIT_GAIN_FLOOR,
        init_gain_spec(a2, total) <= init_gain_spec(a1, total),
{
    lemma_pow07_one();
    lemma_pow07_zero();
    assert(0 * (FX_ONE as int) == 0) by (nonlinear_arith);
    vstd::arithmetic::div_mod::lemma_div_of0(total);
    assert(init_gain_spec(0, total) == FX_ONE);
    assert((total * (FX_ONE as int)) / total == FX_ONE as int) by {
        vstd::arithmetic::mul::lemma_mul_is_commutative(total, FX_ONE as int);
        vstd::arithmetic::div_mod::lemma_div_multiples_vanish(FX_ONE as int, total);
    }
    assert(init_gain_spec(total, total) == INIT_GAIN_FLOOR);
    let r1 = a1 * (FX_ONE as int) / total;
    let r2 = a2 * (FX_ONE as int) / total;
    assert(r1 <= r2) by {
        vstd::arithmetic::mul::lemma_mul_inequality(a1, a2, FX_ONE as int);
        vstd::arithmetic::div_mod::lemma_div_is_ordered(
            a1 * (FX_ONE as int),
            a2 * (FX_ONE as int),
            total,
        );
    }
    assert(0 <= r1 && r2 <= FX_ONE) by {
        vstd::arithmetic::mul::lemma_mul_nonnegative(a1, FX_ONE as int);
        vstd::arithmetic::div_mod::lemma_div_pos_is_pos(a1 * (FX_ONE as int), total);
        vstd::arithmetic::mul::lemma_mul_inequality(a2, total, FX_ONE as int);
        vstd::arithmetic::div_mod::lemma_multiply_divide_le(
            a2 * (FX_ONE as int),
            total,
            FX_ONE as int,
        );
        vstd::arithmetic::mul::lemma_mul_is_commutative(total, FX_ONE as int);
    }
    lemma_pow07_mono(FX_ONE - r2, FX_ONE - r1);
}

/// At one, every iterated square root is one, so `1^0.7 == 1`.
pub proof fn lemma_pow07_one()
    ensures
        pow07_spec(FX_ONE as int) == FX_ONE,
{
    reveal(pow07_spec);
    lemma_sqrt_fx_bounds(FX_ONE as int);
    assert(fx_mul_spec(FX_ONE as int, FX_ONE as int) == FX_ONE) by {
        vstd::arithmetic::div_mod::lemma_div_multiples_vanish(FX_ONE as int, FX_ONE as int);
    }
}

/// At zero, every iterated square root is zero, so `0^0.7 == 0` and the
/// compensation bottoms out on its floor.
pub proof fn lemma_pow07_zero()
    ensures
        pow07_spec(0) == 0,
{
    reveal(pow07_spec);
    assert(floor_sqrt(0) == 0) by {
        assert(0 * 0 <= 0 < (0 + 1) * (0 + 1)) by (nonlinear_arith);
        lemma_floor_sqrt_unique(0, 0);
    }
    assert(0 * (FX_ONE as int) == 0) by (nonlinear_arith);
    assert(sqrt_fx_spec(0) == 0);
    lemma_fx_mul_zero(0);
}

} // verus!
