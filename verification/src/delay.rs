//! The orchestrator: one `render` call per stereo sample drives two phases
//! in order.  Write: last sample's aggregated feedback, scaled by the
//! feedback level and a fixed one-half attenuation, runs through the
//! stereo low-pass and is mixed with the fresh input into the slot under
//! the write head, which then advances modulo the buffer length.  Read:
//! every playhead advances, its feedback tap and every live grain are read
//! back (cubic-interpolated, panned, weighted), and the dry and wet parts
//! are composited into the output.  The accumulated feedback sum becomes
//! the next sample's feedback input.

use triple_buffer::Input;
use vstd::prelude::*;

use crate::filter::filter_out_spec;
use crate::filter::filter_step_spec;
use crate::filter::FilterModel;
use crate::filter::StereoBiquadLowPass;
use crate::fx::fx_abs;
use crate::fx::fx_mul;
use crate::fx::fx_mul_spec;
use crate::fx::lemma_fx_mul_contracts;
use crate::fx::lemma_fx_mul_le;
use crate::fx::lemma_fx_mul_nonneg;
use crate::fx::lemma_fx_mul_zero;
use crate::fx::FX_HALF;
use crate::fx::FX_ONE;
use crate::grain::BUF_LEN_LIMIT;
use crate::noise::Noise;
use crate::playhead::grain_data_spec;
use crate::playhead::GRAIN_NUM;
use crate::playhead::playhead_step_spec;
use crate::playhead::FeedbackSrc;
use crate::playhead::PlayHead;
use crate::playhead::PlayHeadModel;
use crate::ring::cubic_read_spec;
use crate::ring::lemma_cubic_read_localized;
use crate::ring::lone_impulse;
use crate::ring::read_taps_slot;
use crate::ring::RingBuffer;
use crate::ring::RingModel;
use crate::ring::READ_LIMIT;
use crate::ring::SAMPLE_LIMIT;
use crate::playhead::data_triples;
use crate::snapshot::bars_view;
use crate::snapshot::graindata_triples;
use crate::snapshot::head_snapshot_spec;
use crate::snapshot::flip_data_spec;
use crate::snapshot::input_frame;
use crate::snapshot::publish_frame;
use crate::snapshot::DrawData;
use crate::snapshot::Graindata;
use crate::snapshot::BAR_NUM;
use crate::trigger::SAMPLE_RATE_LIMIT;

verus! {

/// Seconds of audio the ring buffer holds after `init`.
pub const BUFFER_SIZE_SEC: u32 = 5;

/// Number of playheads.
pub const PLAY_HEADS: usize = 2;

/// Most playheads a delay may own.
pub const HEADS_LIMIT: usize = 8;

/// Magnitude bound on the per-sample wet and feedback accumulators.
pub const MIX_LIMIT: i64 = 0x800_0000_0000_0000;

/// Magnitude bound on one rendered output sample.
pub const OUT_LIMIT: i64 = 0x1000_0000_0000_0000;

/// Saturation cap of the bar-energy accumulator.
pub const DRAW_SUM_CAP: i64 = 0x2000_0000_0000_0000;

/// Longest stretch of samples one energy bar may summarize.
pub const SPB_LIMIT: u32 = 1_000_000;

/// Samples between two published visualization frames: about one visual
/// frame at the common sample rates, so the per-sample path never touches
/// the channel.
pub const PUBLISH_INTERVAL: u32 = 735;

/// Mathematical state of the waveform-bar aggregation.
#[verifier::ext_equal]
pub struct DrawModel {
    pub sample_sum: int,
    pub sample_count: int,
    pub samples_per_bar: int,
    pub current_index: int,
    pub bars: Seq<int>,
    pub publish_count: int,
}

impl DrawModel {
    pub open spec fn wf(&self) -> bool {
        &&& 0 <= self.sample_sum <= DRAW_SUM_CAP
        &&& 0 <= self.sample_count <= SPB_LIMIT
        &&& 1 <= self.samples_per_bar <= SPB_LIMIT
        &&& 0 <= self.current_index < BAR_NUM
        &&& self.bars.len() == BAR_NUM
        &&& forall|i: int| 0 <= i < BAR_NUM ==> 0 <= #[trigger] self.bars[i] <= FX_ONE
        &&& 0 <= self.publish_count < PUBLISH_INTERVAL
    }
}

/// Whether this sample's aggregation step also hands a frame to the
/// visualization channel: exactly once every `PUBLISH_INTERVAL` samples.
pub open spec fn publish_due(d: DrawModel) -> bool {
    d.publish_count >= PUBLISH_INTERVAL - 1
}

/// The publish throttle after one sample: the counter wraps to zero on
/// the sample that publishes and advances by one otherwise.
pub open spec fn publish_step_spec(d: DrawModel) -> DrawModel {
    if publish_due(d) {
        DrawModel { publish_count: 0, ..d }
    } else {
        DrawModel { publish_count: d.publish_count + 1, ..d }
    }
}

/// One sample of bar aggregation: accumulate the sample's magnitude
/// (saturating far above any reachable level), and once enough samples
/// are in, emit their average as the next bar and restart.
pub open spec fn draw_step_spec(d: DrawModel, sample: int) -> DrawModel {
    let grown = d.sample_sum + fx_abs(sample);
    let sum2 = if grown > DRAW_SUM_CAP {
        DRAW_SUM_CAP as int
    } else {
        grown
    };
    let count2 = d.sample_count + 1;
    if count2 >= d.samples_per_bar {
        let bar_raw = sum2 / d.samples_per_bar;
        let bar = if bar_raw > FX_ONE {
            FX_ONE as int
        } else {
            bar_raw
        };
        let idx2 = if d.current_index + 1 >= d.bars.len() {
            0
        } else {
            d.current_index + 1
        };
        DrawModel {
            sample_sum: 0,
            sample_count: 0,
            current_index: idx2,
            bars: d.bars.update(d.current_index, bar),
            ..d
        }
    } else {
        DrawModel { sample_sum: sum2, sample_count: count2, ..d }
    }
}

/// Mathematical state of the delay.
#[verifier::ext_equal]
pub struct DelayModel {
    pub ring: RingModel,
    pub sample_rate: int,
    pub heads: Seq<PlayHeadModel>,
    pub feedback: int,
    pub filter: (FilterModel, FilterModel),
    pub feedback_sample: (int, int),
    pub dry: int,
    pub wet: int,
    pub draw: DrawModel,
}

impl DelayModel {
    pub open spec fn wf(&self) -> bool {
        &&& self.ring.wf()
        &&& 1 <= self.sample_rate <= SAMPLE_RATE_LIMIT
        &&& 1 <= self.heads.len() <= HEADS_LIMIT
        &&& forall|i: int| 0 <= i < self.heads.len() ==> (#[trigger] self.heads[i]).wf()
        &&& 0 <= self.feedback <= FX_ONE
        &&& self.filter.0.wf()
        &&& self.filter.1.wf()
        &&& fx_abs(self.feedback_sample.0) <= MIX_LIMIT
        &&& fx_abs(self.feedback_sample.1) <= MIX_LIMIT
        &&& 0 <= self.dry <= FX_ONE
        &&& 0 <= self.wet <= FX_ONE
        &&& self.draw.wf()
    }
}

/// The Q32 sample position a Q32 buffer fraction addresses: that far
/// behind the write head, wrapped once into the buffer.
pub open spec fn read_pos_spec(ring: RingModel, pos: int) -> int {
    let off = ring.data.len() * pos;
    let rp = ring.write_head * (FX_ONE as int) - off;
    if rp < 0 {
        rp + ring.data.len() * (FX_ONE as int)
    } else {
        rp
    }
}

/// The raw feedback tap of one playhead: the buffer slot at its current
/// distance behind the write head, in the working feedback mode; zero in
/// the unvalidated grain-sourced mode.
pub open spec fn head_feedback_spec(h: PlayHeadModel, ring: RingModel) -> (int, int) {
    if h.feedback_src == FeedbackSrc::Playhead {
        let idx = (read_pos_spec(ring, h.current_distance) / (FX_ONE as int)) % (
        ring.data.len() as int);
        ring.data[idx]
    } else {
        (0, 0)
    }
}

/// The mixed-down wet output and grain-mode feedback of one playhead's
/// grain data against the buffer: each grain read back by cubic
/// interpolation at its absolute position, panned and weighted.
pub open spec fn grain_mix_spec(data: Seq<(int, int, int)>, ring: RingModel, grain_fb: bool) -> (
    (int, int),
    (int, int),
)
    decreases data.len(),
{
    if data.len() == 0 {
        ((0, 0), (0, 0))
    } else {
        let rest = grain_mix_spec(data.drop_last(), ring, grain_fb);
        let t = data.last();
        let s = cubic_read_spec(ring.data, read_pos_spec(ring, t.0));
        let lg = fx_mul_spec(FX_HALF as int, FX_ONE - t.2);
        let rg = fx_mul_spec(FX_HALF as int, FX_ONE + t.2);
        let out = (
            rest.0.0 + fx_mul_spec(fx_mul_spec(s.0, t.1), lg),
            rest.0.1 + fx_mul_spec(fx_mul_spec(s.1, t.1), rg),
        );
        let fb = if grain_fb {
            (rest.1.0 + s.0, rest.1.1 + s.1)
        } else {
            rest.1
        };
        (out, fb)
    }
}

/// The read phase over a prefix of the playheads: each stepped one
/// sample, wet output and feedback accumulated left to right.
pub open spec fn heads_mix_spec(heads: Seq<PlayHeadModel>, ring: RingModel) -> (
    Seq<PlayHeadModel>,
    (int, int),
    (int, int),
)
    decreases heads.len(),
{
    if heads.len() == 0 {
        (Seq::empty(), (0, 0), (0, 0))
    } else {
        let rest = heads_mix_spec(heads.drop_last(), ring);
        let h2 = playhead_step_spec(heads.last());
        let hfb = head_feedback_spec(h2, ring);
        let gm = grain_mix_spec(
            grain_data_spec(h2.grains),
            ring,
            h2.feedback_src == FeedbackSrc::Grain,
        );
        (
            rest.0.push(h2),
            (rest.1.0 + gm.0.0, rest.1.1 + gm.0.1),
            (rest.2.0 + hfb.0 + gm.1.0, rest.2.1 + hfb.1 + gm.1.1),
        )
    }
}

/// The write phase: filtered, attenuated feedback mixed with the input
/// pair into the slot under the write head, head advanced, bar energy
/// aggregated.
pub open spec fn write_spec(d: DelayModel, l: int, r: int) -> DelayModel {
    let fb_l = fx_mul_spec(fx_mul_spec(d.feedback_sample.0, d.feedback), FX_HALF as int);
    let fb_r = fx_mul_spec(fx_mul_spec(d.feedback_sample.1, d.feedback), FX_HALF as int);
    let fl = filter_out_spec(d.filter.0, fb_l);
    let fr = filter_out_spec(d.filter.1, fb_r);
    let sl = l + fl;
    let sr = r + fr;
    DelayModel {
        ring: RingModel {
            data: d.ring.data.update(d.ring.write_head, (sl, sr)),
            write_head: (d.ring.write_head + 1) % (d.ring.data.len() as int),
        },
        filter: (filter_step_spec(d.filter.0, fb_l), filter_step_spec(d.filter.1, fb_r)),
        draw: publish_step_spec(draw_step_spec(d.draw, sl + sr)),
        ..d
    }
}

/// The read phase: playheads advanced and mixed, the dry input and the
/// wet grain sum composited, the feedback accumulator refilled.
pub open spec fn read_spec(d: DelayModel, l: int, r: int) -> (DelayModel, int, int) {
    let hm = heads_mix_spec(d.heads, d.ring);
    let out_l = fx_mul_spec(l, d.dry) + fx_mul_spec(hm.1.0, d.wet);
    let out_r = fx_mul_spec(r, d.dry) + fx_mul_spec(hm.1.1, d.wet);
    (DelayModel { heads: hm.0, feedback_sample: hm.2, ..d }, out_l, out_r)
}

/// One full rendered sample: the write phase, then the read phase on the
/// same input pair.
pub open spec fn render_spec(d: DelayModel, l: int, r: int) -> (DelayModel, int, int) {
    read_spec(write_spec(d, l, r), l, r)
}

pub struct Delay {
    buffer: RingBuffer,
    sample_rate: u32,
    play_heads: Vec<PlayHead>,
    feedback: i64,
    filter: StereoBiquadLowPass,
    feedback_sample: (i64, i64),
    dry: i64,
    wet: i64,
    draw_sum: i64,
    draw_count: u32,
    samples_per_bar: u32,
    draw_index: usize,
    bars: Vec<i64>,
    grain_scratch: Vec<(i64, i64, i64)>,
    publish_count: u32,
    draw_input: Input<DrawData>,
}

/// The playheads as a sequence of models.
pub open spec fn heads_view(s: Seq<PlayHead>) -> Seq<PlayHeadModel> {
    s.map(|i: int, h: PlayHead| h@)
}

impl View for Delay {
    type V = DelayModel;

    closed spec fn view(&self) -> DelayModel {
        DelayModel {
            ring: self.buffer@,
            sample_rate: self.sample_rate as int,
            heads: heads_view(self.play_heads@),
            feedback: self.feedback as int,
            filter: self.filter@,
            feedback_sample: (self.feedback_sample.0 as int, self.feedback_sample.1 as int),
            dry: self.dry as int,
            wet: self.wet as int,
            draw: DrawModel {
                sample_sum: self.draw_sum as int,
                sample_count: self.draw_count as int,
                samples_per_bar: self.samples_per_bar as int,
                current_index: self.draw_index as int,
                bars: bars_view(self.bars@),
                publish_count: self.publish_count as int,
            },
        }
    }
}

/// Largest wet or feedback contribution of one playhead's grain mix.
pub const HEAD_MIX_LIMIT: i64 = 0xC0000_0000_0000;

/// A buffer fraction in the unit interval addresses a sample position
/// inside the buffer.
pub proof fn lemma_read_pos_bounds(ring: RingModel, pos: int)
    requires
        ring.wf(),
        0 <= pos <= FX_ONE,
    ensures
        0 <= read_pos_spec(ring, pos) < ring.data.len() * (FX_ONE as int),
{
    let n = ring.data.len() as int;
    vstd::arithmetic::mul::lemma_mul_nonnegative(n, pos);
    assert(n * pos <= n * (FX_ONE as int)) by {
        vstd::arithmetic::mul::lemma_mul_is_commutative(n, pos);
        vstd::arithmetic::mul::lemma_mul_is_commutative(n, FX_ONE as int);
        vstd::arithmetic::mul::lemma_mul_inequality(pos, FX_ONE as int, n);
    }
    vstd::arithmetic::mul::lemma_mul_nonnegative(ring.write_head, FX_ONE as int);
    assert(ring.write_head * (FX_ONE as int) <= (n - 1) * (FX_ONE as int)) by {
        vstd::arithmetic::mul::lemma_mul_inequality(ring.write_head, n - 1, FX_ONE as int);
    }
    assert((n - 1) * (FX_ONE as int) == n * (FX_ONE as int) - FX_ONE) by {
        vstd::arithmetic::mul::lemma_mul_is_distributive_sub_other_way(FX_ONE as int, n, 1);
        vstd::arithmetic::mul::lemma_mul_basics(FX_ONE as int);
    }
}

/// The grain mix grows by at most one cubic-read bound per grain.
pub proof fn lemma_grain_mix_bounds(data: Seq<(int, int, int)>, ring: RingModel, grain_fb: bool)
    requires
        ring.wf(),
        forall|k: int|
            0 <= k < data.len() ==> {
                let t = #[trigger] data[k];
                0 <= t.0 <= FX_ONE && fx_abs(t.1) <= FX_ONE && fx_abs(t.2) <= FX_ONE
            },
    ensures
        fx_abs(grain_mix_spec(data, ring, grain_fb).0.0) <= data.len() * READ_LIMIT,
        fx_abs(grain_mix_spec(data, ring, grain_fb).0.1) <= data.len() * READ_LIMIT,
        fx_abs(grain_mix_spec(data, ring, grain_fb).1.0) <= data.len() * READ_LIMIT,
        fx_abs(grain_mix_spec(data, ring, grain_fb).1.1) <= data.len() * READ_LIMIT,
    decreases data.len(),
{
    if data.len() == 0 {
        assert(0 * READ_LIMIT == 0) by (nonlinear_arith);
    } else {
        let prefix = data.drop_last();
        lemma_grain_mix_bounds(prefix, ring, grain_fb);
        let t = data.last();
        lemma_read_pos_bounds(ring, t.0);
        let rp = read_pos_spec(ring, t.0);
        crate::ring::lemma_cubic_read_bounds(ring.data, rp);
        let s = cubic_read_spec(ring.data, rp);
        let lg = fx_mul_spec(FX_HALF as int, FX_ONE - t.2);
        let rg = fx_mul_spec(FX_HALF as int, FX_ONE + t.2);
        lemma_fx_mul_le(FX_HALF as int, FX_ONE - t.2, 0x8000_0000, 0x2_0000_0000, 0x1_0000_0000);
        lemma_fx_mul_le(FX_HALF as int, FX_ONE + t.2, 0x8000_0000, 0x2_0000_0000, 0x1_0000_0000);
        lemma_fx_mul_contracts(s.0, t.1);
        lemma_fx_mul_contracts(s.1, t.1);
        lemma_fx_mul_contracts(fx_mul_spec(s.0, t.1), lg);
        lemma_fx_mul_contracts(fx_mul_spec(s.1, t.1), rg);
        assert(data.len() * READ_LIMIT == prefix.len() * READ_LIMIT + READ_LIMIT) by {
            vstd::arithmetic::mul::lemma_mul_is_distributive_add_other_way(
                READ_LIMIT as int,
                prefix.len() as int,
                1,
            );
            vstd::arithmetic::mul::lemma_mul_basics(READ_LIMIT as int);
        }
    }
}

/// One playhead's whole contribution to the per-sample sums.
pub proof fn lemma_head_contribution_bounds(h: PlayHeadModel, ring: RingModel)
    requires
        h.wf(),
        ring.wf(),
    ensures
        fx_abs(
            grain_mix_spec(
                grain_data_spec(h.grains),
                ring,
                h.feedback_src == FeedbackSrc::Grain,
            ).0.0,
        ) <= HEAD_MIX_LIMIT,
        fx_abs(
            grain_mix_spec(
                grain_data_spec(h.grains),
                ring,
                h.feedback_src == FeedbackSrc::Grain,
            ).0.1,
        ) <= HEAD_MIX_LIMIT,
        fx_abs(
            grain_mix_spec(
                grain_data_spec(h.grains),
                ring,
                h.feedback_src == FeedbackSrc::Grain,
            ).1.0,
        ) <= HEAD_MIX_LIMIT,
        fx_abs(
            grain_mix_spec(
                grain_data_spec(h.grains),
                ring,
                h.feedback_src == FeedbackSrc::Grain,
            ).1.1,
        ) <= HEAD_MIX_LIMIT,
        fx_abs(head_feedback_spec(h, ring).0) <= SAMPLE_LIMIT,
        fx_abs(head_feedback_spec(h, ring).1) <= SAMPLE_LIMIT,
{
    let data = grain_data_spec(h.grains);
    crate::playhead::lemma_grain_data_bounds(h.grains);
    lemma_grain_mix_bounds(data, ring, h.feedback_src == FeedbackSrc::Grain);
    assert(data.len() * READ_LIMIT <= 4096 * READ_LIMIT) by {
        vstd::arithmetic::mul::lemma_mul_inequality(data.len() as int, 4096, READ_LIMIT as int);
    }
    if h.feedback_src == FeedbackSrc::Playhead {
        let idx = (read_pos_spec(ring, h.current_distance) / (FX_ONE as int)) % (
        ring.data.len() as int);
        assert(0 <= idx < ring.data.len());
        assert(fx_abs(ring.data[idx].0) <= SAMPLE_LIMIT);
    }
}

/// The stepped-heads sequence of the read phase is the pointwise step of
/// the input heads.
pub proof fn lemma_heads_mix_shape(heads: Seq<PlayHeadModel>, ring: RingModel)
    ensures
        heads_mix_spec(heads, ring).0.len() == heads.len(),
        forall|i: int|
            0 <= i < heads.len() ==> #[trigger] heads_mix_spec(heads, ring).0[i]
                == playhead_step_spec(heads[i]),
    decreases heads.len(),
{
    if heads.len() > 0 {
        lemma_heads_mix_shape(heads.drop_last(), ring);
    }
}

impl Delay {
    /// A delay with safe default geometry (a small non-zero buffer, so
    /// rendering before `init` is well-defined), two playheads parked at
    /// half distance, and the visualization producer it will publish to.
    pub fn new(draw_input: Input<DrawData>, seed: u64) -> (r: Delay)
        ensures
            r@.wf(),
            r@.ring.data.len() == 1024,
            r@.ring.write_head == 0,
            forall|i: int| 0 <= i < 1024 ==> #[trigger] r@.ring.data[i] == (0int, 0int),
            r@.heads.len() == PLAY_HEADS,
            forall|h: int|
                0 <= h < PLAY_HEADS ==> (#[trigger] r@.heads[h]).distance == FX_HALF
                    && r@.heads[h].grains.len() == GRAIN_NUM && r@.heads[h].trig.inc == 0
                    && (forall|g: int|
                    0 <= g < GRAIN_NUM ==> !(#[trigger] r@.heads[h].grains[g]).active),
            r@.feedback == 0,
            r@.feedback_sample == (0int, 0int),
            r@.dry == FX_ONE,
            r@.wet == FX_ONE,
            r@.draw.sample_sum == 0,
            r@.draw.sample_count == 0,
            r@.draw.current_index == 0,
            r@.draw.publish_count == 0,
            forall|i: int| 0 <= i < BAR_NUM ==> #[trigger] r@.draw.bars[i] == 0,
    {
        let mut seeder = Noise::from_seed(seed);
        let mut play_heads: Vec<PlayHead> = Vec::new();
        let mut h: usize = 0;
        while h < PLAY_HEADS
            invariant
                h == play_heads@.len(),
                h <= PLAY_HEADS,
                forall|i: int|
                    0 <= i < h ==> (#[trigger] play_heads@[i])@.wf() && play_heads@[i]@.distance
                        == FX_HALF && play_heads@[i]@.grains.len() == GRAIN_NUM
                        && play_heads@[i]@.trig.inc == 0 && (forall|g: int|
                        0 <= g < GRAIN_NUM ==> !(#[trigger] play_heads@[i]@.grains[g]).active),
            decreases PLAY_HEADS - h,
        {
            seeder.next_unit();
            let noise_seed = seeder.state;
            seeder.next_unit();
            let trig_seed = seeder.state;
            play_heads.push(PlayHead::new(FX_HALF, GRAIN_NUM, noise_seed, trig_seed));
            h = h + 1;
        }
        let mut bars: Vec<i64> = Vec::new();
        let mut k: usize = 0;
        while k < BAR_NUM
            invariant
                k == bars@.len(),
                k <= BAR_NUM,
                forall|i: int| 0 <= i < k ==> #[trigger] bars@[i] == 0i64,
            decreases BAR_NUM - k,
        {
            bars.push(0i64);
            k = k + 1;
        }
        let r = Delay {
            buffer: RingBuffer::new(1024),
            sample_rate: 48000,
            play_heads,
            feedback: 0,
            filter: StereoBiquadLowPass::new(
                crate::filter::DEFAULT_CUTOFF,
                48000,
                crate::filter::Q_DEFAULT,
            ),
            feedback_sample: (0, 0),
            dry: FX_ONE,
            wet: FX_ONE,
            draw_sum: 0,
            draw_count: 0,
            samples_per_bar: 102,
            draw_index: 0,
            bars,
            grain_scratch: Vec::new(),
            publish_count: 0,
            draw_input,
        };
        proof {
            assert(forall|i: int|
                0 <= i < PLAY_HEADS ==> #[trigger] heads_view(r.play_heads@)[i]
                    == r.play_heads@[i]@);
        }
        r
    }

    /// Resize the ring to `BUFFER_SIZE_SEC` seconds at the new sample
    /// rate, keeping whatever audio already fits, and propagate the rate
    /// to every sub-component.  Not real-time safe; never called
    /// concurrently with `render`.
    pub fn init(&mut self, sample_rate: u32)
        requires
            old(self)@.wf(),
            13 <= sample_rate <= SAMPLE_RATE_LIMIT,
        ensures
            final(self)@.wf(),
            final(self)@.sample_rate == sample_rate,
            final(self)@.ring.data.len() == BUFFER_SIZE_SEC * sample_rate,
            forall|i: int|
                0 <= i < final(self)@.ring.data.len() && i < old(self)@.ring.data.len()
                    ==> #[trigger] final(self)@.ring.data[i] == old(self)@.ring.data[i],
            forall|i: int|
                old(self)@.ring.data.len() <= i < final(self)@.ring.data.len()
                    ==> #[trigger] final(self)@.ring.data[i] == (0int, 0int),
            final(self)@.ring.write_head == old(self)@.ring.write_head % (
            (BUFFER_SIZE_SEC * sample_rate) as int),
            final(self)@.heads.len() == old(self)@.heads.len(),
            forall|h: int|
                0 <= h < old(self)@.heads.len() ==> #[trigger] final(self)@.heads[h]
                    == (PlayHeadModel {
                    sample_rate: sample_rate as int,
                    buf_len: (BUFFER_SIZE_SEC * sample_rate) as int,
                    trig: (crate::trigger::TrigModel {
                        sample_rate: sample_rate as int,
                        ..old(self)@.heads[h].trig
                    }),
                    ..old(self)@.heads[h]
                }),
            final(self)@.filter.0 == crate::filter::filter_tuned_spec(
                (FilterModel { sample_rate: sample_rate as int, ..old(self)@.filter.0 }),
                crate::filter::DEFAULT_CUTOFF as int,
            ),
            final(self)@.filter.1 == crate::filter::filter_tuned_spec(
                (FilterModel { sample_rate: sample_rate as int, ..old(self)@.filter.1 }),
                crate::filter::DEFAULT_CUTOFF as int,
            ),
            final(self)@.draw == (DrawModel {
                samples_per_bar: (BUFFER_SIZE_SEC * sample_rate) as int / (BAR_NUM as int),
                ..old(self)@.draw
            }),
            final(self)@.feedback == old(self)@.feedback,
            final(self)@.dry == old(self)@.dry,
            final(self)@.wet == old(self)@.wet,
            final(self)@.feedback_sample == old(self)@.feedback_sample,
    {
        let buffer_length: u32 = BUFFER_SIZE_SEC * sample_rate;
        self.buffer.resize(buffer_length as usize);
        self.filter.update_sample_rate(sample_rate);
        self.sample_rate = sample_rate;
        let ghost base = self@;
        let ghost heads0 = self@.heads;
        let n = self.play_heads.len();
        let mut h: usize = 0;
        while h < n
            invariant
                h <= n,
                n == self.play_heads@.len(),
                heads0.len() == n,
                13 <= sample_rate <= SAMPLE_RATE_LIMIT,
                buffer_length == BUFFER_SIZE_SEC * sample_rate,
                self@ == (DelayModel { heads: self@.heads, ..base }),
                forall|i: int| h <= i < n ==> heads_view(self.play_heads@)[i] == heads0[i],
                forall|i: int| 0 <= i < n ==> (#[trigger] heads0[i]).wf(),
                forall|i: int|
                    0 <= i < h ==> #[trigger] heads_view(self.play_heads@)[i] == (PlayHeadModel {
                        sample_rate: sample_rate as int,
                        buf_len: buffer_length as int,
                        trig: (crate::trigger::TrigModel {
                            sample_rate: sample_rate as int,
                            ..heads0[i].trig
                        }),
                        ..heads0[i]
                    }),
            decreases n - h,
        {
            let ghost pre = self.play_heads@;
            self.play_heads[h].init(sample_rate, buffer_length);
            proof {
                assert(self.play_heads@ =~= pre.update(h as int, self.play_heads@[h as int]));
                assert(heads_view(self.play_heads@) =~= heads_view(pre).update(
                    h as int,
                    self.play_heads@[h as int]@,
                ));
            }
            h = h + 1;
        }
        self.samples_per_bar = buffer_length / (BAR_NUM as u32);
        proof {
            assert(final(self)@.wf());
        }
    }

    /// Output level of one playhead.
    pub fn set_gain(&mut self, index: usize, value: i64)
        requires
            index < old(self)@.heads.len(),
            0 <= value <= FX_ONE,
        ensures
            final(self)@ == (DelayModel {
                heads: old(self)@.heads.update(
                    index as int,
                    (PlayHeadModel { gain: value as int, ..old(self)@.heads[index as int] }),
                ),
                ..old(self)@
            }),
    {
        self.play_heads[index].set_gain(value);
        proof {
            assert(final(self)@.heads =~= old(self)@.heads.update(
                index as int,
                (PlayHeadModel { gain: value as int, ..old(self)@.heads[index as int] }),
            ));
        }
    }

    /// Semitone offset of one playhead.
    pub fn set_pitch(&mut self, index: usize, value: i32)
        requires
            index < old(self)@.heads.len(),
            -crate::grain::PITCH_LIMIT <= value <= crate::grain::PITCH_LIMIT,
        ensures
            final(self)@ == (DelayModel {
                heads: old(self)@.heads.update(
                    index as int,
                    (PlayHeadModel { pitch: value as int, ..old(self)@.heads[index as int] }),
                ),
                ..old(self)@
            }),
    {
        self.play_heads[index].set_pitch(value);
        proof {
            assert(final(self)@.heads =~= old(self)@.heads.update(
                index as int,
                (PlayHeadModel { pitch: value as int, ..old(self)@.heads[index as int] }),
            ));
        }
    }

    /// Target read offset of one playhead, as a fraction of the buffer.
    pub fn set_distance(&mut self, index: usize, value: i64)
        requires
            index < old(self)@.heads.len(),
            0 <= value <= FX_ONE,
        ensures
            final(self)@ == (DelayModel {
                heads: old(self)@.heads.update(
                    index as int,
                    (PlayHeadModel { distance: value as int, ..old(self)@.heads[index as int] }),
                ),
                ..old(self)@
            }),
    {
        self.play_heads[index].set_distance(value);
        proof {
            assert(final(self)@.heads =~= old(self)@.heads.update(
                index as int,
                (PlayHeadModel { distance: value as int, ..old(self)@.heads[index as int] }),
            ));
        }
    }

    /// Grain spawn rate of one playhead, in Q32 Hz.
    pub fn set_density(&mut self, index: usize, value: i64)
        requires
            index < old(self)@.heads.len(),
            0 <= value <= crate::trigger::DENSITY_LIMIT,
        ensures
            final(self)@ == (DelayModel {
                heads: old(self)@.heads.update(
                    index as int,
                    (PlayHeadModel {
                        trig: (crate::trigger::TrigModel {
                            inc: value as int,
                            ..old(self)@.heads[index as int].trig
                        }),
                        ..old(self)@.heads[index as int]
                    }),
                ),
                ..old(self)@
            }),
    {
        self.play_heads[index].set_density(value);
        proof {
            assert(final(self)@.heads =~= old(self)@.heads.update(
                index as int,
                (PlayHeadModel {
                    trig: (crate::trigger::TrigModel {
                        inc: value as int,
                        ..old(self)@.heads[index as int].trig
                    }),
                    ..old(self)@.heads[index as int]
                }),
            ));
        }
    }

    /// Spawn-position spread of one playhead.
    pub fn set_window_size(&mut self, index: usize, value: i64)
        requires
            index < old(self)@.heads.len(),
            0 <= value <= FX_ONE,
        ensures
            final(self)@ == (DelayModel {
                heads: old(self)@.heads.update(
                    index as int,
                    (PlayHeadModel { window_size: value as int, ..old(self)@.heads[index as int] }),
                ),
                ..old(self)@
            }),
    {
        self.play_heads[index].set_window_size(value);
        proof {
            assert(final(self)@.heads =~= old(self)@.heads.update(
                index as int,
                (PlayHeadModel { window_size: value as int, ..old(self)@.heads[index as int] }),
            ));
        }
    }

    /// Grain duration of one playhead, as a fraction of one second.
    pub fn set_grain_size(&mut self, index: usize, value: i64)
        requires
            index < old(self)@.heads.len(),
            0 <= value <= FX_ONE,
        ensures
            final(self)@ == (DelayModel {
                heads: old(self)@.heads.update(
                    index as int,
                    (PlayHeadModel { grain_size: value as int, ..old(self)@.heads[index as int] }),
                ),
                ..old(self)@
            }),
    {
        self.play_heads[index].set_grain_size(value);
        proof {
            assert(final(self)@.heads =~= old(self)@.heads.update(
                index as int,
                (PlayHeadModel { grain_size: value as int, ..old(self)@.heads[index as int] }),
            ));
        }
    }

    /// Timing jitter of one playhead's trigger.
    pub fn set_chaos(&mut self, index: usize, value: i64)
        requires
            index < old(self)@.heads.len(),
            0 <= value <= FX_ONE,
        ensures
            final(self)@ == (DelayModel {
                heads: old(self)@.heads.update(
                    index as int,
                    (PlayHeadModel {
                        trig: (crate::trigger::TrigModel {
                            chaos: value as int,
                            ..old(self)@.heads[index as int].trig
                        }),
                        ..old(self)@.heads[index as int]
                    }),
                ),
                ..old(self)@
            }),
    {
        self.play_heads[index].set_chaos(value);
        proof {
            assert(final(self)@.heads =~= old(self)@.heads.update(
                index as int,
                (PlayHeadModel {
                    trig: (crate::trigger::TrigModel {
                        chaos: value as int,
                        ..old(self)@.heads[index as int].trig
                    }),
                    ..old(self)@.heads[index as int]
                }),
            ));
        }
    }

    /// Global feedback amount.
    pub fn set_feedback(&mut self, value: i64)
        requires
            0 <= value <= FX_ONE,
        ensures
            final(self)@ == (DelayModel { feedback: value as int, ..old(self)@ }),
    {
        self.feedback = value;
    }

    /// Filter cutoff from a unit control value, mapped onto 100..10100 Hz.
    pub fn set_cutoff(&mut self, value: i64)
        requires
            old(self)@.wf(),
            0 <= value <= FX_ONE,
        ensures
            final(self)@ == (DelayModel {
                filter: (
                    crate::filter::filter_tuned_spec(
                        old(self)@.filter.0,
                        fx_mul_spec(value as int, 10000) * (FX_ONE as int) + 100 * (
                        FX_ONE as int),
                    ),
                    crate::filter::filter_tuned_spec(
                        old(self)@.filter.1,
                        fx_mul_spec(value as int, 10000) * (FX_ONE as int) + 100 * (
                        FX_ONE as int),
                    ),
                ),
                ..old(self)@
            }),
            final(self)@.filter.0.wf(),
            final(self)@.filter.1.wf(),
    {
        proof {
            lemma_fx_mul_nonneg(value as int, 10000);
            lemma_fx_mul_le(value as int, 10000, 0x1_0000_0000, 10000, 10000);
            vstd::arithmetic::mul::lemma_mul_nonnegative(
                fx_mul_spec(value as int, 10000),
                FX_ONE as int,
            );
            vstd::arithmetic::mul::lemma_mul_inequality(
                fx_mul_spec(value as int, 10000),
                10000,
                FX_ONE as int,
            );
        }
        let scaled = fx_mul(value, 10000);
        let cutoff = scaled * FX_ONE + 100 * FX_ONE;
        self.filter.update_coefficients(cutoff);
    }

    /// Unprocessed share of the output.
    pub fn set_dry(&mut self, value: i64)
        requires
            0 <= value <= FX_ONE,
        ensures
            final(self)@ == (DelayModel { dry: value as int, ..old(self)@ }),
    {
        self.dry = value;
    }

    /// Processed share of the output.
    pub fn set_wet(&mut self, value: i64)
        requires
            0 <= value <= FX_ONE,
        ensures
            final(self)@ == (DelayModel { wet: value as int, ..old(self)@ }),
    {
        self.wet = value;
    }

    /// Fold one sample's magnitude into the bar aggregation.
    fn update_bars(&mut self, sample: i64)
        requires
            old(self)@.wf(),
            fx_abs(sample as int) <= 2 * SAMPLE_LIMIT,
        ensures
            final(self)@ == (DelayModel {
                draw: draw_step_spec(old(self)@.draw, sample as int),
                ..old(self)@
            }),
            final(self)@.wf(),
    {
        let mag = if sample < 0 {
            -sample
        } else {
            sample
        };
        let grown = self.draw_sum + mag;
        self.draw_sum = if grown > DRAW_SUM_CAP {
            DRAW_SUM_CAP
        } else {
            grown
        };
        self.draw_count = self.draw_count + 1;
        if self.draw_count >= self.samples_per_bar {
            proof {
                vstd::arithmetic::div_mod::lemma_div_pos_is_pos(
                    self@.draw.sample_sum,
                    self@.draw.samples_per_bar,
                );
            }
            let bar_raw = ((self.draw_sum as u64) / (self.samples_per_bar as u64)) as i64;
            let bar = if bar_raw > FX_ONE {
                FX_ONE
            } else {
                bar_raw
            };
            let ghost bars0 = self@.draw.bars;
            self.bars.set(self.draw_index, bar);
            proof {
                assert(self@.draw.bars =~= bars0.update(self.draw_index as int, bar as int));
            }
            self.draw_index = if self.draw_index + 1 >= self.bars.len() {
                0
            } else {
                self.draw_index + 1
            };
            self.draw_sum = 0;
            self.draw_count = 0;
        }
    }

    /// Refresh the bar aggregation with this sample, and exactly when the
    /// throttle counter says a visual frame has elapsed
    /// (`publish_due(old(self)@.draw)`), fill the channel's
    /// producer-private frame in place per `fill_frame`'s contract and
    /// publish it; on every other sample the channel is never touched and
    /// only the counter advances.
    pub fn get_draw_data(&mut self, sample: i64)
        requires
            old(self)@.wf(),
            fx_abs(sample as int) <= 2 * SAMPLE_LIMIT,
        ensures
            final(self)@ == (DelayModel {
                draw: publish_step_spec(draw_step_spec(old(self)@.draw, sample as int)),
                ..old(self)@
            }),
            final(self)@.wf(),
    {
        self.update_bars(sample);
        if self.publish_count >= PUBLISH_INTERVAL - 1 {
            self.publish_count = 0;
            proof {
                assert(forall|h: int|
                    0 <= h < self@.heads.len() ==> (#[trigger] heads_view(self.play_heads@)[h]).wf());
            }
            let frame = input_frame(&mut self.draw_input);
            fill_frame(frame, &self.bars, &self.play_heads, &mut self.grain_scratch);
            publish_frame(&mut self.draw_input);
        } else {
            self.publish_count = self.publish_count + 1;
        }
        proof {
            assert(final(self)@ =~= (DelayModel {
                draw: publish_step_spec(draw_step_spec(old(self)@.draw, sample as int)),
                ..old(self)@
            }));
        }
    }

    /// The write phase of one sample.
    fn write(&mut self, l: i64, r: i64)
        requires
            old(self)@.wf(),
            fx_abs(l as int) <= FX_ONE,
            fx_abs(r as int) <= FX_ONE,
        ensures
            final(self)@ == write_spec(old(self)@, l as int, r as int),
            final(self)@.wf(),
    {
        proof {
            lemma_fx_mul_contracts(self@.feedback_sample.0, self@.feedback);
            lemma_fx_mul_contracts(self@.feedback_sample.1, self@.feedback);
            lemma_fx_mul_contracts(
                fx_mul_spec(self@.feedback_sample.0, self@.feedback),
                FX_HALF as int,
            );
            lemma_fx_mul_contracts(
                fx_mul_spec(self@.feedback_sample.1, self@.feedback),
                FX_HALF as int,
            );
        }
        let fb_l = fx_mul(fx_mul(self.feedback_sample.0, self.feedback), FX_HALF);
        let fb_r = fx_mul(fx_mul(self.feedback_sample.1, self.feedback), FX_HALF);
        let f = self.filter.process((fb_l, fb_r));
        let left = l + f.0;
        let right = r + f.1;
        let wh = self.buffer.write_head();
        self.buffer.write_at(wh, left, right);
        self.buffer.advance();
        self.get_draw_data(left + right);
        proof {
            assert(final(self)@ =~= write_spec(old(self)@, l as int, r as int));
        }
    }

    /// The read phase of one sample: transform the pair in place.
    #[verifier::rlimit(60)]
    fn read(&mut self, left: &mut i64, right: &mut i64)
        requires
            old(self)@.wf(),
            fx_abs(*old(left) as int) <= FX_ONE,
            fx_abs(*old(right) as int) <= FX_ONE,
        ensures
            final(self)@ == read_spec(old(self)@, *old(left) as int, *old(right) as int).0,
            *final(left) == read_spec(old(self)@, *old(left) as int, *old(right) as int).1,
            *final(right) == read_spec(old(self)@, *old(left) as int, *old(right) as int).2,
            final(self)@.wf(),
            fx_abs(*final(left) as int) <= OUT_LIMIT,
            fx_abs(*final(right) as int) <= OUT_LIMIT,
    {
        let ghost d0 = self@;
        let mut out_l: i64 = 0;
        let mut out_r: i64 = 0;
        let mut fb_l: i64 = 0;
        let mut fb_r: i64 = 0;
        let n = self.play_heads.len();
        let mut h: usize = 0;
        while h < n
            invariant
                h <= n,
                n == self.play_heads@.len(),
                n == d0.heads.len(),
                d0 == old(self)@,
                d0.wf(),
                self@ == (DelayModel { heads: self@.heads, ..d0 }),
                forall|i: int| h <= i < n ==> heads_view(self.play_heads@)[i] == d0.heads[i],
                forall|i: int|
                    0 <= i < h ==> #[trigger] heads_view(self.play_heads@)[i]
                        == playhead_step_spec(d0.heads[i]) && heads_view(self.play_heads@)[i].wf(),
                out_l == heads_mix_spec(d0.heads.take(h as int), d0.ring).1.0,
                out_r == heads_mix_spec(d0.heads.take(h as int), d0.ring).1.1,
                fb_l == heads_mix_spec(d0.heads.take(h as int), d0.ring).2.0,
                fb_r == heads_mix_spec(d0.heads.take(h as int), d0.ring).2.1,
                fx_abs(out_l as int) <= (h as int) * (HEAD_MIX_LIMIT + SAMPLE_LIMIT),
                fx_abs(out_r as int) <= (h as int) * (HEAD_MIX_LIMIT + SAMPLE_LIMIT),
                fx_abs(fb_l as int) <= (h as int) * (HEAD_MIX_LIMIT + SAMPLE_LIMIT),
                fx_abs(fb_r as int) <= (h as int) * (HEAD_MIX_LIMIT + SAMPLE_LIMIT),
            decreases n - h,
        {
            let ghost pre = self.play_heads@;
            self.play_heads[h].update();
            proof {
                assert(self.play_heads@ =~= pre.update(h as int, self.play_heads@[h as int]));
                assert(heads_view(self.play_heads@) =~= heads_view(pre).update(
                    h as int,
                    self.play_heads@[h as int]@,
                ));
                assert(heads_view(self.play_heads@)[h as int] == playhead_step_spec(
                    d0.heads[h as int],
                ));
                lemma_head_contribution_bounds(playhead_step_spec(d0.heads[h as int]), d0.ring);
                crate::playhead::lemma_grain_data_bounds(
                    playhead_step_spec(d0.heads[h as int]).grains,
                );
            }
            let src = self.play_heads[h].feedback_src();
            let cd = self.play_heads[h].current_distance();
            let mut tap_l: i64 = 0;
            let mut tap_r: i64 = 0;
            if src == FeedbackSrc::Playhead {
                let rp = read_position(&self.buffer, cd);
                proof {
                    vstd::arithmetic::div_mod::lemma_multiply_divide_lt(
                        rp as int,
                        d0.ring.data.len() as int,
                        FX_ONE as int,
                    );
                    vstd::arithmetic::div_mod::lemma_div_pos_is_pos(rp as int, FX_ONE as int);
                }
                let idx = (rp / (FX_ONE as u64)) as usize;
                proof {
                    vstd::arithmetic::div_mod::lemma_small_mod(
                        idx as nat,
                        d0.ring.data.len() as nat,
                    );
                    assert(fx_abs(d0.ring.data[idx as int].0) <= SAMPLE_LIMIT);
                }
                let sfb = self.buffer.read_at(idx);
                tap_l = sfb.0;
                tap_r = sfb.1;
            }
            proof {
                assert((tap_l as int, tap_r as int) == head_feedback_spec(
                    playhead_step_spec(d0.heads[h as int]),
                    d0.ring,
                ));
            }
            self.play_heads[h].collect_grain_data(&mut self.grain_scratch);
            let ghost gfb = (playhead_step_spec(d0.heads[h as int]).feedback_src
                == FeedbackSrc::Grain);
            let mut gout_l: i64 = 0;
            let mut gout_r: i64 = 0;
            let mut gfb_l: i64 = 0;
            let mut gfb_r: i64 = 0;
            let m = self.grain_scratch.len();
            let mut j: usize = 0;
            while j < m
                invariant
                    j <= m,
                    h < n,
                    m == self.grain_scratch@.len(),
                    m <= 4096,
                    d0.wf(),
                    n == d0.heads.len(),
                    self@ == (DelayModel { heads: self@.heads, ..d0 }),
                    gfb == (playhead_step_spec(d0.heads[h as int]).feedback_src
                        == FeedbackSrc::Grain),
                    (src == FeedbackSrc::Grain) == gfb,
                    data_triples(self.grain_scratch@) == grain_data_spec(
                        playhead_step_spec(d0.heads[h as int]).grains,
                    ),
                    forall|i: int|
                        0 <= i < m ==> {
                            let t = #[trigger] data_triples(self.grain_scratch@)[i];
                            0 <= t.0 <= FX_ONE && fx_abs(t.1) <= FX_ONE && fx_abs(t.2) <= FX_ONE
                        },
                    gout_l == grain_mix_spec(
                        data_triples(self.grain_scratch@).take(j as int),
                        d0.ring,
                        gfb,
                    ).0.0,
                    gout_r == grain_mix_spec(
                        data_triples(self.grain_scratch@).take(j as int),
                        d0.ring,
                        gfb,
                    ).0.1,
                    gfb_l == grain_mix_spec(
                        data_triples(self.grain_scratch@).take(j as int),
                        d0.ring,
                        gfb,
                    ).1.0,
                    gfb_r == grain_mix_spec(
                        data_triples(self.grain_scratch@).take(j as int),
                        d0.ring,
                        gfb,
                    ).1.1,
                    fx_abs(gout_l as int) <= (j as int) * READ_LIMIT,
                    fx_abs(gout_r as int) <= (j as int) * READ_LIMIT,
                    fx_abs(gfb_l as int) <= (j as int) * READ_LIMIT,
                    fx_abs(gfb_r as int) <= (j as int) * READ_LIMIT,
                decreases m - j,
            {
                let t = self.grain_scratch[j];
                proof {
                    assert(data_triples(self.grain_scratch@)[j as int] == (
                        t.0 as int,
                        t.1 as int,
                        t.2 as int,
                    ));
                }
                let rp = read_position(&self.buffer, t.0);
                let s = self.buffer.read_cubic(rp);
                proof {
                    lemma_fx_mul_le(
                        FX_HALF as int,
                        (FX_ONE - t.2) as int,
                        0x8000_0000,
                        0x2_0000_0000,
                        0x1_0000_0000,
                    );
                    lemma_fx_mul_le(
                        FX_HALF as int,
                        (FX_ONE + t.2) as int,
                        0x8000_0000,
                        0x2_0000_0000,
                        0x1_0000_0000,
                    );
                    lemma_fx_mul_contracts(s.0 as int, t.1 as int);
                    lemma_fx_mul_contracts(s.1 as int, t.1 as int);
                }
                let lg = fx_mul(FX_HALF, FX_ONE - t.2);
                let rg = fx_mul(FX_HALF, FX_ONE + t.2);
                proof {
                    lemma_fx_mul_contracts(fx_mul_spec(s.0 as int, t.1 as int), lg as int);
                    lemma_fx_mul_contracts(fx_mul_spec(s.1 as int, t.1 as int), rg as int);
                    assert((j as int + 1) * READ_LIMIT == (j as int) * READ_LIMIT + READ_LIMIT)
                        by {
                        vstd::arithmetic::mul::lemma_mul_is_distributive_add_other_way(
                            READ_LIMIT as int,
                            j as int,
                            1,
                        );
                        vstd::arithmetic::mul::lemma_mul_basics(READ_LIMIT as int);
                    }
                    vstd::arithmetic::mul::lemma_mul_inequality(
                        j as int + 1,
                        4096,
                        READ_LIMIT as int,
                    );
                }
                gout_l = gout_l + fx_mul(fx_mul(s.0, t.1), lg);
                gout_r = gout_r + fx_mul(fx_mul(s.1, t.1), rg);
                if src == FeedbackSrc::Grain {
                    gfb_l = gfb_l + s.0;
                    gfb_r = gfb_r + s.1;
                }
                proof {
                    assert(data_triples(self.grain_scratch@).take(j as int + 1).drop_last()
                        =~= data_triples(self.grain_scratch@).take(j as int));
                    assert(data_triples(self.grain_scratch@).take(j as int + 1).last()
                        == data_triples(self.grain_scratch@)[j as int]);
                }
                j = j + 1;
            }
            proof {
                assert(data_triples(self.grain_scratch@).take(m as int) =~= data_triples(
                    self.grain_scratch@,
                ));
                vstd::arithmetic::mul::lemma_mul_inequality(m as int, 4096, READ_LIMIT as int);
                assert(d0.heads.take(h as int + 1).drop_last() =~= d0.heads.take(h as int));
                assert(d0.heads.take(h as int + 1).last() == d0.heads[h as int]);
                assert((h as int + 1) * (HEAD_MIX_LIMIT + SAMPLE_LIMIT) == (h as int) * (
                HEAD_MIX_LIMIT + SAMPLE_LIMIT) + (HEAD_MIX_LIMIT + SAMPLE_LIMIT)) by {
                    vstd::arithmetic::mul::lemma_mul_is_distributive_add_other_way(
                        (HEAD_MIX_LIMIT + SAMPLE_LIMIT) as int,
                        h as int,
                        1,
                    );
                    vstd::arithmetic::mul::lemma_mul_basics(
                        (HEAD_MIX_LIMIT + SAMPLE_LIMIT) as int,
                    );
                }
                vstd::arithmetic::mul::lemma_mul_inequality(
                    h as int + 1,
                    HEADS_LIMIT as int,
                    (HEAD_MIX_LIMIT + SAMPLE_LIMIT) as int,
                );
            }
            out_l = out_l + gout_l;
            out_r = out_r + gout_r;
            fb_l = fb_l + tap_l + gfb_l;
            fb_r = fb_r + tap_r + gfb_r;
            h = h + 1;
        }
        proof {
            assert(d0.heads.take(n as int) =~= d0.heads);
            lemma_heads_mix_shape(d0.heads, d0.ring);
            assert(self@.heads =~= heads_mix_spec(d0.heads, d0.ring).0);
            vstd::arithmetic::mul::lemma_mul_inequality(
                n as int,
                HEADS_LIMIT as int,
                (HEAD_MIX_LIMIT + SAMPLE_LIMIT) as int,
            );
            lemma_fx_mul_contracts(*left as int, self@.dry);
            lemma_fx_mul_contracts(*right as int, self@.dry);
            lemma_fx_mul_contracts(out_l as int, self@.wet);
            lemma_fx_mul_contracts(out_r as int, self@.wet);
        }
        self.feedback_sample = (fb_l, fb_r);
        *left = fx_mul(*left, self.dry) + fx_mul(out_l, self.wet);
        *right = fx_mul(*right, self.dry) + fx_mul(out_r, self.wet);
        proof {
            assert(final(self)@ =~= read_spec(d0, *old(left) as int, *old(right) as int).0);
        }
    }

    /// Render one stereo sample in place: the single real-time entry
    /// point.  The output is always bounded, whatever the parameters and
    /// the accumulated state.
    pub fn render(&mut self, left: &mut i64, right: &mut i64)
        requires
            old(self)@.wf(),
            fx_abs(*old(left) as int) <= FX_ONE,
            fx_abs(*old(right) as int) <= FX_ONE,
        ensures
            final(self)@ == render_spec(old(self)@, *old(left) as int, *old(right) as int).0,
            *final(left) == render_spec(old(self)@, *old(left) as int, *old(right) as int).1,
            *final(right) == render_spec(old(self)@, *old(left) as int, *old(right) as int).2,
            final(self)@.wf(),
            fx_abs(*final(left) as int) <= OUT_LIMIT,
            fx_abs(*final(right) as int) <= OUT_LIMIT,
    {
        let l = *left;
        let r = *right;
        self.write(l, r);
        self.read(left, right);
    }
}

/// A delay that holds no signal anywhere: the buffer, the filter history
/// and the feedback accumulator are all zero.
pub open spec fn all_quiet(d: DelayModel) -> bool {
    &&& forall|i: int| 0 <= i < d.ring.data.len() ==> #[trigger] d.ring.data[i] == (0int, 0int)
    &&& d.feedback_sample == (0int, 0int)
    &&& d.filter.0.x1 == 0 && d.filter.0.x2 == 0 && d.filter.0.z1 == 0 && d.filter.0.z2 == 0
    &&& d.filter.1.x1 == 0 && d.filter.1.x2 == 0 && d.filter.1.z1 == 0 && d.filter.1.z2 == 0
}

/// A cubic read of an all-zero buffer is exactly zero, wherever it lands:
/// every tap wraps into the buffer and reads a zero.
pub proof fn lemma_cubic_read_quiet(data: Seq<(int, int)>, pos: int)
    requires
        1 <= data.len(),
        forall|i: int| 0 <= i < data.len() ==> #[trigger] data[i] == (0int, 0int),
    ensures
        cubic_read_spec(data, pos) == (0int, 0int),
{
    let n = data.len() as int;
    let base = pos / (FX_ONE as int);
    let t = pos % (FX_ONE as int);
    vstd::arithmetic::div_mod::lemma_mod_division_less_than_divisor(base + n - 1, n);
    vstd::arithmetic::div_mod::lemma_mod_division_less_than_divisor(base, n);
    vstd::arithmetic::div_mod::lemma_mod_division_less_than_divisor(base + 1, n);
    vstd::arithmetic::div_mod::lemma_mod_division_less_than_divisor(base + 2, n);
    lemma_fx_mul_zero(t);
    assert(fx_mul_spec(t, 3 * (0 - 0) + 0 - 0) == 0);
    assert(fx_mul_spec(fx_mul_spec(t, 0), FX_HALF as int) == 0) by {
        lemma_fx_mul_zero(FX_HALF as int);
    }
}

/// A grain mix against an all-zero buffer sums to exactly zero.
pub proof fn lemma_grain_mix_quiet(data: Seq<(int, int, int)>, ring: RingModel, grain_fb: bool)
    requires
        1 <= ring.data.len(),
        forall|i: int| 0 <= i < ring.data.len() ==> #[trigger] ring.data[i] == (0int, 0int),
    ensures
        grain_mix_spec(data, ring, grain_fb) == (((0int, 0int), (0int, 0int))),
    decreases data.len(),
{
    if data.len() > 0 {
        lemma_grain_mix_quiet(data.drop_last(), ring, grain_fb);
        let t = data.last();
        lemma_cubic_read_quiet(ring.data, read_pos_spec(ring, t.0));
        lemma_fx_mul_zero(t.1);
        lemma_fx_mul_zero(fx_mul_spec(FX_HALF as int, FX_ONE - t.2));
        lemma_fx_mul_zero(fx_mul_spec(FX_HALF as int, FX_ONE + t.2));
    }
}

/// The read phase over an all-zero buffer accumulates exactly zero, both
/// into the wet output and into the feedback path.
pub proof fn lemma_heads_mix_quiet(heads: Seq<PlayHeadModel>, ring: RingModel)
    requires
        1 <= ring.data.len(),
        forall|i: int| 0 <= i < ring.data.len() ==> #[trigger] ring.data[i] == (0int, 0int),
    ensures
        heads_mix_spec(heads, ring).1 == (0int, 0int),
        heads_mix_spec(heads, ring).2 == (0int, 0int),
    decreases heads.len(),
{
    if heads.len() > 0 {
        lemma_heads_mix_quiet(heads.drop_last(), ring);
        let h2 = playhead_step_spec(heads.last());
        lemma_grain_mix_quiet(
            grain_data_spec(h2.grains),
            ring,
            h2.feedback_src == FeedbackSrc::Grain,
        );
        if h2.feedback_src == FeedbackSrc::Playhead {
            let idx = (read_pos_spec(ring, h2.current_distance) / (FX_ONE as int)) % (
            ring.data.len() as int);
            vstd::arithmetic::div_mod::lemma_mod_division_less_than_divisor(
                read_pos_spec(ring, h2.current_distance) / (FX_ONE as int),
                ring.data.len() as int,
            );
            assert(ring.data[idx] == (0int, 0int));
        }
    }
}

/// Silence in, silence out: from an all-quiet state, a zero input renders
/// to an exact zero output and leaves the state all-quiet, whatever every
/// parameter is set to.
pub proof fn lemma_silent_render(d: DelayModel)
    requires
        d.wf(),
        all_quiet(d),
    ensures
        render_spec(d, 0, 0).1 == 0,
        render_spec(d, 0, 0).2 == 0,
        all_quiet(render_spec(d, 0, 0).0),
{
    let w = write_spec(d, 0, 0);
    lemma_fx_mul_zero(d.feedback);
    lemma_fx_mul_zero(FX_HALF as int);
    assert(fx_mul_spec(fx_mul_spec(0, d.feedback), FX_HALF as int) == 0);
    assert(filter_out_spec(d.filter.0, 0) == 0) by {
        lemma_fx_mul_zero(d.filter.0.b0);
        lemma_fx_mul_zero(d.filter.0.b1);
        lemma_fx_mul_zero(d.filter.0.b2);
        lemma_fx_mul_zero(d.filter.0.a1);
        lemma_fx_mul_zero(d.filter.0.a2);
    }
    assert(filter_out_spec(d.filter.1, 0) == 0) by {
        lemma_fx_mul_zero(d.filter.1.b0);
        lemma_fx_mul_zero(d.filter.1.b1);
        lemma_fx_mul_zero(d.filter.1.b2);
        lemma_fx_mul_zero(d.filter.1.a1);
        lemma_fx_mul_zero(d.filter.1.a2);
    }
    assert(forall|i: int|
        0 <= i < w.ring.data.len() ==> #[trigger] w.ring.data[i] == (0int, 0int));
    assert(all_quiet(w));
    let hm = heads_mix_spec(w.heads, w.ring);
    assert(hm.1 == (0int, 0int) && hm.2 == (0int, 0int)) by {
        lemma_heads_mix_quiet(w.heads, w.ring);
    }
    lemma_fx_mul_zero(w.dry);
    lemma_fx_mul_zero(w.wet);
}

/// Every live grain of `h` reads clear of slot `k`: no grain read
/// position taps that slot.
pub open spec fn grain_reads_clear(h: PlayHeadModel, ring: RingModel, k: int) -> bool {
    forall|j: int|
        0 <= j < grain_data_spec(h.grains).len() ==> !read_taps_slot(
            ring.data.len() as int,
            read_pos_spec(ring, (#[trigger] grain_data_spec(h.grains)[j]).0),
            k,
        )
}

/// A grain mix whose every read stays clear of the only possibly loud
/// slot sums to exactly zero.
pub proof fn lemma_grain_mix_localized(
    data: Seq<(int, int, int)>,
    ring: RingModel,
    k: int,
    grain_fb: bool,
)
    requires
        1 <= ring.data.len(),
        lone_impulse(ring.data, k),
        forall|j: int|
            0 <= j < data.len() ==> !read_taps_slot(
                ring.data.len() as int,
                read_pos_spec(ring, (#[trigger] data[j]).0),
                k,
            ),
    ensures
        grain_mix_spec(data, ring, grain_fb) == (((0int, 0int), (0int, 0int))),
    decreases data.len(),
{
    if data.len() > 0 {
        assert(forall|j: int|
            0 <= j < data.drop_last().len() ==> #[trigger] data.drop_last()[j] == data[j]);
        lemma_grain_mix_localized(data.drop_last(), ring, k, grain_fb);
        let t = data.last();
        assert(data[data.len() - 1] == t);
        lemma_cubic_read_localized(ring.data, k, read_pos_spec(ring, t.0));
        lemma_fx_mul_zero(t.1);
        lemma_fx_mul_zero(fx_mul_spec(FX_HALF as int, FX_ONE - t.2));
        lemma_fx_mul_zero(fx_mul_spec(FX_HALF as int, FX_ONE + t.2));
    }
}

/// The read phase's wet output is exactly zero whenever every live grain
/// of every stepped playhead reads clear of the only possibly loud slot.
pub proof fn lemma_heads_mix_localized(heads: Seq<PlayHeadModel>, ring: RingModel, k: int)
    requires
        1 <= ring.data.len(),
        lone_impulse(ring.data, k),
        forall|h: int|
            0 <= h < heads.len() ==> grain_reads_clear(
                playhead_step_spec(#[trigger] heads[h]),
                ring,
                k,
            ),
    ensures
        heads_mix_spec(heads, ring).1 == (0int, 0int),
    decreases heads.len(),
{
    if heads.len() > 0 {
        assert(forall|h: int|
            0 <= h < heads.drop_last().len() ==> #[trigger] heads.drop_last()[h] == heads[h]);
        lemma_heads_mix_localized(heads.drop_last(), ring, k);
        assert(heads[heads.len() - 1] == heads.last());
        let h2 = playhead_step_spec(heads.last());
        lemma_grain_mix_localized(
            grain_data_spec(h2.grains),
            ring,
            k,
            h2.feedback_src == FeedbackSrc::Grain,
        );
    }
}

/// Impulse localization, the complement of the silence law: with silent
/// input, zero feedback and a quiet filter, a buffer that is silent
/// everywhere but slot `k` renders to an exactly silent sample unless
/// some live grain of some playhead reads within the cubic kernel's
/// reach of `k`.  The rendered state keeps the same shape -- the ring
/// still silent away from `k`, the feedback level zero and the filter
/// quiet -- so the argument carries from sample to sample for as long as
/// every grain reads clear: the stored impulse reappears only through a
/// grain read next to its slot, and nowhere else.
pub proof fn lemma_impulse_render_localized(d: DelayModel, k: int)
    requires
        d.wf(),
        0 <= k < d.ring.data.len(),
        lone_impulse(d.ring.data, k),
        d.feedback == 0,
        d.filter.0.x1 == 0 && d.filter.0.x2 == 0 && d.filter.0.z1 == 0 && d.filter.0.z2 == 0,
        d.filter.1.x1 == 0 && d.filter.1.x2 == 0 && d.filter.1.z1 == 0 && d.filter.1.z2 == 0,
        forall|h: int|
            0 <= h < d.heads.len() ==> grain_reads_clear(
                playhead_step_spec(#[trigger] d.heads[h]),
                write_spec(d, 0, 0).ring,
                k,
            ),
    ensures
        render_spec(d, 0, 0).1 == 0,
        render_spec(d, 0, 0).2 == 0,
        lone_impulse(render_spec(d, 0, 0).0.ring.data, k),
        render_spec(d, 0, 0).0.feedback == 0,
        render_spec(d, 0, 0).0.filter.0.x1 == 0 && render_spec(d, 0, 0).0.filter.0.x2 == 0
            && render_spec(d, 0, 0).0.filter.0.z1 == 0 && render_spec(d, 0, 0).0.filter.0.z2 == 0,
        render_spec(d, 0, 0).0.filter.1.x1 == 0 && render_spec(d, 0, 0).0.filter.1.x2 == 0
            && render_spec(d, 0, 0).0.filter.1.z1 == 0 && render_spec(d, 0, 0).0.filter.1.z2 == 0,
{
    let w = write_spec(d, 0, 0);
    lemma_fx_mul_zero(d.feedback_sample.0);
    lemma_fx_mul_zero(d.feedback_sample.1);
    lemma_fx_mul_zero(FX_HALF as int);
    assert(fx_mul_spec(fx_mul_spec(d.feedback_sample.0, 0), FX_HALF as int) == 0);
    assert(fx_mul_spec(fx_mul_spec(d.feedback_sample.1, 0), FX_HALF as int) == 0);
    assert(filter_out_spec(d.filter.0, 0) == 0) by {
        lemma_fx_mul_zero(d.filter.0.b0);
        lemma_fx_mul_zero(d.filter.0.b1);
        lemma_fx_mul_zero(d.filter.0.b2);
        lemma_fx_mul_zero(d.filter.0.a1);
        lemma_fx_mul_zero(d.filter.0.a2);
    }
    assert(filter_out_spec(d.filter.1, 0) == 0) by {
        lemma_fx_mul_zero(d.filter.1.b0);
        lemma_fx_mul_zero(d.filter.1.b1);
        lemma_fx_mul_zero(d.filter.1.b2);
        lemma_fx_mul_zero(d.filter.1.a1);
        lemma_fx_mul_zero(d.filter.1.a2);
    }
    assert(lone_impulse(w.ring.data, k));
    let hm = heads_mix_spec(w.heads, w.ring);
    assert(hm.1 == (0int, 0int)) by {
        lemma_heads_mix_localized(w.heads, w.ring, k);
    }
    lemma_fx_mul_zero(w.dry);
    lemma_fx_mul_zero(w.wet);
}

/// The Q32 sample position a buffer fraction addresses, exact per
/// `read_pos_spec` and always inside the buffer.
pub fn read_position(ring: &RingBuffer, pos: i64) -> (r: u64)
    requires
        ring@.wf(),
        0 <= pos <= FX_ONE,
    ensures
        r == read_pos_spec(ring@, pos as int),
        r < ring@.data.len() * (FX_ONE as int),
{
    proof {
        lemma_read_pos_bounds(ring@, pos as int);
        vstd::arithmetic::mul::lemma_mul_nonnegative(ring@.data.len() as int, pos as int);
        assert(ring@.data.len() * (pos as int) <= ring@.data.len() * (FX_ONE as int)) by {
            vstd::arithmetic::mul::lemma_mul_is_commutative(ring@.data.len() as int, pos as int);
            vstd::arithmetic::mul::lemma_mul_is_commutative(
                ring@.data.len() as int,
                FX_ONE as int,
            );
            vstd::arithmetic::mul::lemma_mul_inequality(
                pos as int,
                FX_ONE as int,
                ring@.data.len() as int,
            );
        }
        vstd::arithmetic::mul::lemma_mul_upper_bound(
            ring@.data.len() as int,
            BUF_LEN_LIMIT as int,
            FX_ONE as int,
            FX_ONE as int,
        );
        vstd::arithmetic::mul::lemma_mul_upper_bound(
            ring@.write_head,
            BUF_LEN_LIMIT as int,
            FX_ONE as int,
            FX_ONE as int,
        );
    }
    let len = ring.len() as u64;
    let wh = ring.write_head() as u64;
    let off: u64 = len * (pos as u64);
    let whq: u64 = wh * (FX_ONE as u64);
    if whq < off {
        whq + len * (FX_ONE as u64) - off
    } else {
        whq - off
    }
}

/// Fill one visualization frame in place from the current bars and
/// playheads: the bar values copied over, and for every live grain its
/// position flipped to count from the far end, with its pan and gain.
/// Both the frame's vectors and the scratch vector are cleared and
/// refilled, so reused allocations stay off the allocator once their
/// capacity has grown.
pub fn fill_frame(
    frame: &mut DrawData,
    bars: &Vec<i64>,
    heads: &Vec<PlayHead>,
    scratch: &mut Vec<(i64, i64, i64)>,
)
    requires
        forall|h: int| 0 <= h < heads@.len() ==> (#[trigger] heads_view(heads@)[h]).wf(),
    ensures
        bars_view(final(frame).buffer@) == bars_view(bars@),
        graindata_triples(final(frame).grains@) == head_snapshot_spec(heads_view(heads@)),
{
    frame.buffer.clear();
    let nb = bars.len();
    let mut k: usize = 0;
    while k < nb
        invariant
            k <= nb,
            nb == bars@.len(),
            frame.buffer@.len() == k,
            forall|i: int| 0 <= i < k ==> #[trigger] frame.buffer@[i] == bars@[i],
        decreases nb - k,
    {
        let b = bars[k];
        frame.buffer.push(b);
        k = k + 1;
    }
    proof {
        assert(bars_view(frame.buffer@) =~= bars_view(bars@));
    }
    frame.grains.clear();
    let n = heads.len();
    let mut h: usize = 0;
    while h < n
        invariant
            h <= n,
            n == heads@.len(),
            bars_view(frame.buffer@) == bars_view(bars@),
            forall|i: int| 0 <= i < n ==> (#[trigger] heads_view(heads@)[i]).wf(),
            graindata_triples(frame.grains@) == head_snapshot_spec(
                heads_view(heads@).take(h as int),
            ),
        decreases n - h,
    {
        heads[h].collect_grain_data(scratch);
        proof {
            assert(heads_view(heads@)[h as int].wf());
            crate::playhead::lemma_grain_data_bounds(heads_view(heads@)[h as int].grains);
        }
        let m = scratch.len();
        let mut j: usize = 0;
        while j < m
            invariant
                j <= m,
                h < n,
                m == scratch@.len(),
                n == heads@.len(),
                bars_view(frame.buffer@) == bars_view(bars@),
                data_triples(scratch@) == grain_data_spec(heads_view(heads@)[h as int].grains),
                forall|i: int|
                    0 <= i < m ==> {
                        let t = #[trigger] data_triples(scratch@)[i];
                        0 <= t.0 <= FX_ONE && fx_abs(t.1) <= FX_ONE && fx_abs(t.2) <= FX_ONE
                    },
                graindata_triples(frame.grains@) == head_snapshot_spec(
                    heads_view(heads@).take(h as int),
                ) + flip_data_spec(data_triples(scratch@).take(j as int)),
            decreases m - j,
        {
            let t = scratch[j];
            proof {
                assert(data_triples(scratch@)[j as int] == (t.0 as int, t.1 as int, t.2 as int));
            }
            let ghost gpre = frame.grains@;
            frame.grains.push(Graindata { pos: FX_ONE - t.0, stereo_pos: t.2, gain: t.1 });
            proof {
                let ghost x = ((FX_ONE - t.0) as int, t.2 as int, t.1 as int);
                assert(graindata_triples(frame.grains@) =~= graindata_triples(gpre).push(x));
                assert(flip_data_spec(data_triples(scratch@).take(j as int + 1)) =~= flip_data_spec(
                    data_triples(scratch@).take(j as int),
                ).push(x));
                assert(graindata_triples(frame.grains@) =~= head_snapshot_spec(
                    heads_view(heads@).take(h as int),
                ) + flip_data_spec(data_triples(scratch@).take(j as int + 1)));
            }
            j = j + 1;
        }
        proof {
            assert(data_triples(scratch@).take(m as int) =~= data_triples(scratch@));
            assert(heads_view(heads@).take(h as int + 1).drop_last() =~= heads_view(heads@).take(
                h as int,
            ));
            assert(heads_view(heads@).take(h as int + 1).last() == heads_view(heads@)[h as int]);
            assert(graindata_triples(frame.grains@) =~= head_snapshot_spec(
                heads_view(heads@).take(h as int + 1),
            ));
        }
        h = h + 1;
    }
    proof {
        assert(heads_view(heads@).take(n as int) =~= heads_view(heads@));
    }
}

} // verus!
