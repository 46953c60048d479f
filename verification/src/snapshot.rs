//! Read-only visualization snapshot: recent buffer energy summarized into
//! a small fixed number of bars, plus the live grains' positions, pans and
//! gains.  The render thread hands each snapshot to the consumer over a
//! wait-free triple buffer, so it never blocks on the reader.

use triple_buffer::Input;
use vstd::prelude::*;

use crate::fx::FX_ONE;
use crate::playhead::grain_data_spec;
use crate::playhead::GRAIN_NUM;
use crate::playhead::PlayHeadModel;

verus! {

/// Number of energy bars in the waveform summary.
pub const BAR_NUM: usize = 10;

/// One live grain as the visualization sees it: position measured from the
/// far end of the buffer, fixed pan, current gain.
#[derive(Clone, Copy)]
pub struct Graindata {
    pub pos: i64,
    pub stereo_pos: i64,
    pub gain: i64,
}

/// One snapshot frame: the energy bars and every live grain.
#[derive(Clone)]
pub struct DrawData {
    pub buffer: Vec<i64>,
    pub grains: Vec<Graindata>,
}

impl DrawData {
    /// An all-quiet frame: the full complement of zeroed bars and one
    /// zeroed placeholder per grain slot, so a consumer always sees a
    /// fully formed frame and the channel's buffers start with their
    /// working capacity.
    pub fn new() -> (r: DrawData)
        ensures
            r.buffer@.len() == BAR_NUM,
            forall|i: int| 0 <= i < BAR_NUM ==> #[trigger] r.buffer@[i] == 0i64,
            r.grains@.len() == GRAIN_NUM,
            forall|i: int|
                0 <= i < GRAIN_NUM ==> (#[trigger] r.grains@[i]).pos == 0
                    && r.grains@[i].stereo_pos == 0 && r.grains@[i].gain == 0,
    {
        let mut buffer: Vec<i64> = Vec::new();
        let mut k: usize = 0;
        while k < BAR_NUM
            invariant
                k == buffer@.len(),
                k <= BAR_NUM,
                forall|i: int| 0 <= i < k ==> #[trigger] buffer@[i] == 0i64,
            decreases BAR_NUM - k,
        {
            buffer.push(0i64);
            k = k + 1;
        }
        let mut grains: Vec<Graindata> = Vec::new();
        let mut g: usize = 0;
        while g < GRAIN_NUM
            invariant
                g == grains@.len(),
                g <= GRAIN_NUM,
                forall|i: int|
                    0 <= i < g ==> (#[trigger] grains@[i]).pos == 0 && grains@[i].stereo_pos == 0
                        && grains@[i].gain == 0,
            decreases GRAIN_NUM - g,
        {
            grains.push(Graindata { pos: 0, stereo_pos: 0, gain: 0 });
            g = g + 1;
        }
        DrawData { buffer, grains }
    }
}

/// The bar values as mathematical integers.
pub open spec fn bars_view(s: Seq<i64>) -> Seq<int> {
    s.map(|i: int, b: i64| b as int)
}

/// Snapshot grain entries as mathematical triples.
pub open spec fn graindata_triples(s: Seq<Graindata>) -> Seq<(int, int, int)> {
    s.map(|i: int, g: Graindata| (g.pos as int, g.stereo_pos as int, g.gain as int))
}

/// The visualization triples of one playhead: each live grain's position
/// flipped to count from the far end, with its pan and gain.
pub open spec fn flip_data_spec(s: Seq<(int, int, int)>) -> Seq<(int, int, int)> {
    s.map(|i: int, t: (int, int, int)| (FX_ONE - t.0, t.2, t.1))
}

/// The visualization triples of every playhead, in playhead order.
pub open spec fn head_snapshot_spec(heads: Seq<PlayHeadModel>) -> Seq<(int, int, int)>
    decreases heads.len(),
{
    if heads.len() == 0 {
        Seq::empty()
    } else {
        head_snapshot_spec(heads.drop_last()) + flip_data_spec(
            grain_data_spec(heads.last().grains),
        )
    }
}

/// Relies on triple_buffer::Input::input_buffer_mut: exclusive access to
/// the producer-private frame of the triple buffer, written in place so
/// the render thread never copies or allocates a frame.  Nothing is known
/// of the frame's prior contents: after a publish it holds whatever the
/// consumer handed back.
#[verifier::external_body]
pub(crate) fn input_frame(channel: &mut Input<DrawData>) -> &mut DrawData {
    channel.input_buffer_mut()
}

/// Relies on triple_buffer::Input::publish: hands the filled producer
/// frame to the consumer side without blocking and without tearing.  The
/// flag saying whether the consumer had read the previous frame is
/// dropped, as the render thread has no use for it.
#[verifier::external_body]
pub(crate) fn publish_frame(channel: &mut Input<DrawData>) {
    channel.publish();
}

/// The producer half of the visualization channel, declared so the delay
/// can own one; its contents are opaque to the proofs.
#[verifier::external_type_specification]
#[verifier::external_body]
#[verifier::reject_recursive_types(T)]
pub struct ExInput<T: Send>(Input<T>);

} // verus!
