//! Circular stereo sample store with a cubic-interpolated read.
//!
//! The write head always points at the next slot to overwrite and advances
//! modulo the buffer length; readers address fractional positions in Q32
//! sample units, and all four taps of the cubic kernel wrap modulo the
//! length, including the tap one slot before the base.

use vstd::arithmetic::div_mod::lemma_div_pos_is_pos;
use vstd::arithmetic::div_mod::lemma_multiply_divide_lt;
use vstd::prelude::*;

use crate::fx::fx_abs;
use crate::fx::fx_mul;
use crate::fx::fx_mul_spec;
use crate::fx::lemma_fx_mul_le;
use crate::fx::lemma_fx_mul_zero;
use crate::fx::FX_HALF;
use crate::fx::FX_ONE;
use crate::grain::BUF_LEN_LIMIT;

verus! {

/// Magnitude bound on every stored sample (16.0 in Q32); writers clamp or
/// prove their values under it.
pub const SAMPLE_LIMIT: i64 = 0x10_0000_0000;

/// Magnitude bound on a cubic-interpolated read: the kernel can overshoot
/// the stored range, but never past twelve times the sample bound.
pub const READ_LIMIT: i64 = 0xC0_0000_0000;

/// Mathematical state of the ring buffer.
#[verifier::ext_equal]
pub struct RingModel {
    pub data: Seq<(int, int)>,
    pub write_head: int,
}

impl RingModel {
    pub open spec fn wf(&self) -> bool {
        &&& 1 <= self.data.len() <= BUF_LEN_LIMIT
        &&& 0 <= self.write_head < self.data.len()
        &&& forall|i: int|
            0 <= i < self.data.len() ==> fx_abs(#[trigger] self.data[i].0) <= SAMPLE_LIMIT
                && fx_abs(self.data[i].1) <= SAMPLE_LIMIT
    }
}

/// Catmull-Rom-style cubic kernel on one channel, over four neighbouring
/// samples and the Q32 fraction `t` between the middle two.
pub open spec fn cubic_point_spec(p0: int, p1: int, p2: int, p3: int, t: int) -> int {
    let inner3 = 3 * (p1 - p2) + p3 - p0;
    let inner2 = 2 * p0 - 5 * p1 + 4 * p2 - p3 + fx_mul_spec(t, inner3);
    let inner1 = p2 - p0 + fx_mul_spec(t, inner2);
    p1 + fx_mul_spec(fx_mul_spec(t, inner1), FX_HALF as int)
}

/// A stereo cubic read at Q32 sample position `pos`, all four taps wrapped
/// modulo the buffer length.
pub open spec fn cubic_read_spec(data: Seq<(int, int)>, pos: int) -> (int, int) {
    let n = data.len() as int;
    let base = pos / (FX_ONE as int);
    let t = pos % (FX_ONE as int);
    let p0 = data[(base + n - 1) % n];
    let p1 = data[base % n];
    let p2 = data[(base + 1) % n];
    let p3 = data[(base + 2) % n];
    (
        cubic_point_spec(p0.0, p1.0, p2.0, p3.0, t),
        cubic_point_spec(p0.1, p1.1, p2.1, p3.1, t),
    )
}

pub struct RingBuffer {
    data: Vec<(i64, i64)>,
    write_head: usize,
}

impl View for RingBuffer {
    type V = RingModel;

    closed spec fn view(&self) -> RingModel {
        RingModel {
            data: self.data@.map(|i: int, p: (i64, i64)| (p.0 as int, p.1 as int)),
            write_head: self.write_head as int,
        }
    }
}

impl RingBuffer {
    /// A zeroed buffer of `len` stereo slots with the write head at zero.
    pub fn new(len: usize) -> (r: RingBuffer)
        requires
            1 <= len <= BUF_LEN_LIMIT,
        ensures
            r@.wf(),
            r@.data.len() == len,
            r@.write_head == 0,
            forall|i: int| 0 <= i < len ==> #[trigger] r@.data[i] == (0int, 0int),
    {
        let mut data: Vec<(i64, i64)> = Vec::new();
        let mut k: usize = 0;
        while k < len
            invariant
                k == data@.len(),
                k <= len,
                forall|i: int| 0 <= i < k ==> #[trigger] data@[i] == (0i64, 0i64),
            decreases len - k,
        {
            data.push((0i64, 0i64));
            k = k + 1;
        }
        RingBuffer { data, write_head: 0 }
    }

    pub fn len(&self) -> (r: usize)
        ensures
            r == self@.data.len(),
    {
        self.data.len()
    }

    pub fn write_head(&self) -> (r: usize)
        ensures
            r == self@.write_head,
    {
        self.write_head
    }

    /// Store a stereo pair at an explicit slot; only the owner writes, and
    /// only during the write phase.
    pub fn write_at(&mut self, index: usize, left: i64, right: i64)
        requires
            old(self)@.wf(),
            index < old(self)@.data.len(),
            fx_abs(left as int) <= SAMPLE_LIMIT,
            fx_abs(right as int) <= SAMPLE_LIMIT,
        ensures
            final(self)@.data == old(self)@.data.update(index as int, (left as int, right as int)),
            final(self)@.write_head == old(self)@.write_head,
            final(self)@.wf(),
    {
        self.data[index] = (left, right);
        proof {
            assert(final(self)@.data =~= old(self)@.data.update(
                index as int,
                (left as int, right as int),
            ));
        }
    }

    /// Advance the write head one slot, wrapping modulo the length.
    pub fn advance(&mut self)
        requires
            old(self)@.wf(),
        ensures
            final(self)@.data == old(self)@.data,
            final(self)@.write_head == (old(self)@.write_head + 1) % (old(self)@.data.len() as int),
            final(self)@.wf(),
    {
        self.write_head = (self.write_head + 1) % self.data.len();
    }

    /// Resize to `len` slots, keeping the existing prefix and zero-filling
    /// any growth; the write head stays where it was, wrapped into the new
    /// length.  A privileged operation, used only during (re)initialization
    /// and never concurrently with rendering.
    pub fn resize(&mut self, len: usize)
        requires
            old(self)@.wf(),
            1 <= len <= BUF_LEN_LIMIT,
        ensures
            final(self)@.data.len() == len,
            forall|i: int|
                0 <= i < len && i < old(self)@.data.len() ==> #[trigger] final(self)@.data[i]
                    == old(self)@.data[i],
            forall|i: int|
                old(self)@.data.len() <= i < len ==> #[trigger] final(self)@.data[i] == (
                0int,
                0int,
                ),
            final(self)@.write_head == old(self)@.write_head % (len as int),
            final(self)@.wf(),
    {
        let n = self.data.len();
        let keep = if n < len {
            n
        } else {
            len
        };
        let mut data: Vec<(i64, i64)> = Vec::new();
        let mut k: usize = 0;
        while k < keep
            invariant
                k <= keep,
                keep <= self.data@.len(),
                data@.len() == k,
                forall|i: int| 0 <= i < k ==> #[trigger] data@[i] == self.data@[i],
            decreases keep - k,
        {
            let pair = self.data[k];
            data.push(pair);
            k = k + 1;
        }
        while data.len() < len
            invariant
                keep <= data@.len() <= len,
                forall|i: int| 0 <= i < keep ==> #[trigger] data@[i] == self.data@[i],
                forall|i: int| keep <= i < data@.len() ==> #[trigger] data@[i] == (0i64, 0i64),
            decreases len - data@.len(),
        {
            data.push((0i64, 0i64));
        }
        self.data = data;
        self.write_head = self.write_head % len;
        proof {
            assert forall|i: int| 0 <= i < self@.data.len() implies fx_abs(
                #[trigger] self@.data[i].0,
            ) <= SAMPLE_LIMIT && fx_abs(self@.data[i].1) <= SAMPLE_LIMIT by {
                if i < keep {
                    assert(self@.data[i] == old(self)@.data[i]);
                    assert(fx_abs(old(self)@.data[i].0) <= SAMPLE_LIMIT);
                } else {
                    assert(self@.data[i] == (0int, 0int));
                }
            }
        }
    }

    /// The raw pair at one slot (the playhead feedback tap).
    pub fn read_at(&self, index: usize) -> (r: (i64, i64))
        requires
            self@.wf(),
            index < self@.data.len(),
        ensures
            r.0 == self@.data[index as int].0,
            r.1 == self@.data[index as int].1,
    {
        self.data[index]
    }

    /// Cubic-interpolated stereo read at a Q32 sample position inside the
    /// buffer.
    pub fn read_cubic(&self, pos: u64) -> (r: (i64, i64))
        requires
            self@.wf(),
            pos < self@.data.len() * (FX_ONE as int),
        ensures
            (r.0 as int, r.1 as int) == cubic_read_spec(self@.data, pos as int),
            fx_abs(r.0 as int) <= READ_LIMIT,
            fx_abs(r.1 as int) <= READ_LIMIT,
    {
        let n = self.data.len();
        let base_u = pos / (FX_ONE as u64);
        proof {
            lemma_multiply_divide_lt(pos as int, n as int, FX_ONE as int);
        }
        let base = base_u as usize;
        let t = (pos % (FX_ONE as u64)) as i64;
        let i0 = (base + n - 1) % n;
        let i1 = base % n;
        let i2 = (base + 1) % n;
        let i3 = (base + 2) % n;
        let p0 = self.data[i0];
        let p1 = self.data[i1];
        let p2 = self.data[i2];
        let p3 = self.data[i3];
        proof {
            assert(fx_abs(self@.data[i0 as int].0) <= SAMPLE_LIMIT);
            assert(fx_abs(self@.data[i1 as int].0) <= SAMPLE_LIMIT);
            assert(fx_abs(self@.data[i2 as int].0) <= SAMPLE_LIMIT);
            assert(fx_abs(self@.data[i3 as int].0) <= SAMPLE_LIMIT);
        }
        let left = cubic_point(p0.0, p1.0, p2.0, p3.0, t);
        let right = cubic_point(p0.1, p1.1, p2.1, p3.1, t);
        (left, right)
    }
}

/// The cubic kernel on one channel, exact per `cubic_point_spec`.
pub fn cubic_point(p0: i64, p1: i64, p2: i64, p3: i64, t: i64) -> (r: i64)
    requires
        fx_abs(p0 as int) <= SAMPLE_LIMIT,
        fx_abs(p1 as int) <= SAMPLE_LIMIT,
        fx_abs(p2 as int) <= SAMPLE_LIMIT,
        fx_abs(p3 as int) <= SAMPLE_LIMIT,
        0 <= t < FX_ONE,
    ensures
        r == cubic_point_spec(p0 as int, p1 as int, p2 as int, p3 as int, t as int),
        fx_abs(r as int) <= READ_LIMIT,
{
    let inner3 = 3 * (p1 - p2) + p3 - p0;
    proof {
        lemma_fx_mul_le(t as int, inner3 as int, 0x1_0000_0000, 0x80_0000_0000, 0x80_0000_0000);
    }
    let m3 = fx_mul(t, inner3);
    let inner2 = 2 * p0 - 5 * p1 + 4 * p2 - p3 + m3;
    proof {
        lemma_fx_mul_le(t as int, inner2 as int, 0x1_0000_0000, 0x140_0000_0000, 0x140_0000_0000);
    }
    let m2 = fx_mul(t, inner2);
    let inner1 = p2 - p0 + m2;
    proof {
        lemma_fx_mul_le(t as int, inner1 as int, 0x1_0000_0000, 0x160_0000_0000, 0x160_0000_0000);
    }
    let m1 = fx_mul(t, inner1);
    proof {
        lemma_fx_mul_le(m1 as int, FX_HALF as int, 0x160_0000_0000, 0x8000_0000, 0xB0_0000_0000);
    }
    let half = fx_mul(m1, FX_HALF);
    p1 + half
}

/// The cubic kernel's output bound, at the level of the specification:
/// needed wherever a read is summed without running the code.
pub proof fn lemma_cubic_read_bounds(data: Seq<(int, int)>, pos: int)
    requires
        1 <= data.len(),
        forall|i: int|
            0 <= i < data.len() ==> fx_abs(#[trigger] data[i].0) <= SAMPLE_LIMIT && fx_abs(
                data[i].1,
            ) <= SAMPLE_LIMIT,
        0 <= pos,
    ensures
        fx_abs(cubic_read_spec(data, pos).0) <= READ_LIMIT,
        fx_abs(cubic_read_spec(data, pos).1) <= READ_LIMIT,
{
    let n = data.len() as int;
    let base = pos / (FX_ONE as int);
    let t = pos % (FX_ONE as int);
    vstd::arithmetic::div_mod::lemma_div_pos_is_pos(pos, FX_ONE as int);
    assert(0 <= (base + n - 1) % n < n && 0 <= base % n < n && 0 <= (base + 1) % n < n && 0 <= (
    base + 2) % n < n);
    let p0 = data[(base + n - 1) % n];
    let p1 = data[base % n];
    let p2 = data[(base + 1) % n];
    let p3 = data[(base + 2) % n];
    lemma_cubic_point_bound(p0.0, p1.0, p2.0, p3.0, t);
    lemma_cubic_point_bound(p0.1, p1.1, p2.1, p3.1, t);
}

/// The kernel bound on one channel.
pub proof fn lemma_cubic_point_bound(p0: int, p1: int, p2: int, p3: int, t: int)
    requires
        fx_abs(p0) <= SAMPLE_LIMIT,
        fx_abs(p1) <= SAMPLE_LIMIT,
        fx_abs(p2) <= SAMPLE_LIMIT,
        fx_abs(p3) <= SAMPLE_LIMIT,
        0 <= t < FX_ONE,
    ensures
        fx_abs(cubic_point_spec(p0, p1, p2, p3, t)) <= READ_LIMIT,
{
    let inner3 = 3 * (p1 - p2) + p3 - p0;
    lemma_fx_mul_le(t, inner3, 0x1_0000_0000, 0x80_0000_0000, 0x80_0000_0000);
    let inner2 = 2 * p0 - 5 * p1 + 4 * p2 - p3 + fx_mul_spec(t, inner3);
    lemma_fx_mul_le(t, inner2, 0x1_0000_0000, 0x140_0000_0000, 0x140_0000_0000);
    let inner1 = p2 - p0 + fx_mul_spec(t, inner2);
    lemma_fx_mul_le(t, inner1, 0x1_0000_0000, 0x160_0000_0000, 0x160_0000_0000);
    lemma_fx_mul_le(
        fx_mul_spec(t, inner1),
        FX_HALF as int,
        0x160_0000_0000,
        0x8000_0000,
        0xB0_0000_0000,
    );
}

/// Cubic interpolation identity: at an exact integer position every `t`
/// weight vanishes and the read returns the stored sample itself.
pub proof fn lemma_cubic_identity(data: Seq<(int, int)>, index: int)
    requires
        1 <= data.len(),
        0 <= index < data.len(),
    ensures
        cubic_read_spec(data, index * (FX_ONE as int)) == data[index],
{
    let pos = index * (FX_ONE as int);
    assert(pos / (FX_ONE as int) == index && pos % (FX_ONE as int) == 0) by {
        vstd::arithmetic::div_mod::lemma_fundamental_div_mod_converse(
            pos,
            FX_ONE as int,
            index,
            0,
        );
    }
    assert(index % (data.len() as int) == index) by {
        vstd::arithmetic::div_mod::lemma_small_mod(index as nat, data.len());
    }
    let p1 = data[index];
    lemma_fx_mul_zero(3 * (p1.0 - p1.0));
    assert(forall|x: int| #[trigger] fx_mul_spec(0, x) == 0) by {
        assert forall|x: int| #[trigger] fx_mul_spec(0, x) == 0 by {
            lemma_fx_mul_zero(x);
        }
    }
}

/// A buffer that is silent everywhere except possibly at slot `k`.
pub open spec fn lone_impulse(data: Seq<(int, int)>, k: int) -> bool {
    forall|i: int| 0 <= i < data.len() && i != k ==> #[trigger] data[i] == (0int, 0int)
}

/// Whether a cubic read at Q32 position `pos` taps slot `k`: the kernel
/// reaches from one slot before its integer base to two slots past it,
/// each tap wrapped modulo the buffer length.
pub open spec fn read_taps_slot(n: int, pos: int, k: int) -> bool {
    let base = pos / (FX_ONE as int);
    ||| (base + n - 1) % n == k
    ||| base % n == k
    ||| (base + 1) % n == k
    ||| (base + 2) % n == k
}

/// Impulse localization at the read level: against a buffer that is
/// silent everywhere but slot `k`, a cubic read whose four taps all miss
/// `k` is exactly zero -- the stored impulse is audible only within the
/// kernel's reach of its slot, and nowhere else.
pub proof fn lemma_cubic_read_localized(data: Seq<(int, int)>, k: int, pos: int)
    requires
        1 <= data.len(),
        lone_impulse(data, k),
        !read_taps_slot(data.len() as int, pos, k),
    ensures
        cubic_read_spec(data, pos) == (0int, 0int),
{
    let n = data.len() as int;
    let base = pos / (FX_ONE as int);
    let t = pos % (FX_ONE as int);
    vstd::arithmetic::div_mod::lemma_mod_division_less_than_divisor(base + n - 1, n);
    vstd::arithmetic::div_mod::lemma_mod_division_less_than_divisor(base, n);
    vstd::arithmetic::div_mod::lemma_mod_division_less_than_divisor(base + 1, n);
    vstd::arithmetic::div_mod::lemma_mod_division_less_than_divisor(base + 2, n);
    assert(data[(base + n - 1) % n] == (0int, 0int));
    assert(data[base % n] == (0int, 0int));
    assert(data[(base + 1) % n] == (0int, 0int));
    assert(data[(base + 2) % n] == (0int, 0int));
    lemma_fx_mul_zero(t);
    assert(fx_mul_spec(t, 3 * (0 - 0) + 0 - 0) == 0);
    assert(fx_mul_spec(fx_mul_spec(t, 0), FX_HALF as int) == 0) by {
        lemma_fx_mul_zero(FX_HALF as int);
    }
}

/// Ring wrap invariant: starting from slot zero, `k` advances land the
/// write head at exactly `k mod length`.
pub open spec fn head_after_spec(k: nat, n: int) -> int
    decreases k,
{
    if k == 0 {
        0
    } else {
        (head_after_spec((k - 1) as nat, n) + 1) % n
    }
}

pub proof fn lemma_write_head_wraps(k: nat, n: int)
    requires
        1 <= n,
    ensures
        head_after_spec(k, n) == (k as int) % n,
    decreases k,
{
    if k == 0 {
        vstd::arithmetic::div_mod::lemma_small_mod(0, n as nat);
    } else {
        lemma_write_head_wraps((k - 1) as nat, n);
        assert((((k - 1) as int) % n + 1) % n == (k as int) % n) by {
            vstd::arithmetic::div_mod::lemma_add_mod_noop_right(1, (k - 1) as int, n);
        }
    }
}

} // verus!
