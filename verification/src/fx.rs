//! Q32 fixed-point arithmetic: the number `x` is represented by the `i64`
//! value `x * 2^32`.  Multiplication and division round toward zero; every
//! operation carries an exact specification over the raw representations.

use vstd::arithmetic::div_mod::lemma_div_is_ordered;
use vstd::arithmetic::mul::lemma_mul_inequality;
use vstd::arithmetic::mul::lemma_mul_upper_bound;
use vstd::prelude::*;

verus! {

/// The Q32 representation of 1.0.
pub const FX_ONE: i64 = 0x1_0000_0000;

/// The Q32 representation of 0.5.
pub const FX_HALF: i64 = 0x8000_0000;

/// The Q32 representation of 0.25.
pub const FX_QUARTER: i64 = 0x4000_0000;

/// Magnitude bound under which all fixed-point inputs are kept; products of
/// two such magnitudes divided by `FX_ONE` still fit an `i64` with room to
/// spare.
pub const FX_BOUND: i64 = 0x4000_0000_0000_0000;

pub open spec fn fx_abs(a: int) -> int {
    if a < 0 {
        -a
    } else {
        a
    }
}

/// Fixed-point product `a * b / 2^32`, rounded toward zero.
pub open spec fn fx_mul_spec(a: int, b: int) -> int {
    let m = (fx_abs(a) * fx_abs(b)) / (FX_ONE as int);
    if (a < 0) != (b < 0) {
        -m
    } else {
        m
    }
}

/// Fixed-point quotient `a * 2^32 / b`, rounded toward zero; `b` positive.
pub open spec fn fx_div_spec(a: int, b: int) -> int {
    let m = (fx_abs(a) * (FX_ONE as int)) / b;
    if a < 0 {
        -m
    } else {
        m
    }
}

pub open spec fn fx_clamp_spec(a: int, limit: int) -> int {
    if a > limit {
        limit
    } else if a < -limit {
        -limit
    } else {
        a
    }
}

/// Multiplying by a factor no larger than one in magnitude cannot grow the
/// other operand.
pub proof fn lemma_fx_mul_contracts(a: int, b: int)
    requires
        fx_abs(b) <= FX_ONE,
    ensures
        fx_abs(fx_mul_spec(a, b)) <= fx_abs(a),
{
    lemma_mul_inequality(fx_abs(b), FX_ONE as int, fx_abs(a));
    assert(fx_abs(a) * fx_abs(b) <= fx_abs(a) * (FX_ONE as int)) by {
        lemma_mul_upper_bound(fx_abs(a), fx_abs(a), fx_abs(b), FX_ONE as int);
    }
    lemma_div_is_ordered(fx_abs(a) * fx_abs(b), fx_abs(a) * (FX_ONE as int), FX_ONE as int);
    assert((fx_abs(a) * (FX_ONE as int)) / (FX_ONE as int) == fx_abs(a)) by {
        vstd::arithmetic::div_mod::lemma_div_multiples_vanish(fx_abs(a), FX_ONE as int);
    }
}

/// A product with zero is exactly zero.
pub proof fn lemma_fx_mul_zero(a: int)
    ensures
        fx_mul_spec(a, 0) == 0,
        fx_mul_spec(0, a) == 0,
{
    assert(fx_abs(a) * 0 == 0) by (nonlinear_arith);
    assert(0 * fx_abs(a) == 0) by (nonlinear_arith);
    vstd::arithmetic::div_mod::lemma_div_of0(FX_ONE as int);
}

/// Fixed-point multiplication, exact per `fx_mul_spec`.
pub fn fx_mul(a: i64, b: i64) -> (r: i64)
    requires
        fx_abs(a as int) <= FX_BOUND,
        fx_abs(b as int) <= FX_BOUND,
        fx_abs(a as int) * fx_abs(b as int) <= (i64::MAX as int) * (FX_ONE as int),
    ensures
        r == fx_mul_spec(a as int, b as int),
{
    let neg = (a < 0) != (b < 0);
    let aa: u64 = if a < 0 {
        (-a) as u64
    } else {
        a as u64
    };
    let bb: u64 = if b < 0 {
        (-b) as u64
    } else {
        b as u64
    };
    proof {
        lemma_mul_upper_bound(aa as int, FX_BOUND as int, bb as int, FX_BOUND as int);
    }
    let p: u128 = (aa as u128) * (bb as u128);
    let q: u128 = p / (FX_ONE as u128);
    proof {
        lemma_div_is_ordered(p as int, (i64::MAX as int) * (FX_ONE as int), FX_ONE as int);
        assert(((i64::MAX as int) * (FX_ONE as int)) / (FX_ONE as int) == i64::MAX as int) by {
            vstd::arithmetic::div_mod::lemma_div_multiples_vanish(i64::MAX as int, FX_ONE as int);
        }
    }
    let m: i64 = q as i64;
    if neg {
        -m
    } else {
        m
    }
}

/// Fixed-point division by a positive divisor, exact per `fx_div_spec`.
pub fn fx_div(a: i64, b: i64) -> (r: i64)
    requires
        0 < b,
        fx_abs(a as int) <= FX_BOUND,
        (fx_abs(a as int) * (FX_ONE as int)) / (b as int) <= i64::MAX as int,
    ensures
        r == fx_div_spec(a as int, b as int),
{
    let aa: u64 = if a < 0 {
        (-a) as u64
    } else {
        a as u64
    };
    proof {
        lemma_mul_upper_bound(aa as int, FX_BOUND as int, FX_ONE as int, FX_ONE as int);
    }
    let p: u128 = (aa as u128) * (FX_ONE as u128);
    let q: u128 = p / (b as u128);
    let m: i64 = q as i64;
    if a < 0 {
        -m
    } else {
        m
    }
}

/// The Q32 representation of pi / 2.
pub const FX_PI_HALF: i64 = 6746518852;

/// The magnitude of a rounded-toward-zero product: if the operand bounds
/// multiply out to at most `c * 2^32`, the product's magnitude is at most
/// `c`.
pub proof fn lemma_fx_mul_le(a: int, b: int, ab: int, bb: int, c: int)
    requires
        fx_abs(a) <= ab,
        fx_abs(b) <= bb,
        ab * bb <= c * (FX_ONE as int),
    ensures
        fx_abs(fx_mul_spec(a, b)) <= c,
        fx_abs(a) * fx_abs(b) <= c * (FX_ONE as int),
{
    lemma_mul_upper_bound(fx_abs(a), ab, fx_abs(b), bb);
    lemma_div_is_ordered(fx_abs(a) * fx_abs(b), c * (FX_ONE as int), FX_ONE as int);
    assert((c * (FX_ONE as int)) / (FX_ONE as int) == c) by {
        vstd::arithmetic::mul::lemma_mul_is_commutative(c, FX_ONE as int);
        vstd::arithmetic::div_mod::lemma_div_multiples_vanish(c, FX_ONE as int);
    }
}

/// Magnitude bound on a fixed-point quotient: if the numerator bound
/// scaled by `2^32` is at most `c` times the divisor, the quotient's
/// magnitude is at most `c`.
pub proof fn lemma_fx_div_le(a: int, b: int, ab: int, c: int)
    requires
        fx_abs(a) <= ab,
        0 < b,
        ab * (FX_ONE as int) <= b * c,
    ensures
        fx_abs(fx_div_spec(a, b)) <= c,
        (fx_abs(a) * (FX_ONE as int)) / b <= c,
{
    lemma_mul_inequality(fx_abs(a), ab, FX_ONE as int);
    lemma_div_is_ordered(fx_abs(a) * (FX_ONE as int), ab * (FX_ONE as int), b);
    vstd::arithmetic::div_mod::lemma_multiply_divide_le(ab * (FX_ONE as int), b, c);
}

/// A fixed-point quotient of non-negative operands is non-negative.
pub proof fn lemma_fx_div_nonneg(a: int, b: int)
    requires
        0 <= a,
        0 < b,
    ensures
        0 <= fx_div_spec(a, b),
{
    vstd::arithmetic::mul::lemma_mul_nonnegative(a, FX_ONE as int);
    vstd::arithmetic::div_mod::lemma_div_pos_is_pos(a * (FX_ONE as int), b);
}

/// A product of non-negative factors is non-negative.
pub proof fn lemma_fx_mul_nonneg(a: int, b: int)
    requires
        0 <= a,
        0 <= b,
    ensures
        0 <= fx_mul_spec(a, b),
{
    vstd::arithmetic::mul::lemma_mul_nonnegative(a, b);
    vstd::arithmetic::div_mod::lemma_div_pos_is_pos(a * b, FX_ONE as int);
}

/// First-quadrant sine: a polynomial approximation of `sin(u * pi/2)` for
/// `u` in `[0, 1]`, clamped into `[0, 1]` so that the rounding of the last
/// term can never push it outside the range of a sine.
#[verifier::opaque]
pub open spec fn quarter_sine_spec(u: int) -> int {
    let z = fx_mul_spec(u, FX_PI_HALF as int);
    let z2 = fx_mul_spec(z, z);
    let z3 = fx_mul_spec(z2, z);
    let z5 = fx_mul_spec(z3, z2);
    let z7 = fx_mul_spec(z5, z2);
    let rise = z + z5 / 120;
    let fall = z3 / 6 + z7 / 5040;
    if rise <= fall {
        0
    } else if rise - fall > FX_ONE {
        FX_ONE as int
    } else {
        rise - fall
    }
}

/// Full-turn sine `sin(x * 2 * pi)` for `x` in `[0, 1]`, by quadrant
/// reduction to `quarter_sine_spec`.
#[verifier::opaque]
pub open spec fn sin_two_pi_spec(x: int) -> int {
    let quad = (4 * x) / (FX_ONE as int);
    let u = (4 * x) % (FX_ONE as int);
    if x == FX_ONE {
        0
    } else if quad == 0 {
        quarter_sine_spec(u)
    } else if quad == 1 {
        quarter_sine_spec(FX_ONE - u)
    } else if quad == 2 {
        -quarter_sine_spec(u)
    } else {
        -quarter_sine_spec(FX_ONE - u)
    }
}

/// Full-turn cosine `cos(x * 2 * pi)` for `x` in `[0, 1]`: the sine a
/// quarter turn ahead.
pub open spec fn cos_two_pi_spec(x: int) -> int {
    let y = x + FX_QUARTER;
    if y > FX_ONE {
        sin_two_pi_spec(y - FX_ONE)
    } else {
        sin_two_pi_spec(y)
    }
}

/// First-quadrant sine, exact per `quarter_sine_spec`.
pub fn quarter_sine(u: i64) -> (r: i64)
    requires
        0 <= u <= FX_ONE,
    ensures
        r == quarter_sine_spec(u as int),
        0 <= r <= FX_ONE,
{
    proof {
        reveal(quarter_sine_spec);
        lemma_fx_mul_le(u as int, FX_PI_HALF as int, 0x1_0000_0000, 0x2_0000_0000, 0x2_0000_0000);
        lemma_fx_mul_nonneg(u as int, FX_PI_HALF as int);
    }
    let z = fx_mul(u, FX_PI_HALF);
    proof {
        lemma_fx_mul_le(z as int, z as int, 0x2_0000_0000, 0x2_0000_0000, 0x4_0000_0000);
        lemma_fx_mul_nonneg(z as int, z as int);
    }
    let z2 = fx_mul(z, z);
    proof {
        lemma_fx_mul_le(z2 as int, z as int, 0x4_0000_0000, 0x2_0000_0000, 0x8_0000_0000);
        lemma_fx_mul_nonneg(z2 as int, z as int);
    }
    let z3 = fx_mul(z2, z);
    proof {
        lemma_fx_mul_le(z3 as int, z2 as int, 0x8_0000_0000, 0x4_0000_0000, 0x20_0000_0000);
        lemma_fx_mul_nonneg(z3 as int, z2 as int);
    }
    let z5 = fx_mul(z3, z2);
    proof {
        lemma_fx_mul_le(z5 as int, z2 as int, 0x20_0000_0000, 0x4_0000_0000, 0x80_0000_0000);
        lemma_fx_mul_nonneg(z5 as int, z2 as int);
    }
    let z7 = fx_mul(z5, z2);
    let rise: u64 = (z as u64) + (z5 as u64) / 120;
    let fall: u64 = (z3 as u64) / 6 + (z7 as u64) / 5040;
    if rise <= fall {
        0
    } else {
        let s = rise - fall;
        if s > FX_ONE as u64 {
            FX_ONE
        } else {
            s as i64
        }
    }
}

/// On the first half turn the sine approximation is non-negative, as the
/// sine itself is.
pub proof fn lemma_sin_first_half_nonneg(x: int)
    requires
        0 <= x <= FX_HALF,
    ensures
        0 <= sin_two_pi_spec(x) <= FX_ONE,
{
    reveal(sin_two_pi_spec);
    reveal(quarter_sine_spec);
    let quad = (4 * x) / (FX_ONE as int);
    let u = (4 * x) % (FX_ONE as int);
    vstd::arithmetic::div_mod::lemma_div_pos_is_pos(4 * x, FX_ONE as int);
    vstd::arithmetic::div_mod::lemma_div_is_ordered(4 * x, 0x2_0000_0000, FX_ONE as int);
    vstd::arithmetic::div_mod::lemma_fundamental_div_mod(4 * x, FX_ONE as int);
    if quad == 2 {
        assert(u == 0);
        lemma_fx_mul_zero(FX_PI_HALF as int);
        assert(quarter_sine_spec(0) == 0);
    }
}

/// Full-turn sine, exact per `sin_two_pi_spec`.
pub fn sin_two_pi(x: i64) -> (r: i64)
    requires
        0 <= x <= FX_ONE,
    ensures
        r == sin_two_pi_spec(x as int),
        fx_abs(r as int) <= FX_ONE,
{
    proof {
        reveal(sin_two_pi_spec);
    }
    if x == FX_ONE {
        return 0;
    }
    let q: u64 = 4 * (x as u64);
    let quad: u64 = q / (FX_ONE as u64);
    let u: i64 = (q % (FX_ONE as u64)) as i64;
    if quad == 0 {
        quarter_sine(u)
    } else if quad == 1 {
        quarter_sine(FX_ONE - u)
    } else if quad == 2 {
        -quarter_sine(u)
    } else {
        -quarter_sine(FX_ONE - u)
    }
}

/// Full-turn cosine, exact per `cos_two_pi_spec`.
pub fn cos_two_pi(x: i64) -> (r: i64)
    requires
        0 <= x <= FX_ONE,
    ensures
        r == cos_two_pi_spec(x as int),
        fx_abs(r as int) <= FX_ONE,
{
    let y = x + FX_QUARTER;
    if y > FX_ONE {
        sin_two_pi(y - FX_ONE)
    } else {
        sin_two_pi(y)
    }
}

/// The rounded product does not depend on the order of its operands.
pub proof fn lemma_fx_mul_swap(a: int, b: int)
    ensures
        fx_mul_spec(a, b) == fx_mul_spec(b, a),
{
    vstd::arithmetic::mul::lemma_mul_is_commutative(fx_abs(a), fx_abs(b));
}

/// The rounded product is monotone in its first operand over non-negative
/// values.
pub proof fn lemma_fx_mul_mono(a1: int, a2: int, b: int)
    requires
        0 <= a1 <= a2,
        0 <= b,
    ensures
        fx_mul_spec(a1, b) <= fx_mul_spec(a2, b),
{
    lemma_mul_inequality(a1, a2, b);
    lemma_div_is_ordered(a1 * b, a2 * b, FX_ONE as int);
}

/// The floor of the square root, as the unique non-negative integer whose
/// square does not exceed `x` while the next square does.
#[verifier::opaque]
pub open spec fn floor_sqrt(x: int) -> int {
    choose|r: int| 0 <= r && #[trigger] (r * r) <= x < (r + 1) * (r + 1)
}

/// A floor square root exists for every non-negative integer.
pub proof fn lemma_floor_sqrt_exists(x: int)
    requires
        0 <= x,
    ensures
        exists|r: int| 0 <= r && #[trigger] (r * r) <= x < (r + 1) * (r + 1),
    decreases x,
{
    if x == 0 {
        assert(0 * 0 <= 0 < (0 + 1) * (0 + 1)) by (nonlinear_arith);
    } else {
        lemma_floor_sqrt_exists(x - 1);
        let r = choose|r: int| 0 <= r && #[trigger] (r * r) <= x - 1 < (r + 1) * (r + 1);
        if (r + 1) * (r + 1) <= x {
            assert((r + 1) * (r + 1) <= x < (r + 2) * (r + 2)) by (nonlinear_arith)
                requires
                    0 <= r,
                    x - 1 < (r + 1) * (r + 1) <= x,
            ;
            assert(0 <= r + 1 && (r + 1) * (r + 1) <= x < (r + 2) * (r + 2));
        } else {
            assert(0 <= r && r * r <= x < (r + 1) * (r + 1));
        }
    }
}

/// The characterization pins the value of `floor_sqrt` down.
pub proof fn lemma_floor_sqrt_unique(x: int, r: int)
    requires
        0 <= r,
        r * r <= x < (r + 1) * (r + 1),
    ensures
        floor_sqrt(x) == r,
{
    reveal(floor_sqrt);
    assert(exists|s: int| 0 <= s && #[trigger] (s * s) <= x < (s + 1) * (s + 1));
    let s = floor_sqrt(x);
    assert(0 <= s && s * s <= x < (s + 1) * (s + 1));
    if s < r {
        assert((s + 1) * (s + 1) <= r * r) by (nonlinear_arith)
            requires
                0 <= s,
                s + 1 <= r,
        ;
    }
    if r < s {
        assert((r + 1) * (r + 1) <= s * s) by (nonlinear_arith)
            requires
                0 <= r,
                r + 1 <= s,
        ;
    }
}

/// The floor square root is monotone.
pub proof fn lemma_floor_sqrt_mono(x: int, y: int)
    requires
        0 <= x <= y,
    ensures
        floor_sqrt(x) <= floor_sqrt(y),
{
    reveal(floor_sqrt);
    lemma_floor_sqrt_exists(x);
    lemma_floor_sqrt_exists(y);
    let rx = floor_sqrt(x);
    let ry = floor_sqrt(y);
    assert(0 <= rx && rx * rx <= x < (rx + 1) * (rx + 1));
    assert(0 <= ry && ry * ry <= y < (ry + 1) * (ry + 1));
    if ry < rx {
        assert((ry + 1) * (ry + 1) <= rx * rx) by (nonlinear_arith)
            requires
                0 <= ry,
                ry + 1 <= rx,
        ;
    }
}

/// Square root in Q32: `floor(sqrt(x) * 2^16 * ...)`, i.e. the floor
/// square root of `x * 2^32`, which maps `[0, 1]` onto `[0, 1]` exactly at
/// both ends.
pub open spec fn sqrt_fx_spec(x: int) -> int {
    floor_sqrt(x * (FX_ONE as int))
}

/// On `[0, 1]` the Q32 square root stays in `[0, 1]` and fixes one.
pub proof fn lemma_sqrt_fx_bounds(x: int)
    requires
        0 <= x <= FX_ONE,
    ensures
        0 <= sqrt_fx_spec(x) <= FX_ONE,
        x == FX_ONE ==> sqrt_fx_spec(x) == FX_ONE,
{
    let n = x * (FX_ONE as int);
    assert(0 <= x * (FX_ONE as int) <= (FX_ONE as int) * (FX_ONE as int)) by (nonlinear_arith)
        requires
            0 <= x <= FX_ONE,
    ;
    reveal(floor_sqrt);
    lemma_floor_sqrt_exists(n);
    let r = floor_sqrt(n);
    assert(0 <= r && r * r <= n < (r + 1) * (r + 1));
    if r > FX_ONE {
        assert((FX_ONE as int + 1) * (FX_ONE as int + 1) <= r * r) by (nonlinear_arith)
            requires
                FX_ONE as int + 1 <= r,
        ;
    }
    if x == FX_ONE {
        lemma_floor_sqrt_unique(n, FX_ONE as int);
    }
}

/// Binary-search floor square root of a 128-bit value.
pub fn isqrt128(n: u128) -> (r: u64)
    ensures
        (r as int) * (r as int) <= (n as int) < ((r as int) + 1) * ((r as int) + 1),
{
    let mut lo: u64 = 0;
    let mut hi: u64 = 0xFFFF_FFFF_FFFF_FFFF;
    proof {
        assert((0xFFFF_FFFF_FFFF_FFFFu64 as int + 1) * (0xFFFF_FFFF_FFFF_FFFFu64 as int + 1) > n
            as int) by (nonlinear_arith)
            requires
                n <= u128::MAX,
        ;
    }
    while lo < hi
        invariant
            lo <= hi,
            (lo as int) * (lo as int) <= n as int,
            (n as int) < ((hi as int) + 1) * ((hi as int) + 1),
        decreases hi - lo,
    {
        let mid = lo + 1 + (hi - lo - 1) / 2;
        proof {
            lemma_mul_upper_bound(
                mid as int,
                0xFFFF_FFFF_FFFF_FFFF,
                mid as int,
                0xFFFF_FFFF_FFFF_FFFF,
            );
        }
        if (mid as u128) * (mid as u128) <= n {
            lo = mid;
        } else {
            hi = mid - 1;
        }
    }
    lo
}

/// Square root in Q32, exact per `sqrt_fx_spec`.
pub fn sqrt_fx(x: i64) -> (r: i64)
    requires
        0 <= x <= FX_ONE,
    ensures
        r == sqrt_fx_spec(x as int),
        0 <= r <= FX_ONE,
{
    proof {
        lemma_mul_upper_bound(x as int, FX_ONE as int, FX_ONE as int, FX_ONE as int);
    }
    let n: u128 = (x as u128) * (FX_ONE as u128);
    let root = isqrt128(n);
    proof {
        lemma_floor_sqrt_unique(n as int, root as int);
        lemma_sqrt_fx_bounds(x as int);
    }
    root as i64
}

/// `x^0.7` on `[0, 1]`, approximated as the product of the iterated
/// square roots picked by the binary digits of 0.7: exponent
/// `1/2 + 1/8 + 1/16 + 1/128 + 1/256 + 1/2048 + 1/4096`.
#[verifier::opaque]
pub open spec fn pow07_spec(x: int) -> int {
    let s1 = sqrt_fx_spec(x);
    let s2 = sqrt_fx_spec(s1);
    let s3 = sqrt_fx_spec(s2);
    let s4 = sqrt_fx_spec(s3);
    let s5 = sqrt_fx_spec(s4);
    let s6 = sqrt_fx_spec(s5);
    let s7 = sqrt_fx_spec(s6);
    let s8 = sqrt_fx_spec(s7);
    let s9 = sqrt_fx_spec(s8);
    let s10 = sqrt_fx_spec(s9);
    let s11 = sqrt_fx_spec(s10);
    let s12 = sqrt_fx_spec(s11);
    fx_mul_spec(
        fx_mul_spec(
            fx_mul_spec(fx_mul_spec(fx_mul_spec(fx_mul_spec(s1, s3), s4), s7), s8),
            s11,
        ),
        s12,
    )
}

/// `x^0.7`, exact per `pow07_spec`.
pub fn pow07(x: i64) -> (r: i64)
    requires
        0 <= x <= FX_ONE,
    ensures
        r == pow07_spec(x as int),
        0 <= r <= FX_ONE,
{
    let s1 = sqrt_fx(x);
    let s2 = sqrt_fx(s1);
    let s3 = sqrt_fx(s2);
    let s4 = sqrt_fx(s3);
    let s5 = sqrt_fx(s4);
    let s6 = sqrt_fx(s5);
    let s7 = sqrt_fx(s6);
    let s8 = sqrt_fx(s7);
    let s9 = sqrt_fx(s8);
    let s10 = sqrt_fx(s9);
    let s11 = sqrt_fx(s10);
    let s12 = sqrt_fx(s11);
    proof {
        reveal(pow07_spec);
        lemma_fx_mul_nonneg(s1 as int, s3 as int);
        lemma_fx_mul_le(s1 as int, s3 as int, 0x1_0000_0000, 0x1_0000_0000, 0x1_0000_0000);
        lemma_fx_mul_nonneg(fx_mul_spec(s1 as int, s3 as int), s4 as int);
        lemma_fx_mul_le(
            fx_mul_spec(s1 as int, s3 as int),
            s4 as int,
            0x1_0000_0000,
            0x1_0000_0000,
            0x1_0000_0000,
        );
    }
    let m1 = fx_mul(s1, s3);
    let m2 = fx_mul(m1, s4);
    proof {
        lemma_fx_mul_nonneg(m2 as int, s7 as int);
        lemma_fx_mul_le(m2 as int, s7 as int, 0x1_0000_0000, 0x1_0000_0000, 0x1_0000_0000);
    }
    let m3 = fx_mul(m2, s7);
    proof {
        lemma_fx_mul_nonneg(m3 as int, s8 as int);
        lemma_fx_mul_le(m3 as int, s8 as int, 0x1_0000_0000, 0x1_0000_0000, 0x1_0000_0000);
    }
    let m4 = fx_mul(m3, s8);
    proof {
        lemma_fx_mul_nonneg(m4 as int, s11 as int);
        lemma_fx_mul_le(m4 as int, s11 as int, 0x1_0000_0000, 0x1_0000_0000, 0x1_0000_0000);
    }
    let m5 = fx_mul(m4, s11);
    proof {
        lemma_fx_mul_nonneg(m5 as int, s12 as int);
        lemma_fx_mul_le(m5 as int, s12 as int, 0x1_0000_0000, 0x1_0000_0000, 0x1_0000_0000);
    }
    fx_mul(m5, s12)
}

/// The Q32 square root of a unit-interval value never exceeds one, and is
/// monotone.
pub proof fn lemma_sqrt_fx_mono(x: int, y: int)
    requires
        0 <= x <= y,
    ensures
        sqrt_fx_spec(x) <= sqrt_fx_spec(y),
{
    lemma_mul_inequality(x, y, FX_ONE as int);
    lemma_floor_sqrt_mono(x * (FX_ONE as int), y * (FX_ONE as int));
}

/// `x^0.7` is monotone on `[0, 1]`: more input, no less output.
pub proof fn lemma_pow07_mono(x: int, y: int)
    requires
        0 <= x <= y <= FX_ONE,
    ensures
        pow07_spec(x) <= pow07_spec(y),
{
    reveal(pow07_spec);
    let x1 = sqrt_fx_spec(x);
    let y1 = sqrt_fx_spec(y);
    lemma_sqrt_fx_mono(x, y);
    lemma_sqrt_fx_bounds(x);
    lemma_sqrt_fx_bounds(y);
    let x2 = sqrt_fx_spec(x1);
    let y2 = sqrt_fx_spec(y1);
    lemma_sqrt_fx_mono(x1, y1);
    lemma_sqrt_fx_bounds(x1);
    lemma_sqrt_fx_bounds(y1);
    let x3 = sqrt_fx_spec(x2);
    let y3 = sqrt_fx_spec(y2);
    lemma_sqrt_fx_mono(x2, y2);
    lemma_sqrt_fx_bounds(x2);
    lemma_sqrt_fx_bounds(y2);
    let x4 = sqrt_fx_spec(x3);
    let y4 = sqrt_fx_spec(y3);
    lemma_sqrt_fx_mono(x3, y3);
    lemma_sqrt_fx_bounds(x3);
    lemma_sqrt_fx_bounds(y3);
    let x5 = sqrt_fx_spec(x4);
    let y5 = sqrt_fx_spec(y4);
    lemma_sqrt_fx_mono(x4, y4);
    lemma_sqrt_fx_bounds(x4);
    lemma_sqrt_fx_bounds(y4);
    let x6 = sqrt_fx_spec(x5);
    let y6 = sqrt_fx_spec(y5);
    lemma_sqrt_fx_mono(x5, y5);
    lemma_sqrt_fx_bounds(x5);
    lemma_sqrt_fx_bounds(y5);
    let x7 = sqrt_fx_spec(x6);
    let y7 = sqrt_fx_spec(y6);
    lemma_sqrt_fx_mono(x6, y6);
    lemma_sqrt_fx_bounds(x6);
    lemma_sqrt_fx_bounds(y6);
    let x8 = sqrt_fx_spec(x7);
    let y8 = sqrt_fx_spec(y7);
    lemma_sqrt_fx_mono(x7, y7);
    lemma_sqrt_fx_bounds(x7);
    lemma_sqrt_fx_bounds(y7);
    let x9 = sqrt_fx_spec(x8);
    let y9 = sqrt_fx_spec(y8);
    lemma_sqrt_fx_mono(x8, y8);
    lemma_sqrt_fx_bounds(x8);
    lemma_sqrt_fx_bounds(y8);
    let x10 = sqrt_fx_spec(x9);
    let y10 = sqrt_fx_spec(y9);
    lemma_sqrt_fx_mono(x9, y9);
    lemma_sqrt_fx_bounds(x9);
    lemma_sqrt_fx_bounds(y9);
    let x11 = sqrt_fx_spec(x10);
    let y11 = sqrt_fx_spec(y10);
    lemma_sqrt_fx_mono(x10, y10);
    lemma_sqrt_fx_bounds(x10);
    lemma_sqrt_fx_bounds(y10);
    let x12 = sqrt_fx_spec(x11);
    let y12 = sqrt_fx_spec(y11);
    lemma_sqrt_fx_mono(x11, y11);
    lemma_sqrt_fx_bounds(x11);
    lemma_sqrt_fx_bounds(y11);
    lemma_fx_mul_prod_mono(x1, x3, y1, y3);
    let px2 = fx_mul_spec(x1, x3);
    let py2 = fx_mul_spec(y1, y3);
    lemma_fx_mul_prod_mono(px2, x4, py2, y4);
    let px3 = fx_mul_spec(px2, x4);
    let py3 = fx_mul_spec(py2, y4);
    lemma_fx_mul_prod_mono(px3, x7, py3, y7);
    let px4 = fx_mul_spec(px3, x7);
    let py4 = fx_mul_spec(py3, y7);
    lemma_fx_mul_prod_mono(px4, x8, py4, y8);
    let px5 = fx_mul_spec(px4, x8);
    let py5 = fx_mul_spec(py4, y8);
    lemma_fx_mul_prod_mono(px5, x11, py5, y11);
    let px6 = fx_mul_spec(px5, x11);
    let py6 = fx_mul_spec(py5, y11);
    lemma_fx_mul_prod_mono(px6, x12, py6, y12);
}

/// The rounded product is monotone when both operands grow over
/// non-negative values, and stays non-negative.
pub proof fn lemma_fx_mul_prod_mono(a1: int, b1: int, a2: int, b2: int)
    requires
        0 <= a1 <= a2,
        0 <= b1 <= b2,
    ensures
        fx_mul_spec(a1, b1) <= fx_mul_spec(a2, b2),
        0 <= fx_mul_spec(a1, b1),
{
    lemma_fx_mul_nonneg(a1, b1);
    lemma_fx_mul_mono(a1, a2, b1);
    lemma_fx_mul_swap(a2, b1);
    lemma_fx_mul_swap(a2, b2);
    lemma_fx_mul_mono(b1, b2, a2);
}

/// Clamp `a` into `[-limit, limit]`.
pub fn fx_clamp(a: i64, limit: i64) -> (r: i64)
    requires
        0 <= limit,
    ensures
        r == fx_clamp_spec(a as int, limit as int),
        fx_abs(r as int) <= limit,
{
    if a > limit {
        limit
    } else if a < -limit {
        -limit
    } else {
        a
    }
}

} // verus!
