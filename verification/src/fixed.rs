//! Fixed-point scalar arithmetic.
//!
//! Every scalar quantity of the simulation (a coordinate, a velocity
//! component, a density, a force) is an `i64` holding the underlying real
//! value multiplied by `SCALE`.  All operations saturate at `FX_MAX` in
//! magnitude, so they are total over the representable range and never
//! overflow or panic.

use vstd::prelude::*;

verus! {

/// One unit of the simulation's coordinate space, in fixed-point ticks.
pub const SCALE: i64 = 1_000_000_000;

/// Largest magnitude a fixed-point scalar may take; every operation clips
/// its result into `[-FX_MAX, FX_MAX]`.
pub const FX_MAX: i64 = 2_000_000_000_000_000_000;

/// The circle constant, in fixed-point ticks.
pub const PI_FX: i64 = 3_141_592_653;

/// Mathematical absolute value.
pub open spec fn iabs(v: int) -> int {
    if v < 0 {
        -v
    } else {
        v
    }
}

/// A scalar that every saturating operation can produce.
pub open spec fn fx_in_range(v: int) -> bool {
    -(FX_MAX as int) <= v <= FX_MAX as int
}

/// Saturation into the representable range.
pub open spec fn fx_clip(v: int) -> int {
    if v > FX_MAX as int {
        FX_MAX as int
    } else if v < -(FX_MAX as int) {
        -(FX_MAX as int)
    } else {
        v
    }
}

/// Fixed-point product before saturation: the magnitudes are multiplied,
/// rescaled by flooring, and the sign is reapplied, so negating either
/// factor exactly negates the product.
pub open spec fn mul_trunc(a: int, b: int) -> int {
    if (a < 0) != (b < 0) {
        -((iabs(a) * iabs(b)) / (SCALE as int))
    } else {
        (iabs(a) * iabs(b)) / (SCALE as int)
    }
}

/// Saturating fixed-point product.
pub open spec fn fx_mul_s(a: int, b: int) -> int {
    fx_clip(mul_trunc(a, b))
}

/// Fixed-point quotient before saturation, sign-magnitude like `mul_trunc`.
pub open spec fn div_trunc(a: int, b: int) -> int
    recommends
        b != 0,
{
    if (a < 0) != (b < 0) {
        -((iabs(a) * (SCALE as int)) / iabs(b))
    } else {
        (iabs(a) * (SCALE as int)) / iabs(b)
    }
}

/// Saturating fixed-point quotient.
pub open spec fn fx_div_s(a: int, b: int) -> int {
    fx_clip(div_trunc(a, b))
}

/// Saturating sum.
pub open spec fn fx_add_s(a: int, b: int) -> int {
    fx_clip(a + b)
}

/// Saturating difference.
pub open spec fn fx_sub_s(a: int, b: int) -> int {
    fx_clip(a - b)
}

/// Saturating negation.
pub open spec fn fx_neg_s(a: int) -> int {
    fx_clip(-a)
}

/// The larger of two scalars.
pub open spec fn fx_max_s(a: int, b: int) -> int {
    if a >= b {
        a
    } else {
        b
    }
}

/// `r` is the floor of the square root of `n`.
pub open spec fn is_sqrt_floor(n: int, r: int) -> bool {
    0 <= r && r * r <= n && n < (r + 1) * (r + 1)
}

/// Floor of the square root of a non-negative integer.
pub open spec fn sqrt_floor(n: int) -> int
    recommends
        0 <= n,
{
    choose|r: int| is_sqrt_floor(n, r)
}

/// A witness of `is_sqrt_floor` pins `sqrt_floor` down: square roots are unique.
pub proof fn lemma_sqrt_floor_is(n: int, r: int)
    requires
        is_sqrt_floor(n, r),
    ensures
        sqrt_floor(n) == r,
{
    assert(exists|x: int| is_sqrt_floor(n, x)) by {
        assert(is_sqrt_floor(n, r));
    }
    let r2 = sqrt_floor(n);
    assert(is_sqrt_floor(n, r2));
    assert(r == r2) by (nonlinear_arith)
        requires
            0 <= r,
            r * r <= n,
            n < (r + 1) * (r + 1),
            0 <= r2,
            r2 * r2 <= n,
            n < (r2 + 1) * (r2 + 1);
}

/// A floor square root exists for every non-negative integer.
pub proof fn lemma_sqrt_floor_exists(n: int)
    requires
        0 <= n,
    ensures
        is_sqrt_floor(n, sqrt_floor(n)),
    decreases n,
{
    if n == 0 {
        assert(is_sqrt_floor(0, 0));
        assert(exists|x: int| is_sqrt_floor(n, x));
    } else {
        lemma_sqrt_floor_exists(n - 1);
        let r = sqrt_floor(n - 1);
        if n < (r + 1) * (r + 1) {
            assert(is_sqrt_floor(n, r));
        } else {
            assert(is_sqrt_floor(n, r + 1)) by (nonlinear_arith)
                requires
                    0 <= r,
                    r * r <= n - 1,
                    n - 1 < (r + 1) * (r + 1),
                    (r + 1) * (r + 1) <= n;
        }
        assert(exists|x: int| is_sqrt_floor(n, x));
    }
}

/// The floor square root of a positive integer is positive.
pub proof fn lemma_sqrt_floor_pos(n: int)
    requires
        1 <= n,
    ensures
        1 <= sqrt_floor(n),
{
    lemma_sqrt_floor_exists(n);
    let r = sqrt_floor(n);
    if r == 0 {
        assert(n < 1);
    }
}

/// Saturating absolute value.
pub open spec fn fx_abs_s(a: int) -> int {
    fx_clip(iabs(a))
}

/// Magnitude of an `i64`, widened so that `i64::MIN` needs no special case.
pub(crate) fn abs_u128(a: i64) -> (r: u128)
    ensures
        r as int == iabs(a as int),
{
    let w: i128 = a as i128;
    let m: i128 = if w < 0 {
        -w
    } else {
        w
    };
    m as u128
}

/// Clip a wide signed value into the representable scalar range.
pub(crate) fn clip_i128(s: i128) -> (r: i64)
    ensures
        r as int == fx_clip(s as int),
{
    if s > FX_MAX as i128 {
        FX_MAX
    } else if s < -(FX_MAX as i128) {
        -FX_MAX
    } else {
        s as i64
    }
}

/// Reapply a sign to an unsigned magnitude and saturate.
fn fx_saturate(q: u128, neg: bool) -> (r: i64)
    ensures
        r as int == if neg {
            fx_clip(-(q as int))
        } else {
            fx_clip(q as int)
        },
{
    let qc: u128 = if q > FX_MAX as u128 {
        FX_MAX as u128
    } else {
        q
    };
    let v: i64 = qc as i64;
    if neg {
        -v
    } else {
        v
    }
}

/// Saturating fixed-point multiplication.
pub fn fx_mul(a: i64, b: i64) -> (r: i64)
    ensures
        r as int == fx_mul_s(a as int, b as int),
{
    let neg = (a < 0) != (b < 0);
    let am = abs_u128(a);
    let bm = abs_u128(b);
    proof {
        assert(am * bm <= 0x40000000000000000000000000000000int) by (nonlinear_arith)
            requires
                0 <= am <= 0x8000000000000000int,
                0 <= bm <= 0x8000000000000000int;
    }
    let p: u128 = am * bm;
    let q: u128 = p / (SCALE as u128);
    fx_saturate(q, neg)
}

/// Saturating fixed-point division; the divisor must not be zero.
pub fn fx_div(a: i64, b: i64) -> (r: i64)
    requires
        b != 0,
    ensures
        r as int == fx_div_s(a as int, b as int),
{
    let neg = (a < 0) != (b < 0);
    let am = abs_u128(a);
    let bm = abs_u128(b);
    proof {
        assert(am * (SCALE as u128) <= 0x40000000000000000000000000000000int) by (nonlinear_arith)
            requires
                0 <= am <= 0x8000000000000000int,
                0 < (SCALE as u128) <= 0x8000000000000000int;
    }
    let p: u128 = am * (SCALE as u128);
    let q: u128 = p / bm;
    fx_saturate(q, neg)
}

/// Saturating addition.
pub fn fx_add(a: i64, b: i64) -> (r: i64)
    ensures
        r as int == fx_add_s(a as int, b as int),
{
    clip_i128(a as i128 + b as i128)
}

/// Saturating subtraction.
pub fn fx_sub(a: i64, b: i64) -> (r: i64)
    ensures
        r as int == fx_sub_s(a as int, b as int),
{
    clip_i128(a as i128 - b as i128)
}

/// Saturating negation.
pub fn fx_neg(a: i64) -> (r: i64)
    ensures
        r as int == fx_neg_s(a as int),
{
    clip_i128(-(a as i128))
}

/// Saturating absolute value.
pub fn fx_abs(a: i64) -> (r: i64)
    ensures
        r as int == fx_abs_s(a as int),
{
    if a < 0 {
        clip_i128(-(a as i128))
    } else {
        clip_i128(a as i128)
    }
}

/// The larger of two scalars.
pub fn fx_max(a: i64, b: i64) -> (r: i64)
    ensures
        r as int == fx_max_s(a as int, b as int),
{
    if a >= b {
        a
    } else {
        b
    }
}

/// Floor of the square root of an arbitrary `u128`.
pub fn isqrt_u128(n: u128) -> (r: u64)
    ensures
        is_sqrt_floor(n as int, r as int),
{
    let mut lo: u128 = 0;
    let mut hi: u128 = 0x10000000000000000;
    proof {
        assert((hi as int) * (hi as int) > n as int) by (nonlinear_arith)
            requires
                hi as int == 0x10000000000000000int,
                (n as int) < 0x100000000000000000000000000000000int;
    }
    while lo + 1 < hi
        invariant
            lo < hi <= 0x10000000000000000u128,
            (lo as int) * (lo as int) <= n as int,
            (n as int) < (hi as int) * (hi as int),
        decreases hi - lo,
    {
        let mid: u128 = lo + (hi - lo) / 2;
        proof {
            assert(lo < mid < hi);
            assert(mid * mid < 0x100000000000000000000000000000000int) by (nonlinear_arith)
                requires
                    0 <= mid,
                    mid < 0x10000000000000000int;
        }
        if mid * mid <= n {
            lo = mid;
        } else {
            hi = mid;
        }
    }
    lo as u64
}

/// Fixed-point square root of a non-negative scalar: the real square root
/// of `a / SCALE`, rescaled, is the integer square root of `a * SCALE`.
pub open spec fn fx_sqrt_s(a: int) -> int
    recommends
        0 <= a,
{
    fx_clip(sqrt_floor(a * (SCALE as int)))
}

/// Fixed-point square root.
pub fn fx_sqrt(a: i64) -> (r: i64)
    requires
        0 <= a,
    ensures
        r as int == fx_sqrt_s(a as int),
        0 <= r,
{
    proof {
        assert((a as int) * (SCALE as int) < 0x100000000000000000000000000000000int)
            by (nonlinear_arith)
            requires
                0 <= a < 0x8000000000000000int,
                0 < SCALE as int,
                (SCALE as int) < 0x10000000000int;
    }
    let n: u128 = (a as u128) * (SCALE as u128);
    let s: u64 = isqrt_u128(n);
    proof {
        lemma_sqrt_floor_is(n as int, s as int);
    }
    if s > FX_MAX as u64 {
        FX_MAX
    } else {
        s as i64
    }
}

/// A fixed-point square is non-negative.
pub proof fn lemma_fx_square_nonneg(a: int)
    ensures
        0 <= fx_mul_s(a, a),
        0 <= mul_trunc(a, a),
{
    assert(0 <= (iabs(a) * iabs(a)) / (SCALE as int)) by (nonlinear_arith)
        requires
            0 <= iabs(a),
            0 < SCALE as int;
}

/// The product of non-negative scalars is non-negative.
pub proof fn lemma_fx_mul_nonneg(a: int, b: int)
    requires
        0 <= a,
        0 <= b,
    ensures
        0 <= fx_mul_s(a, b),
        0 <= mul_trunc(a, b),
{
    assert(0 <= (a * b) / (SCALE as int)) by (nonlinear_arith)
        requires
            0 <= a,
            0 <= b,
            0 < SCALE as int;
}

/// The quotient of non-negative scalars is non-negative.
pub proof fn lemma_fx_div_nonneg(a: int, b: int)
    requires
        0 <= a,
        0 < b,
    ensures
        0 <= fx_div_s(a, b),
{
    assert(0 <= (a * (SCALE as int)) / b) by (nonlinear_arith)
        requires
            0 <= a,
            0 < b;
}

/// Multiplying by zero gives zero exactly.
pub proof fn lemma_fx_mul_zero(a: int)
    ensures
        fx_mul_s(a, 0) == 0,
        fx_mul_s(0, a) == 0,
{
    assert(iabs(a) * 0 == 0) by (nonlinear_arith);
    assert(0 * iabs(a) == 0) by (nonlinear_arith);
}

/// Scaling by a factor of magnitude at most one never increases magnitude.
pub proof fn lemma_fx_mul_shrinks(v: int, d: int)
    requires
        0 <= d <= SCALE as int,
    ensures
        iabs(fx_mul_s(v, d)) <= iabs(v),
{
    assert((iabs(v) * d) / (SCALE as int) <= iabs(v)) by (nonlinear_arith)
        requires
            0 <= iabs(v),
            0 <= d <= SCALE as int,
            0 < SCALE as int;
}

} // verus!

