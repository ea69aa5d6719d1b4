//! Two-dimensional fixed-point vectors.
//!
//! `Pair` is the executable vector type; its mathematical view is `Vec2i`,
//! a pair of unbounded integers, over which all contracts are stated.

use vstd::prelude::*;

use crate::fixed::FX_MAX;
use crate::fixed::abs_u128;
use crate::fixed::fx_abs;
use crate::fixed::fx_abs_s;
use crate::fixed::fx_add;
use crate::fixed::fx_add_s;
use crate::fixed::fx_clip;
use crate::fixed::fx_div;
use crate::fixed::fx_div_s;
use crate::fixed::fx_in_range;
use crate::fixed::fx_mul;
use crate::fixed::fx_mul_s;
use crate::fixed::fx_neg;
use crate::fixed::fx_neg_s;
use crate::fixed::fx_sub;
use crate::fixed::fx_sub_s;
use crate::fixed::iabs;
use crate::fixed::isqrt_u128;
use crate::fixed::lemma_sqrt_floor_is;
use crate::fixed::sqrt_floor;

verus! {

/// Mathematical model of a vector: both components as unbounded integers.
pub ghost struct Vec2i {
    pub x: int,
    pub y: int,
}

/// A 2D vector of fixed-point scalars.
#[derive(Clone, Copy, PartialEq, Eq, Structural, Debug)]
pub struct Pair {
    pub x: i64,
    pub y: i64,
}

impl View for Pair {
    type V = Vec2i;

    open spec fn view(&self) -> Vec2i {
        Vec2i { x: self.x as int, y: self.y as int }
    }
}

/// Both components lie in the representable scalar range.
pub open spec fn v2_in_range(v: Vec2i) -> bool {
    fx_in_range(v.x) && fx_in_range(v.y)
}

/// The zero vector.
pub open spec fn v2_zero() -> Vec2i {
    Vec2i { x: 0, y: 0 }
}

/// Componentwise saturating sum.
pub open spec fn v2_add(a: Vec2i, b: Vec2i) -> Vec2i {
    Vec2i { x: fx_add_s(a.x, b.x), y: fx_add_s(a.y, b.y) }
}

/// Componentwise saturating difference.
pub open spec fn v2_sub(a: Vec2i, b: Vec2i) -> Vec2i {
    Vec2i { x: fx_sub_s(a.x, b.x), y: fx_sub_s(a.y, b.y) }
}

/// Componentwise saturating negation.
pub open spec fn v2_neg(a: Vec2i) -> Vec2i {
    Vec2i { x: fx_neg_s(a.x), y: fx_neg_s(a.y) }
}

/// Componentwise saturating absolute value.
pub open spec fn v2_abs(a: Vec2i) -> Vec2i {
    Vec2i { x: fx_abs_s(a.x), y: fx_abs_s(a.y) }
}

/// Vector scaled by a fixed-point scalar.
pub open spec fn v2_scale(a: Vec2i, s: int) -> Vec2i {
    Vec2i { x: fx_mul_s(a.x, s), y: fx_mul_s(a.y, s) }
}

/// Vector divided by a fixed-point scalar.
pub open spec fn v2_div(a: Vec2i, s: int) -> Vec2i
    recommends
        s != 0,
{
    Vec2i { x: fx_div_s(a.x, s), y: fx_div_s(a.y, s) }
}

/// Fixed-point dot product.
pub open spec fn v2_dot(a: Vec2i, b: Vec2i) -> int {
    fx_add_s(fx_mul_s(a.x, b.x), fx_mul_s(a.y, b.y))
}

/// Fixed-point magnitude: the floor of the Euclidean norm, saturated.
pub open spec fn v2_norm(a: Vec2i) -> int {
    fx_clip(sqrt_floor(a.x * a.x + a.y * a.y))
}

/// Fixed-point distance between two points.
pub open spec fn v2_dist(a: Vec2i, b: Vec2i) -> int {
    fx_clip(sqrt_floor((a.x - b.x) * (a.x - b.x) + (a.y - b.y) * (a.y - b.y)))
}

/// Normalization to (fixed-point) unit length, or zero for the zero vector.
pub open spec fn v2_normalize_or_zero(a: Vec2i) -> Vec2i {
    if v2_norm(a) > 0 {
        v2_div(a, v2_norm(a))
    } else {
        v2_zero()
    }
}

/// Normalization that leaves the zero vector unchanged.
pub open spec fn v2_normalize(a: Vec2i) -> Vec2i {
    if v2_norm(a) == 0 {
        a
    } else {
        v2_div(a, v2_norm(a))
    }
}

/// The fixed-point cross-product pair, as the reference formulas give it.
pub open spec fn v2_cross(a: Vec2i, b: Vec2i) -> Vec2i {
    Vec2i {
        x: fx_sub_s(fx_mul_s(a.x, b.y), fx_mul_s(a.y, b.x)),
        y: fx_sub_s(fx_mul_s(a.y, b.x), fx_mul_s(a.x, b.y)),
    }
}

/// Saturate a non-negative square root into the scalar range.
fn clip_sqrt(s: u64) -> (r: i64)
    ensures
        r as int == fx_clip(s as int),
{
    if s > FX_MAX as u64 {
        FX_MAX
    } else {
        s as i64
    }
}

impl Pair {
    pub fn new(x: i64, y: i64) -> (r: Pair)
        ensures
            r@ == (Vec2i { x: x as int, y: y as int }),
    {
        Pair { x, y }
    }

    pub fn abs(&self) -> (r: Pair)
        ensures
            r@ == v2_abs(self@),
    {
        Pair { x: fx_abs(self.x), y: fx_abs(self.y) }
    }

    pub fn add(self, other: Pair) -> (r: Pair)
        ensures
            r@ == v2_add(self@, other@),
    {
        Pair { x: fx_add(self.x, other.x), y: fx_add(self.y, other.y) }
    }

    pub fn sub(self, other: Pair) -> (r: Pair)
        ensures
            r@ == v2_sub(self@, other@),
    {
        Pair { x: fx_sub(self.x, other.x), y: fx_sub(self.y, other.y) }
    }

    pub fn neg(self) -> (r: Pair)
        ensures
            r@ == v2_neg(self@),
    {
        Pair { x: fx_neg(self.x), y: fx_neg(self.y) }
    }

    pub fn mul(self, scalar: i64) -> (r: Pair)
        ensures
            r@ == v2_scale(self@, scalar as int),
    {
        Pair { x: fx_mul(self.x, scalar), y: fx_mul(self.y, scalar) }
    }

    pub fn div(self, scalar: i64) -> (r: Pair)
        requires
            scalar != 0,
        ensures
            r@ == v2_div(self@, scalar as int),
    {
        Pair { x: fx_div(self.x, scalar), y: fx_div(self.y, scalar) }
    }

    pub fn dot(self, other: Pair) -> (r: i64)
        ensures
            r as int == v2_dot(self@, other@),
    {
        fx_add(fx_mul(self.x, other.x), fx_mul(self.y, other.y))
    }

    pub fn magnitude(self) -> (r: i64)
        ensures
            r as int == v2_norm(self@),
            0 <= r,
    {
        let xm = abs_u128(self.x);
        let ym = abs_u128(self.y);
        proof {
            assert(xm * xm + ym * ym < 0x100000000000000000000000000000000int && xm * xm
                == (self.x as int) * (self.x as int) && ym * ym == (self.y as int) * (
            self.y as int)) by (nonlinear_arith)
                requires
                    0 <= xm <= 0x8000000000000000int,
                    0 <= ym <= 0x8000000000000000int,
                    xm == iabs(self.x as int),
                    ym == iabs(self.y as int);
        }
        let n: u128 = xm * xm + ym * ym;
        let s: u64 = isqrt_u128(n);
        proof {
            lemma_sqrt_floor_is(n as int, s as int);
        }
        clip_sqrt(s)
    }

    pub fn normalize_or_zero(self) -> (r: Pair)
        ensures
            r@ == v2_normalize_or_zero(self@),
    {
        let length = self.magnitude();
        if length > 0 {
            Pair { x: fx_div(self.x, length), y: fx_div(self.y, length) }
        } else {
            Pair { x: 0, y: 0 }
        }
    }

    pub fn normalize(self) -> (r: Pair)
        ensures
            r@ == v2_normalize(self@),
    {
        let mag = self.magnitude();
        if mag == 0 {
            self
        } else {
            self.div(mag)
        }
    }

    pub fn distance(self, other: Pair) -> (r: i64)
        requires
            v2_in_range(self@),
            v2_in_range(other@),
        ensures
            r as int == v2_dist(self@, other@),
            0 <= r,
    {
        let dx: i128 = self.x as i128 - other.x as i128;
        let dy: i128 = self.y as i128 - other.y as i128;
        let dxm: u128 = if dx < 0 {
            (-dx) as u128
        } else {
            dx as u128
        };
        let dym: u128 = if dy < 0 {
            (-dy) as u128
        } else {
            dy as u128
        };
        proof {
            assert(dxm * dxm + dym * dym < 0x100000000000000000000000000000000int && dxm * dxm == (
            dx as int) * (dx as int) && dym * dym == (dy as int) * (dy as int))
                by (nonlinear_arith)
                requires
                    0 <= dxm <= 2 * (FX_MAX as int),
                    0 <= dym <= 2 * (FX_MAX as int),
                    FX_MAX as int == 2000000000000000000int,
                    dxm == iabs(dx as int),
                    dym == iabs(dy as int);
        }
        let n: u128 = dxm * dxm + dym * dym;
        let s: u64 = isqrt_u128(n);
        proof {
            lemma_sqrt_floor_is(n as int, s as int);
        }
        clip_sqrt(s)
    }

    pub fn cross_prod(self, other: Pair) -> (r: Pair)
        ensures
            r@ == v2_cross(self@, other@),
    {
        Pair {
            x: fx_sub(fx_mul(self.x, other.y), fx_mul(self.y, other.x)),
            y: fx_sub(fx_mul(self.y, other.x), fx_mul(self.x, other.y)),
        }
    }
}

} // verus!
