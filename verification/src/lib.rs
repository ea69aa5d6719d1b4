//! A miniature smoothed-particle-hydrodynamics engine for an interactive
//! swarm of dots: per-frame density estimation, pressure-derived forces,
//! orbital and repulsive corrections, explicit Euler integration, boundary
//! reflection, and pointer-driven selection.
//!
//! All quantities are fixed-point scalars (see [`fixed`]); rendering and
//! windowing live outside this crate and only read the particle collection.

pub mod entropy;
pub mod fixed;
pub mod font;
pub mod math;

use vstd::prelude::*;

use crate::fixed::FX_MAX;
use crate::fixed::div_trunc;
use crate::fixed::fx_clip;
use crate::fixed::PI_FX;
use crate::fixed::SCALE;
use crate::fixed::fx_add;
use crate::fixed::fx_add_s;
use crate::fixed::fx_div;
use crate::fixed::fx_div_s;
use crate::fixed::fx_in_range;
use crate::fixed::fx_max;
use crate::fixed::fx_max_s;
use crate::fixed::fx_mul;
use crate::fixed::fx_mul_s;
use crate::fixed::fx_neg;
use crate::fixed::fx_neg_s;
use crate::fixed::fx_sub;
use crate::fixed::fx_sub_s;
use crate::fixed::iabs;
use crate::fixed::lemma_fx_div_nonneg;
use crate::fixed::lemma_fx_mul_nonneg;
use crate::fixed::lemma_fx_mul_zero;
use crate::fixed::lemma_fx_square_nonneg;
use crate::entropy::random_below;
use crate::fixed::fx_sqrt;
use crate::math::Pair;
use crate::math::Vec2i;
use crate::math::v2_abs;
use crate::math::v2_add;
use crate::math::v2_dist;
use crate::math::v2_div;
use crate::math::v2_in_range;
use crate::math::v2_neg;
use crate::math::v2_norm;
use crate::math::v2_scale;
use crate::math::v2_sub;
use crate::math::v2_zero;

verus! {

/// Radius, around the cursor, of the highlight halo drawn by the renderer.
pub const CURSOR_RADIUS: i64 = 50_000_000_000;

/// Inside this distance from the arena center a constant outward force
/// keeps dots from stalling at the origin.
pub const CENTER_REPULSIVE_RADIUS: i64 = 200_000_000_000;

/// Base support radius of the pairwise repulsion force.
pub const PARTICLE_REPULSIVE_RADIUS: i64 = 150_000_000_000;

/// Support radius of the smoothing kernel used for density and pressure.
pub const SMOOTHING_RADIUS: i64 = 10_000_000_000;

/// Mass of one particle (one part in two thousand).
pub const PARTICLE_MASS: i64 = 500_000;

/// Epsilon floor guarding divisions by a near-zero distance.
pub const DISTANCE_EPSILON: i64 = 100_000;

/// Pick radius of the pointer, in simulation units.
pub const PICK_RADIUS: i64 = 30_000_000_000;

/// A released dot faster than this has its velocity zeroed.
pub const THROW_SPEED_LIMIT: i64 = 100_000_000_000;

/// Velocity kept after a boundary reflection (85 percent).
pub const DAMPENING_FACTOR: i64 = 850_000_000;

/// Half-width of the arena, minus the boundary inset.
pub const BOUNDARY_X: i64 = 360_000_000_000;

/// Half-height of the arena, minus the boundary inset.
pub const BOUNDARY_Y: i64 = 260_000_000_000;

/// How far inside the boundary a reflected dot is placed.
pub const BOUNDARY_MARGIN: i64 = 500_000_000;

/// Strength of the centripetal orbit correction.
pub const CIRCULAR_FORCE_STRENGTH: i64 = 750_000_000;

/// Strength of the center and pairwise repulsion forces.
pub const REPULSIVE_FORCE_STRENGTH: i64 = 750_000_000;

/// Centripetal budget shared across all dots (divided by the dot count).
pub const CENTRIPETAL_BUDGET: i64 = 45_000_000_000;

/// Perturbation added with the center repulsion, x component.
pub const PERTURB_X: i64 = -20_000_000;

/// Perturbation added with the center repulsion, y component.
pub const PERTURB_Y: i64 = 200_000_000;

/// Width of the fixed simulation coordinate space.
pub const SIM_WIDTH: i64 = 800_000_000_000;

/// Height of the fixed simulation coordinate space.
pub const SIM_HEIGHT: i64 = 600_000_000_000;

/// Half the width of the fixed simulation coordinate space.
pub const SIM_HALF_WIDTH: i64 = 400_000_000_000;

/// Half the height of the fixed simulation coordinate space.
pub const SIM_HALF_HEIGHT: i64 = 300_000_000_000;

/// Lower clamp for `speed_scale` and `force_scale` mutations.
pub const MIN_SCALE_PARAM: i64 = 100_000_000;

/// Lower clamp for `zoom` mutations.
pub const ZOOM_MIN: i64 = 100_000_000;

/// Upper clamp for `zoom` mutations.
pub const ZOOM_MAX: i64 = 100_000_000_000;

/// An sRGB color with alpha; the renderer converts it to its own type.
#[derive(Clone, Copy, PartialEq, Eq, Structural, Debug)]
pub struct Rgba {
    pub r: u8,
    pub g: u8,
    pub b: u8,
    pub a: u8,
}

/// Window dimensions in physical pixels.
#[derive(Clone, Copy, PartialEq, Eq, Structural, Debug)]
pub struct WindowSize {
    pub width: u32,
    pub height: u32,
}

impl WindowSize {
    pub fn new(width: u32, height: u32) -> (r: WindowSize)
        ensures
            r.width == width,
            r.height == height,
    {
        WindowSize { width, height }
    }
}

/// Mathematical model of one dot.
pub ghost struct DotV {
    pub position: Vec2i,
    pub velocity: Vec2i,
    pub density: int,
    pub color: Rgba,
    pub distance_to_cursor: int,
    pub is_selected: bool,
}

/// One animated particle.
#[derive(Clone, Copy, Debug)]
pub struct Dot {
    pub position: Pair,
    pub velocity: Pair,
    pub density: i64,
    pub color: Rgba,
    pub distance_to_cursor: i64,
    pub is_selected: bool,
}

impl View for Dot {
    type V = DotV;

    open spec fn view(&self) -> DotV {
        DotV {
            position: self.position@,
            velocity: self.velocity@,
            density: self.density as int,
            color: self.color,
            distance_to_cursor: self.distance_to_cursor as int,
            is_selected: self.is_selected,
        }
    }
}

impl Dot {
    pub fn new(position: Pair, velocity: Pair, density: i64, color: Rgba) -> (r: Dot)
        ensures
            r@ == (DotV {
                position: position@,
                velocity: velocity@,
                density: density as int,
                color,
                distance_to_cursor: 0,
                is_selected: false,
            }),
    {
        Dot { position, velocity, density, color, distance_to_cursor: 0, is_selected: false }
    }

    pub fn position(&self) -> (r: Pair)
        ensures
            r@ == self@.position,
    {
        self.position
    }

    pub fn velocity(&self) -> (r: Pair)
        ensures
            r@ == self@.velocity,
    {
        self.velocity
    }
}

/// The sequence of dot models behind a sequence of dots.
pub open spec fn dot_views(dots: Seq<Dot>) -> Seq<DotV> {
    dots.map_values(|d: Dot| d@)
}

/// Every scalar of the dot lies in the representable range.
pub open spec fn dot_wf(d: DotV) -> bool {
    &&& v2_in_range(d.position)
    &&& v2_in_range(d.velocity)
    &&& fx_in_range(d.density)
    &&& fx_in_range(d.distance_to_cursor)
}

/// Every dot of the sequence is well formed.
pub open spec fn dots_wf(dots: Seq<DotV>) -> bool {
    forall|i: int| 0 <= i < dots.len() ==> dot_wf(#[trigger] dots[i])
}

/// Euclidean distance between two points, as the engine measures it.
pub fn distance(p1: Pair, p2: Pair) -> (r: i64)
    requires
        v2_in_range(p1@),
        v2_in_range(p2@),
    ensures
        r as int == v2_dist(p1@, p2@),
        0 <= r,
{
    p1.distance(p2)
}

/// The poly6-style smoothing kernel: `max(r*r - d*d, 0)^3`, normalized by
/// the kernel volume `pi * r^8 / 4`, all in saturating fixed point.
pub open spec fn smoothing_kernel_s(radius: int, dist: int) -> int {
    let rr = fx_mul_s(radius, radius);
    let dd = fx_mul_s(dist, dist);
    if dd >= rr {
        0
    } else {
        let f = rr - dd;
        let num = fx_mul_s(fx_mul_s(fx_mul_s(f, f), f), 4 * (SCALE as int));
        let r4 = fx_mul_s(rr, rr);
        let r8 = fx_mul_s(r4, r4);
        let den = fx_mul_s(PI_FX as int, r8);
        if den == 0 {
            0
        } else {
            fx_div_s(num, den)
        }
    }
}

/// Derivative of the smoothing kernel with respect to distance:
/// `-24 * d * (r*r - d*d)^2 / (pi * r^8)`, zero outside the support.
pub open spec fn derivative_smoothing_kernel_s(radius: int, dist: int) -> int {
    let rr = fx_mul_s(radius, radius);
    let dd = fx_mul_s(dist, dist);
    if dd >= rr {
        0
    } else {
        let f = rr - dd;
        let num = fx_mul_s(fx_mul_s(dist, fx_mul_s(f, f)), 24 * (SCALE as int));
        let r4 = fx_mul_s(rr, rr);
        let r8 = fx_mul_s(r4, r4);
        let den = fx_mul_s(PI_FX as int, r8);
        if den == 0 {
            0
        } else {
            fx_neg_s(fx_div_s(num, den))
        }
    }
}

/// Smoothing kernel weight of a neighbor at distance `dist`.
pub fn smoothing_kernel(radius: i64, dist: i64) -> (r: i64)
    ensures
        r as int == smoothing_kernel_s(radius as int, dist as int),
        0 <= r,
{
    proof {
        lemma_smoothing_kernel_nonneg(radius as int, dist as int);
    }
    let rr = fx_mul(radius, radius);
    let dd = fx_mul(dist, dist);
    proof {
        lemma_fx_square_nonneg(radius as int);
        lemma_fx_square_nonneg(dist as int);
    }
    if dd >= rr {
        0
    } else {
        let f = rr - dd;
        let num = fx_mul(fx_mul(fx_mul(f, f), f), 4 * SCALE);
        let r4 = fx_mul(rr, rr);
        let r8 = fx_mul(r4, r4);
        let den = fx_mul(PI_FX, r8);
        if den == 0 {
            0
        } else {
            fx_div(num, den)
        }
    }
}

/// Kernel gradient magnitude profile at distance `dist`.
pub fn derivative_smoothing_kernel(radius: i64, dist: i64) -> (r: i64)
    ensures
        r as int == derivative_smoothing_kernel_s(radius as int, dist as int),
{
    let rr = fx_mul(radius, radius);
    let dd = fx_mul(dist, dist);
    proof {
        lemma_fx_square_nonneg(radius as int);
        lemma_fx_square_nonneg(dist as int);
    }
    if dd >= rr {
        0
    } else {
        let f = rr - dd;
        let num = fx_mul(fx_mul(dist, fx_mul(f, f)), 24 * SCALE);
        let r4 = fx_mul(rr, rr);
        let r8 = fx_mul(r4, r4);
        let den = fx_mul(PI_FX, r8);
        if den == 0 {
            0
        } else {
            fx_neg(fx_div(num, den))
        }
    }
}

/// The kernel is non-negative everywhere.
pub proof fn lemma_smoothing_kernel_nonneg(radius: int, dist: int)
    ensures
        0 <= smoothing_kernel_s(radius, dist),
{
    lemma_fx_square_nonneg(radius);
    lemma_fx_square_nonneg(dist);
    let rr = fx_mul_s(radius, radius);
    let dd = fx_mul_s(dist, dist);
    if dd < rr {
        let f = rr - dd;
        lemma_fx_mul_nonneg(f, f);
        lemma_fx_mul_nonneg(fx_mul_s(f, f), f);
        lemma_fx_mul_nonneg(fx_mul_s(fx_mul_s(f, f), f), 4 * (SCALE as int));
        let num = fx_mul_s(fx_mul_s(fx_mul_s(f, f), f), 4 * (SCALE as int));
        lemma_fx_mul_nonneg(rr, rr);
        let r4 = fx_mul_s(rr, rr);
        lemma_fx_mul_nonneg(r4, r4);
        let r8 = fx_mul_s(r4, r4);
        lemma_fx_mul_nonneg(PI_FX as int, r8);
        let den = fx_mul_s(PI_FX as int, r8);
        if den != 0 {
            lemma_fx_div_nonneg(num, den);
        }
    }
}

/// The kernel vanishes at and beyond the support radius.
pub proof fn lemma_smoothing_kernel_support(radius: int, dist: int)
    requires
        0 <= radius <= dist,
    ensures
        smoothing_kernel_s(radius, dist) == 0,
{
    assert(radius * radius <= dist * dist) by (nonlinear_arith)
        requires
            0 <= radius <= dist;
    assert(iabs(radius) * iabs(radius) <= iabs(dist) * iabs(dist));
    vstd::arithmetic::div_mod::lemma_div_is_ordered(
        iabs(radius) * iabs(radius),
        iabs(dist) * iabs(dist),
        SCALE as int,
    );
}

/// The kernel gradient vanishes at the kernel center.
pub proof fn lemma_derivative_kernel_zero_at_center(radius: int)
    ensures
        derivative_smoothing_kernel_s(radius, 0) == 0,
{
    lemma_fx_square_nonneg(radius);
    let rr = fx_mul_s(radius, radius);
    lemma_fx_mul_zero(0);
    let dd = fx_mul_s(0, 0);
    assert(dd == 0);
    if dd < rr {
        let f = rr - dd;
        lemma_fx_mul_zero(fx_mul_s(f, f));
        lemma_fx_mul_zero(24 * (SCALE as int));
        let num = fx_mul_s(fx_mul_s(0, fx_mul_s(f, f)), 24 * (SCALE as int));
        assert(num == 0);
        let r4 = fx_mul_s(rr, rr);
        let r8 = fx_mul_s(r4, r4);
        let den = fx_mul_s(PI_FX as int, r8);
        if den != 0 {
            assert(fx_div_s(0, den) == 0);
            assert(fx_neg_s(0) == 0);
        }
    }
}

/// The kernel gradient vanishes at and beyond the support radius.
pub proof fn lemma_derivative_kernel_zero_at_support(radius: int, dist: int)
    requires
        0 <= radius <= dist,
    ensures
        derivative_smoothing_kernel_s(radius, dist) == 0,
{
    assert(radius * radius <= dist * dist) by (nonlinear_arith)
        requires
            0 <= radius <= dist;
    assert(iabs(radius) * iabs(radius) <= iabs(dist) * iabs(dist));
    vstd::arithmetic::div_mod::lemma_div_is_ordered(
        iabs(radius) * iabs(radius),
        iabs(dist) * iabs(dist),
        SCALE as int,
    );
}

/// At zero distance the kernel reaches its analytic maximum, the
/// fixed-point rendering of `4 / (pi * r * r)`: the kernel volume
/// `pi * r^8 / 4` cancels against `r^6`.  Stated for whole-unit radii
/// small enough that no intermediate product saturates.
pub proof fn lemma_smoothing_kernel_max(n: int)
    requires
        1 <= n <= 12,
    ensures
        smoothing_kernel_s(n * (SCALE as int), 0) == fx_div_s(
            4 * (SCALE as int),
            fx_mul_s(PI_FX as int, fx_mul_s(n * (SCALE as int), n * (SCALE as int))),
        ),
{
    let s = SCALE as int;
    let pi = PI_FX as int;
    let r = n * s;
    assert(0 < r <= 12 * s) by (nonlinear_arith)
        requires
            r == n * s,
            1 <= n <= 12,
            0 < s;
    assert(iabs(r) == r);
    // r * r rescales exactly to the fixed-point square n * n * s
    assert(r * r == s * (n * n * s)) by (nonlinear_arith)
        requires
            r == n * s;
    vstd::arithmetic::div_mod::lemma_div_multiples_vanish(n * n * s, s);
    assert(0 <= n * n * s <= 144 * s) by (nonlinear_arith)
        requires
            1 <= n <= 12,
            0 < s;
    let rr = fx_mul_s(r, r);
    assert(rr == n * n * s);
    lemma_fx_mul_zero(0);
    assert(fx_mul_s(0, 0) == 0);
    // the kernel falloff at distance zero is the full square
    let f = rr;
    assert(iabs(f) == f);
    assert(f * f == s * (n * n * n * n * s) && 0 <= n * n * n * n * s <= 20736 * s)
        by (nonlinear_arith)
        requires
            f == n * n * s,
            1 <= n <= 12,
            0 < s;
    vstd::arithmetic::div_mod::lemma_div_multiples_vanish(n * n * n * n * s, s);
    let f2 = fx_mul_s(f, f);
    assert(f2 == n * n * n * n * s);
    assert(f2 * f == s * (n * n * n * n * n * n * s) && 0 <= n * n * n * n * n * n * s
        <= 2_985_984 * s) by (nonlinear_arith)
        requires
            f == n * n * s,
            f2 == n * n * n * n * s,
            1 <= n <= 12,
            0 < s;
    vstd::arithmetic::div_mod::lemma_div_multiples_vanish(n * n * n * n * n * n * s, s);
    let f3 = fx_mul_s(f2, f);
    assert(f3 == n * n * n * n * n * n * s);
    assert(f3 * (4 * s) == s * (4 * (n * n * n * n * n * n) * s) && 0 <= 4 * (n * n * n * n * n
        * n) * s <= 11_943_936 * s) by (nonlinear_arith)
        requires
            f3 == n * n * n * n * n * n * s,
            1 <= n <= 12,
            0 < s;
    vstd::arithmetic::div_mod::lemma_div_multiples_vanish(4 * (n * n * n * n * n * n) * s, s);
    let num = fx_mul_s(f3, 4 * s);
    assert(num == 4 * (n * n * n * n * n * n) * s);
    // the kernel volume: r^8 through repeated squaring, then times pi
    let r4 = fx_mul_s(rr, rr);
    assert(r4 == n * n * n * n * s);
    let n8 = n * n * n * n * n * n * n * n;
    assert(r4 * r4 == s * (n8 * s) && 0 <= n8 * s <= 429_981_696 * s && 1 <= n8
        <= 429_981_696) by (nonlinear_arith)
        requires
            r4 == n * n * n * n * s,
            n8 == n * n * n * n * n * n * n * n,
            1 <= n <= 12,
            0 < s;
    vstd::arithmetic::div_mod::lemma_div_multiples_vanish(n8 * s, s);
    let r8 = fx_mul_s(r4, r4);
    assert(r8 == n8 * s);
    assert(pi * (n8 * s) == s * (pi * n8) && 0 < pi * n8 <= pi * 429_981_696)
        by (nonlinear_arith)
        requires
            1 <= n8 <= 429_981_696,
            0 < s,
            0 < pi;
    vstd::arithmetic::div_mod::lemma_div_multiples_vanish(pi * n8, s);
    let den = fx_mul_s(pi, r8);
    assert(den == pi * n8);
    assert(den != 0);
    // both sides are the same reduced fraction: n^6 cancels
    let k = n * n * n * n * n * n;
    let aa = 4 * s * s;
    let bb = pi * (n * n);
    assert(num * s == k * aa) by (nonlinear_arith)
        requires
            num == 4 * (n * n * n * n * n * n) * s,
            k == n * n * n * n * n * n,
            aa == 4 * s * s;
    assert(den == k * bb && 0 < k && 0 < bb && 0 <= k * aa) by (nonlinear_arith)
        requires
            den == pi * n8,
            n8 == n * n * n * n * n * n * n * n,
            k == n * n * n * n * n * n,
            bb == pi * (n * n),
            aa == 4 * s * s,
            1 <= n <= 12,
            0 < s,
            0 < pi;
    vstd::arithmetic::div_mod::lemma_div_denominator(k * aa, k, bb);
    vstd::arithmetic::div_mod::lemma_div_multiples_vanish(aa, k);
    assert((num * s) / den == aa / bb);
    assert(iabs(num) == num && iabs(den) == den);
    assert(div_trunc(num, den) == aa / bb);
    // the direct rendering of 4 / (pi * r * r) reduces to the same value
    assert(pi * (n * n * s) == s * bb) by (nonlinear_arith)
        requires
            bb == pi * (n * n);
    vstd::arithmetic::div_mod::lemma_div_multiples_vanish(bb, s);
    assert(0 < bb <= pi * 144) by (nonlinear_arith)
        requires
            bb == pi * (n * n),
            1 <= n <= 12,
            0 < pi;
    assert(iabs(pi) == pi && iabs(rr) == rr);
    assert(pi * rr == pi * (n * n * s));
    let den2 = fx_mul_s(pi, rr);
    assert(den2 == bb);
    assert((4 * s) * s == aa) by (nonlinear_arith)
        requires
            aa == 4 * s * s;
    assert(div_trunc(4 * s, bb) == aa / bb);
    // the shared value is small enough that neither side saturates
    assert(0 <= aa / bb) by (nonlinear_arith)
        requires
            0 <= aa,
            1 <= bb;
    assert(aa == 4_000_000_000_000_000_000int) by (nonlinear_arith)
        requires
            aa == 4 * s * s,
            s == 1_000_000_000;
    assert(pi <= bb) by (nonlinear_arith)
        requires
            bb == pi * (n * n),
            1 <= n,
            0 < pi;
    vstd::arithmetic::div_mod::lemma_div_is_ordered_by_denominator(aa, pi, bb);
    assert(aa / pi <= 2_000_000_000int);
    assert(fx_clip(aa / bb) == aa / bb);
}

/// Signed pressure of a local density: deviation from the target density,
/// scaled by the pressure multiplier.
pub open spec fn density_to_pressure_s(density: int, target_density: int, multiplier: int) -> int {
    fx_mul_s(fx_sub_s(density, target_density), multiplier)
}

/// Converts a local density to a signed pressure.
pub fn density_to_pressure(density: i64, target_density: i64, multiplier: i64) -> (r: i64)
    ensures
        r as int == density_to_pressure_s(density as int, target_density as int, multiplier as int),
{
    fx_mul(fx_sub(density, target_density), multiplier)
}

/// What one neighbor adds to the local density at `p`.
pub open spec fn density_contribution(d: DotV, p: Vec2i, radius: int) -> int {
    if v2_dist(d.position, p) <= radius {
        fx_mul_s(PARTICLE_MASS as int, smoothing_kernel_s(radius, v2_dist(d.position, p)))
    } else {
        0
    }
}

/// Density accumulated over the first `k` dots, in iteration order.
pub open spec fn density_sum(dots: Seq<DotV>, p: Vec2i, radius: int, k: int) -> int
    decreases k,
{
    if k <= 0 {
        0
    } else {
        fx_add_s(density_sum(dots, p, radius, k - 1), density_contribution(dots[k - 1], p, radius))
    }
}

/// Local density at `p`: mass-weighted kernel sum over every dot in range.
pub open spec fn density_at(dots: Seq<DotV>, p: Vec2i, radius: int) -> int {
    density_sum(dots, p, radius, dots.len() as int)
}

/// A density sum is non-negative and representable.
pub proof fn lemma_density_sum_nonneg(dots: Seq<DotV>, p: Vec2i, radius: int, k: int)
    ensures
        0 <= density_sum(dots, p, radius, k) <= FX_MAX as int,
    decreases k,
{
    if k > 0 {
        lemma_density_sum_nonneg(dots, p, radius, k - 1);
        let d = dots[k - 1];
        if v2_dist(d.position, p) <= radius {
            lemma_smoothing_kernel_nonneg(radius, v2_dist(d.position, p));
            lemma_fx_mul_nonneg(
                PARTICLE_MASS as int,
                smoothing_kernel_s(radius, v2_dist(d.position, p)),
            );
        }
    }
}

/// One density value per dot: the mass-weighted kernel sum over every
/// neighbor within the support radius, the dot itself included.  Densities
/// are non-negative by construction.
pub fn compute_densities(dots: &Vec<Dot>, radius: i64) -> (r: Vec<i64>)
    requires
        dots_wf(dot_views(dots@)),
    ensures
        r@.len() == dots@.len(),
        forall|i: int|
            0 <= i < dots@.len() ==> #[trigger] r@[i] as int == density_at(
                dot_views(dots@),
                dot_views(dots@)[i].position,
                radius as int,
            ),
        forall|i: int| 0 <= i < r@.len() ==> 0 <= #[trigger] r@[i],
{
    let ghost dv = dot_views(dots@);
    let mut out: Vec<i64> = Vec::new();
    let mut i: usize = 0;
    while i < dots.len()
        invariant
            dots_wf(dv),
            dv == dot_views(dots@),
            dv.len() == dots@.len(),
            i <= dots@.len(),
            out@.len() == i,
            forall|k: int|
                0 <= k < i ==> #[trigger] out@[k] as int == density_at(
                    dv,
                    dv[k].position,
                    radius as int,
                ),
            forall|k: int| 0 <= k < i ==> 0 <= #[trigger] out@[k],
        decreases dots@.len() - i,
    {
        let center = dots[i].position;
        assert(center@ == dv[i as int].position);
        let mut acc: i64 = 0;
        let mut j: usize = 0;
        while j < dots.len()
            invariant
                dots_wf(dv),
                dv == dot_views(dots@),
                dv.len() == dots@.len(),
                i < dots@.len(),
                j <= dots@.len(),
                center@ == dv[i as int].position,
                v2_in_range(center@),
                acc as int == density_sum(dv, center@, radius as int, j as int),
                0 <= acc <= FX_MAX,
            decreases dots@.len() - j,
        {
            assert(dot_wf(dv[j as int]));
            let d = dots[j].position.distance(center);
            if d <= radius {
                let w = smoothing_kernel(radius, d);
                proof {
                    lemma_fx_mul_nonneg(PARTICLE_MASS as int, w as int);
                }
                acc = fx_add(acc, fx_mul(PARTICLE_MASS, w));
            } else {
                assert(fx_add_s(acc as int, 0) == acc as int);
            }
            j += 1;
        }
        out.push(acc);
        i += 1;
    }
    out
}

/// What one neighbor adds to the pressure force at `center`.
pub open spec fn pressure_term(d: DotV, center: Vec2i, radius: int, target: int, mult: int) -> Vec2i {
    let dist = v2_dist(d.position, center);
    if dist <= radius {
        let dguard = fx_max_s(dist, DISTANCE_EPSILON as int);
        let dir = v2_div(v2_neg(v2_sub(d.position, center)), dguard);
        let slope = derivative_smoothing_kernel_s(radius, dguard);
        if d.density != 0 {
            v2_div(
                v2_scale(
                    v2_scale(
                        v2_scale(dir, density_to_pressure_s(d.density, target, mult)),
                        slope,
                    ),
                    PARTICLE_MASS as int,
                ),
                d.density,
            )
        } else {
            v2_zero()
        }
    } else {
        v2_zero()
    }
}

/// Pressure force accumulated over the first `k` dots, in iteration order.
pub open spec fn pressure_sum(
    dots: Seq<DotV>,
    center: Vec2i,
    radius: int,
    target: int,
    mult: int,
    k: int,
) -> Vec2i
    decreases k,
{
    if k <= 0 {
        v2_zero()
    } else {
        v2_add(
            pressure_sum(dots, center, radius, target, mult, k - 1),
            pressure_term(dots[k - 1], center, radius, target, mult),
        )
    }
}

/// Total pressure force at `center`, from the whole snapshot.
pub open spec fn pressure_force(
    dots: Seq<DotV>,
    center: Vec2i,
    radius: int,
    target: int,
    mult: int,
) -> Vec2i {
    pressure_sum(dots, center, radius, target, mult, dots.len() as int)
}

/// The accumulated pressure force at a query point: every neighbor within
/// the support radius and with non-zero density contributes its pressure,
/// directed from the neighbor toward the query point, weighted by the
/// kernel gradient and the particle mass over the neighbor's density.
pub fn calculate_pressure(
    dots: &Vec<Dot>,
    center: Pair,
    radius: i64,
    target_density: i64,
    pressure_multiplier: i64,
) -> (r: Pair)
    requires
        dots_wf(dot_views(dots@)),
        v2_in_range(center@),
    ensures
        r@ == pressure_force(
            dot_views(dots@),
            center@,
            radius as int,
            target_density as int,
            pressure_multiplier as int,
        ),
{
    let ghost dv = dot_views(dots@);
    let mut total = Pair::new(0, 0);
    let mut k: usize = 0;
    while k < dots.len()
        invariant
            dots_wf(dv),
            dv == dot_views(dots@),
            dv.len() == dots@.len(),
            k <= dots@.len(),
            v2_in_range(center@),
            v2_in_range(total@),
            total@ == pressure_sum(
                dv,
                center@,
                radius as int,
                target_density as int,
                pressure_multiplier as int,
                k as int,
            ),
        decreases dots@.len() - k,
    {
        assert(dot_wf(dv[k as int]));
        let particle = dots[k];
        let dist = particle.position.distance(center);
        let ghost term = pressure_term(
            dv[k as int],
            center@,
            radius as int,
            target_density as int,
            pressure_multiplier as int,
        );
        if dist <= radius {
            let dguard = fx_max(dist, DISTANCE_EPSILON);
            let direction = particle.position.sub(center).neg().div(dguard);
            let slope = derivative_smoothing_kernel(radius, dguard);
            if particle.density != 0 {
                let pressure = density_to_pressure(
                    particle.density,
                    target_density,
                    pressure_multiplier,
                );
                let force = direction.mul(pressure).mul(slope).mul(PARTICLE_MASS).div(
                    particle.density,
                );
                assert(force@ == term);
                total = total.add(force);
            } else {
                assert(term == v2_zero());
                assert(v2_add(total@, term) == total@);
            }
        } else {
            assert(term == v2_zero());
            assert(v2_add(total@, term) == total@);
        }
        k += 1;
    }
    total
}

/// At equilibrium a neighbor contributes no pressure force.
pub proof fn lemma_pressure_term_zero_at_equilibrium(
    d: DotV,
    center: Vec2i,
    radius: int,
    target: int,
    mult: int,
)
    requires
        d.density == target,
    ensures
        pressure_term(d, center, radius, target, mult) == v2_zero(),
{
    let dist = v2_dist(d.position, center);
    if dist <= radius && d.density != 0 {
        let dguard = fx_max_s(dist, DISTANCE_EPSILON as int);
        let dir = v2_div(v2_neg(v2_sub(d.position, center)), dguard);
        let slope = derivative_smoothing_kernel_s(radius, dguard);
        assert(fx_sub_s(d.density, target) == 0);
        lemma_fx_mul_zero(mult);
        assert(density_to_pressure_s(d.density, target, mult) == 0);
        lemma_fx_mul_zero(dir.x);
        lemma_fx_mul_zero(dir.y);
        let v1 = v2_scale(dir, 0);
        assert(v1 == v2_zero());
        lemma_fx_mul_zero(slope);
        assert(v2_scale(v1, slope) == v2_zero());
        lemma_fx_mul_zero(PARTICLE_MASS as int);
        assert(v2_scale(v2_scale(v1, slope), PARTICLE_MASS as int) == v2_zero());
        assert(fx_div_s(0, d.density) == 0);
    }
}

/// Pressure is the zero vector when every local density equals the target
/// density: equilibrium produces no corrective force.
pub proof fn lemma_equilibrium_pressure(
    dots: Seq<DotV>,
    center: Vec2i,
    radius: int,
    target: int,
    mult: int,
    k: int,
)
    requires
        forall|j: int| 0 <= j < dots.len() ==> #[trigger] dots[j].density == target,
        k <= dots.len(),
    ensures
        pressure_sum(dots, center, radius, target, mult, k) == v2_zero(),
    decreases k,
{
    if k > 0 {
        lemma_equilibrium_pressure(dots, center, radius, target, mult, k - 1);
        lemma_pressure_term_zero_at_equilibrium(dots[k - 1], center, radius, target, mult);
        assert(fx_add_s(0, 0) == 0);
    }
}

/// Pointer state, in window pixels and in rescaled simulation coordinates.
pub struct MouseInfo {
    pub mouse_down: bool,
    pub mouse_position: Pair,
    pub mouse_position_last: Option<Pair>,
    pub mouse_delta: Pair,
    pub scaled_mouse_position: Pair,
}

/// The whole simulation: the particle collection, the tunable parameters,
/// and the pointer state.
pub struct State {
    pub dots: Vec<Dot>,
    pub zoom: i64,
    pub window_size: WindowSize,
    pub mouse_info: MouseInfo,
    pub target_density: i64,
    pub pressure_multiplier: i64,
    pub speed_scale: i64,
    pub force_scale: i64,
    pub focus_color: Option<Rgba>,
    pub orbital_forces: bool,
    pub repulsion_forces: bool,
}

/// The parameters a single step reads, as unbounded integers.
pub ghost struct SimParams {
    pub target_density: int,
    pub pressure_multiplier: int,
    pub speed_scale: int,
    pub force_scale: int,
    pub zoom: int,
    pub orbital_forces: bool,
    pub repulsion_forces: bool,
}

/// No two distinct dots are selected at once.
pub open spec fn at_most_one_selected(dots: Seq<DotV>) -> bool {
    forall|i: int, j: int|
        0 <= i < dots.len() && 0 <= j < dots.len() && #[trigger] dots[i].is_selected
            && #[trigger] dots[j].is_selected ==> i == j
}

impl State {
    /// The parameter bag a step reads.
    pub open spec fn params(self) -> SimParams {
        SimParams {
            target_density: self.target_density as int,
            pressure_multiplier: self.pressure_multiplier as int,
            speed_scale: self.speed_scale as int,
            force_scale: self.force_scale as int,
            zoom: self.zoom as int,
            orbital_forces: self.orbital_forces,
            repulsion_forces: self.repulsion_forces,
        }
    }

    /// Every scalar held by the state lies in the representable range.
    pub open spec fn wf(self) -> bool {
        &&& dots_wf(dot_views(self.dots@))
        &&& fx_in_range(self.zoom as int)
        &&& fx_in_range(self.target_density as int)
        &&& fx_in_range(self.pressure_multiplier as int)
        &&& fx_in_range(self.speed_scale as int)
        &&& fx_in_range(self.force_scale as int)
        &&& v2_in_range(self.mouse_info.mouse_position@)
        &&& v2_in_range(self.mouse_info.scaled_mouse_position@)
        &&& v2_in_range(self.mouse_info.mouse_delta@)
        &&& (self.mouse_info.mouse_position_last matches Some(p) ==> v2_in_range(p@))
    }
}

/// Where a dot ends up, and with what velocity, after the axis-by-axis
/// boundary reflection: a coordinate beyond a boundary is moved just
/// inside, the matching velocity component is reversed and damped, and the
/// other component is damped too.
pub open spec fn reflect_boundary_s(pos: Vec2i, vel: Vec2i) -> (Vec2i, Vec2i) {
    let hit_x = pos.x >= BOUNDARY_X as int || pos.x <= -(BOUNDARY_X as int);
    let px = if pos.x >= BOUNDARY_X as int {
        BOUNDARY_X - BOUNDARY_MARGIN
    } else if pos.x <= -(BOUNDARY_X as int) {
        -(BOUNDARY_X as int) + BOUNDARY_MARGIN as int
    } else {
        pos.x
    };
    let vx1 = if hit_x {
        fx_mul_s(fx_neg_s(vel.x), DAMPENING_FACTOR as int)
    } else {
        vel.x
    };
    let vy1 = if hit_x {
        fx_mul_s(vel.y, DAMPENING_FACTOR as int)
    } else {
        vel.y
    };
    let hit_y = pos.y >= BOUNDARY_Y as int || pos.y <= -(BOUNDARY_Y as int);
    let py = if pos.y >= BOUNDARY_Y as int {
        BOUNDARY_Y - BOUNDARY_MARGIN
    } else if pos.y <= -(BOUNDARY_Y as int) {
        -(BOUNDARY_Y as int) + BOUNDARY_MARGIN as int
    } else {
        pos.y
    };
    let vy2 = if hit_y {
        fx_mul_s(fx_neg_s(vy1), DAMPENING_FACTOR as int)
    } else {
        vy1
    };
    let vx2 = if hit_y {
        fx_mul_s(vx1, DAMPENING_FACTOR as int)
    } else {
        vx1
    };
    (Vec2i { x: px, y: py }, Vec2i { x: vx2, y: vy2 })
}

/// Reflects a dot off the arena boundaries.  The reflection is
/// energy-bounded: neither velocity component ever grows in magnitude.
pub fn reflect_boundary(pos: Pair, vel: Pair) -> (r: (Pair, Pair))
    ensures
        (r.0@, r.1@) == reflect_boundary_s(pos@, vel@),
        iabs(r.1@.x) <= iabs(vel@.x),
        iabs(r.1@.y) <= iabs(vel@.y),
        v2_in_range(pos@) ==> v2_in_range(r.0@),
        v2_in_range(vel@) ==> v2_in_range(r.1@),
{
    proof {
        lemma_reflection_damps(pos@, vel@);
    }
    let mut px = pos.x;
    let mut vx = vel.x;
    let mut vy = vel.y;
    if pos.x >= BOUNDARY_X {
        px = BOUNDARY_X - BOUNDARY_MARGIN;
        vx = fx_mul(fx_neg(vel.x), DAMPENING_FACTOR);
        vy = fx_mul(vel.y, DAMPENING_FACTOR);
    } else if pos.x <= -BOUNDARY_X {
        px = -BOUNDARY_X + BOUNDARY_MARGIN;
        vx = fx_mul(fx_neg(vel.x), DAMPENING_FACTOR);
        vy = fx_mul(vel.y, DAMPENING_FACTOR);
    }
    let mut py = pos.y;
    if pos.y >= BOUNDARY_Y {
        py = BOUNDARY_Y - BOUNDARY_MARGIN;
        vy = fx_mul(fx_neg(vy), DAMPENING_FACTOR);
        vx = fx_mul(vx, DAMPENING_FACTOR);
    } else if pos.y <= -BOUNDARY_Y {
        py = -BOUNDARY_Y + BOUNDARY_MARGIN;
        vy = fx_mul(fx_neg(vy), DAMPENING_FACTOR);
        vx = fx_mul(vx, DAMPENING_FACTOR);
    }
    (Pair::new(px, py), Pair::new(vx, vy))
}

/// Boundary reflection never increases the magnitude of either velocity
/// component: the damping factor is below one.
pub proof fn lemma_reflection_damps(pos: Vec2i, vel: Vec2i)
    ensures
        iabs(reflect_boundary_s(pos, vel).1.x) <= iabs(vel.x),
        iabs(reflect_boundary_s(pos, vel).1.y) <= iabs(vel.y),
{
    let d = DAMPENING_FACTOR as int;
    crate::fixed::lemma_fx_mul_shrinks(fx_neg_s(vel.x), d);
    crate::fixed::lemma_fx_mul_shrinks(vel.y, d);
    let hit_x = pos.x >= BOUNDARY_X as int || pos.x <= -(BOUNDARY_X as int);
    let vx1 = if hit_x {
        fx_mul_s(fx_neg_s(vel.x), d)
    } else {
        vel.x
    };
    let vy1 = if hit_x {
        fx_mul_s(vel.y, d)
    } else {
        vel.y
    };
    assert(iabs(vx1) <= iabs(vel.x));
    assert(iabs(vy1) <= iabs(vel.y));
    crate::fixed::lemma_fx_mul_shrinks(fx_neg_s(vy1), d);
    crate::fixed::lemma_fx_mul_shrinks(vx1, d);
}

/// What one neighbor adds to a dot's velocity through pairwise repulsion.
pub open spec fn pair_repulsion_step(pos: Vec2i, other: DotV, threshold: int, vel: Vec2i) -> Vec2i {
    if other.position != pos {
        let to_other = v2_sub(other.position, pos);
        let dist = v2_norm(to_other);
        if dist < threshold {
            let dir = v2_div(to_other, fx_max_s(dist, DISTANCE_EPSILON as int));
            v2_add(vel, v2_div(v2_scale(v2_neg(dir), REPULSIVE_FORCE_STRENGTH as int), dist))
        } else {
            vel
        }
    } else {
        vel
    }
}

/// Velocity after pairwise repulsion from the first `k` snapshot dots.
pub open spec fn pair_repulsion_sum(
    snap: Seq<DotV>,
    pos: Vec2i,
    threshold: int,
    vel: Vec2i,
    k: int,
) -> Vec2i
    decreases k,
{
    if k <= 0 {
        vel
    } else {
        pair_repulsion_step(
            pos,
            snap[k - 1],
            threshold,
            pair_repulsion_sum(snap, pos, threshold, vel, k - 1),
        )
    }
}

/// A vector with a non-zero component has positive fixed-point norm.
pub proof fn lemma_norm_pos(a: Vec2i)
    requires
        a.x != 0 || a.y != 0,
    ensures
        1 <= crate::math::v2_norm(a),
{
    assert(a.x * a.x >= 0 && a.y * a.y >= 0 && (a.x != 0 ==> a.x * a.x >= 1) && (a.y != 0
        ==> a.y * a.y >= 1)) by (nonlinear_arith);
    crate::fixed::lemma_sqrt_floor_pos(a.x * a.x + a.y * a.y);
}

/// One dot's step: pressure, ambient bias, centripetal correction, center
/// repulsion, pairwise repulsion, Euler integration, boundary reflection.
/// Density, color, cursor distance and selection carry over unchanged.
pub open spec fn step_dot_s(snap: Seq<DotV>, i: int, p: SimParams) -> DotV {
    let d = snap[i];
    let pressure = pressure_force(
        snap,
        d.position,
        SMOOTHING_RADIUS as int,
        p.target_density,
        p.pressure_multiplier,
    );
    let to_center = v2_sub(v2_zero(), d.position);
    let dist_c = v2_norm(to_center);
    let dguard = fx_max_s(dist_c, DISTANCE_EPSILON as int);
    let dir_c = v2_div(to_center, dguard);
    let centripetal = if p.orbital_forces {
        let speed = v2_norm(d.velocity);
        let cmag = fx_div_s(fx_mul_s(speed, speed), dguard);
        v2_scale(v2_scale(dir_c, cmag), CIRCULAR_FORCE_STRENGTH as int)
    } else {
        v2_zero()
    };
    let share = fx_div_s(CENTRIPETAL_BUDGET as int, snap.len() * (SCALE as int));
    let vel1 = v2_add(
        d.velocity,
        v2_scale(v2_add(v2_add(pressure, v2_zero()), v2_scale(centripetal, share)), p.force_scale),
    );
    let vel2 = if p.repulsion_forces && dist_c < CENTER_REPULSIVE_RADIUS as int {
        v2_add(
            vel1,
            v2_add(
                v2_scale(v2_neg(dir_c), REPULSIVE_FORCE_STRENGTH as int),
                Vec2i { x: PERTURB_X as int, y: PERTURB_Y as int },
            ),
        )
    } else {
        vel1
    };
    let threshold = fx_add_s(
        PARTICLE_REPULSIVE_RADIUS as int,
        fx_div_s(fx_mul_s(12 * (SCALE as int), p.zoom), 5 * (SCALE as int)),
    );
    let vel3 = if p.repulsion_forces {
        pair_repulsion_sum(snap, d.position, threshold, vel2, snap.len() as int)
    } else {
        vel2
    };
    let pos1 = v2_add(d.position, v2_scale(vel3, p.speed_scale));
    let rb = reflect_boundary_s(pos1, vel3);
    DotV {
        position: rb.0,
        velocity: rb.1,
        density: d.density,
        color: d.color,
        distance_to_cursor: d.distance_to_cursor,
        is_selected: d.is_selected,
    }
}

/// A step with nothing to do moves nothing: with the orbital and repulsion
/// forces toggled off, a dot at rest whose local density sits exactly at
/// the target density, strictly inside the boundary, keeps its position
/// and stays at rest.
pub proof fn lemma_quiescent_step(snap: Seq<DotV>, i: int, p: SimParams)
    requires
        0 <= i < snap.len(),
        dots_wf(snap),
        !p.orbital_forces,
        !p.repulsion_forces,
        snap[i].velocity == v2_zero(),
        forall|j: int| 0 <= j < snap.len() ==> #[trigger] snap[j].density == p.target_density,
        -(BOUNDARY_X as int) < snap[i].position.x < BOUNDARY_X as int,
        -(BOUNDARY_Y as int) < snap[i].position.y < BOUNDARY_Y as int,
    ensures
        step_dot_s(snap, i, p).position == snap[i].position,
        step_dot_s(snap, i, p).velocity == v2_zero(),
{
    let d = snap[i];
    lemma_equilibrium_pressure(
        snap,
        d.position,
        SMOOTHING_RADIUS as int,
        p.target_density,
        p.pressure_multiplier,
        snap.len() as int,
    );
    let share = fx_div_s(CENTRIPETAL_BUDGET as int, snap.len() * (SCALE as int));
    lemma_fx_mul_zero(share);
    assert(fx_add_s(0, 0) == 0);
    lemma_fx_mul_zero(p.force_scale);
    let vel1 = v2_add(
        d.velocity,
        v2_scale(
            v2_add(
                v2_add(
                    pressure_force(
                        snap,
                        d.position,
                        SMOOTHING_RADIUS as int,
                        p.target_density,
                        p.pressure_multiplier,
                    ),
                    v2_zero(),
                ),
                v2_scale(v2_zero(), share),
            ),
            p.force_scale,
        ),
    );
    assert(vel1 == v2_zero());
    lemma_fx_mul_zero(p.speed_scale);
    assert(dot_wf(d));
    assert(fx_add_s(d.position.x, 0) == d.position.x);
    assert(fx_add_s(d.position.y, 0) == d.position.y);
    let pos1 = v2_add(d.position, v2_scale(v2_zero(), p.speed_scale));
    assert(pos1 == d.position);
}

/// A dot with a freshly computed density.
pub open spec fn with_density(d: DotV, rho: int) -> DotV {
    DotV { density: rho, ..d }
}

/// The snapshot every step reads: each dot with the density recomputed
/// from the current positions.
pub open spec fn refresh_densities(dots: Seq<DotV>, radius: int) -> Seq<DotV> {
    Seq::new(dots.len(), |i: int| with_density(dots[i], density_at(dots, dots[i].position, radius)))
}

/// One dot's step, computed from the read-only snapshot.
fn step_dot(
    snapshot: &Vec<Dot>,
    i: usize,
    target_density: i64,
    pressure_multiplier: i64,
    speed_scale: i64,
    force_scale: i64,
    zoom: i64,
    orbital_forces: bool,
    repulsion_forces: bool,
) -> (r: Dot)
    requires
        dots_wf(dot_views(snapshot@)),
        i < snapshot@.len(),
        snapshot@.len() * (SCALE as int) <= FX_MAX as int,
    ensures
        r@ == step_dot_s(
            dot_views(snapshot@),
            i as int,
            SimParams {
                target_density: target_density as int,
                pressure_multiplier: pressure_multiplier as int,
                speed_scale: speed_scale as int,
                force_scale: force_scale as int,
                zoom: zoom as int,
                orbital_forces,
                repulsion_forces,
            },
        ),
        dot_wf(r@),
{
    let ghost snap = dot_views(snapshot@);
    assert(dot_wf(snap[i as int]));
    let dot = snapshot[i];
    let pressure = calculate_pressure(
        snapshot,
        dot.position,
        SMOOTHING_RADIUS,
        target_density,
        pressure_multiplier,
    );
    let center = Pair::new(0, 0);
    let to_center = center.sub(dot.position);
    let dist_c = to_center.magnitude();
    let dguard = fx_max(dist_c, DISTANCE_EPSILON);
    let dir_c = to_center.div(dguard);
    let centripetal = if orbital_forces {
        let speed = dot.velocity.magnitude();
        let cmag = fx_div(fx_mul(speed, speed), dguard);
        dir_c.mul(cmag).mul(CIRCULAR_FORCE_STRENGTH)
    } else {
        Pair::new(0, 0)
    };
    proof {
        assert(snapshot@.len() * (SCALE as int) >= 1 * (SCALE as int)) by (nonlinear_arith)
            requires
                snapshot@.len() >= 1,
                SCALE as int > 0;
    }
    let n_fx: i64 = (snapshot.len() as i64) * SCALE;
    let share = fx_div(CENTRIPETAL_BUDGET, n_fx);
    let gravity = Pair::new(0, 0);
    let vel1 = dot.velocity.add(
        pressure.add(gravity).add(centripetal.mul(share)).mul(force_scale),
    );
    let vel2 = if repulsion_forces && dist_c < CENTER_REPULSIVE_RADIUS {
        vel1.add(
            dir_c.neg().mul(REPULSIVE_FORCE_STRENGTH).add(Pair::new(PERTURB_X, PERTURB_Y)),
        )
    } else {
        vel1
    };
    let ghost threshold_s = fx_add_s(
        PARTICLE_REPULSIVE_RADIUS as int,
        fx_div_s(fx_mul_s(12 * (SCALE as int), zoom as int), 5 * (SCALE as int)),
    );
    let mut vel = vel2;
    if repulsion_forces {
        let threshold = fx_add(PARTICLE_REPULSIVE_RADIUS, fx_div(fx_mul(12 * SCALE, zoom), 5 * SCALE));
        let mut j: usize = 0;
        while j < snapshot.len()
            invariant
                dots_wf(snap),
                snap == dot_views(snapshot@),
                snap.len() == snapshot@.len(),
                i < snapshot@.len(),
                j <= snapshot@.len(),
                threshold as int == threshold_s,
                dot == snapshot@[i as int],
                v2_in_range(dot.position@),
                v2_in_range(vel@),
                vel@ == pair_repulsion_sum(snap, dot@.position, threshold_s, vel2@, j as int),
            decreases snapshot@.len() - j,
        {
            assert(dot_wf(snap[j as int]));
            let other = snapshot[j];
            if dot.position != other.position {
                let to_other = other.position.sub(dot.position);
                let dist = to_other.magnitude();
                if dist < threshold {
                    proof {
                        assert(to_other@.x != 0 || to_other@.y != 0);
                        lemma_norm_pos(to_other@);
                    }
                    let dir = to_other.div(fx_max(dist, DISTANCE_EPSILON));
                    vel = vel.add(dir.neg().mul(REPULSIVE_FORCE_STRENGTH).div(dist));
                }
            }
            j += 1;
        }
    }
    let pos1 = dot.position.add(vel.mul(speed_scale));
    let reflected = reflect_boundary(pos1, vel);
    Dot {
        position: reflected.0,
        velocity: reflected.1,
        density: dot.density,
        color: dot.color,
        distance_to_cursor: dot.distance_to_cursor,
        is_selected: dot.is_selected,
    }
}

/// Advances the whole simulation by one frame: densities are recomputed
/// from the current positions into a read-only snapshot, and every dot is
/// then stepped independently against that snapshot.  The parameters, the
/// pointer state and each dot's selection flag are untouched.
pub fn update_dots(state: &mut State)
    requires
        old(state).wf(),
        old(state).dots@.len() * (SCALE as int) <= FX_MAX as int,
    ensures
        final(state).wf(),
        final(state).dots@.len() == old(state).dots@.len(),
        ({
            let snap = refresh_densities(dot_views(old(state).dots@), SMOOTHING_RADIUS as int);
            forall|i: int|
                0 <= i < snap.len() ==> dot_views(final(state).dots@)[i] == step_dot_s(
                    snap,
                    i,
                    old(state).params(),
                )
        }),
        forall|i: int|
            0 <= i < old(state).dots@.len() ==> dot_views(final(state).dots@)[i].is_selected
                == dot_views(old(state).dots@)[i].is_selected,
        final(state).zoom == old(state).zoom,
        final(state).window_size == old(state).window_size,
        final(state).mouse_info == old(state).mouse_info,
        final(state).target_density == old(state).target_density,
        final(state).pressure_multiplier == old(state).pressure_multiplier,
        final(state).speed_scale == old(state).speed_scale,
        final(state).force_scale == old(state).force_scale,
        final(state).focus_color == old(state).focus_color,
        final(state).orbital_forces == old(state).orbital_forces,
        final(state).repulsion_forces == old(state).repulsion_forces,
        at_most_one_selected(dot_views(old(state).dots@)) ==> at_most_one_selected(
            dot_views(final(state).dots@),
        ),
{
    let ghost old_dv = dot_views(state.dots@);
    let ghost snap = refresh_densities(old_dv, SMOOTHING_RADIUS as int);
    let densities = compute_densities(&state.dots, SMOOTHING_RADIUS);
    let mut refreshed: Vec<Dot> = Vec::new();
    let mut i: usize = 0;
    while i < state.dots.len()
        invariant
            *state == *old(state),
            old_dv == dot_views(state.dots@),
            snap == refresh_densities(old_dv, SMOOTHING_RADIUS as int),
            old(state).wf(),
            densities@.len() == state.dots@.len(),
            forall|k: int|
                0 <= k < state.dots@.len() ==> #[trigger] densities@[k] as int == density_at(
                    old_dv,
                    old_dv[k].position,
                    SMOOTHING_RADIUS as int,
                ),
            i <= state.dots@.len(),
            refreshed@.len() == i,
            forall|k: int| 0 <= k < i ==> #[trigger] refreshed@[k]@ == snap[k],
        decreases state.dots@.len() - i,
    {
        let d = state.dots[i];
        let nd = densities[i];
        refreshed.push(
            Dot {
                position: d.position,
                velocity: d.velocity,
                density: nd,
                color: d.color,
                distance_to_cursor: d.distance_to_cursor,
                is_selected: d.is_selected,
            },
        );
        i += 1;
    }
    proof {
        assert(dot_views(refreshed@) =~= snap);
        assert forall|k: int| 0 <= k < snap.len() implies dot_wf(#[trigger] snap[k]) by {
            assert(dot_wf(old_dv[k]));
            lemma_density_sum_nonneg(old_dv, old_dv[k].position, SMOOTHING_RADIUS as int, old_dv.len() as int);
        }
    }
    let target_density = state.target_density;
    let pressure_multiplier = state.pressure_multiplier;
    let speed_scale = state.speed_scale;
    let force_scale = state.force_scale;
    let zoom = state.zoom;
    let orbital_forces = state.orbital_forces;
    let repulsion_forces = state.repulsion_forces;
    let ghost p = old(state).params();
    let mut out: Vec<Dot> = Vec::new();
    let mut k: usize = 0;
    while k < refreshed.len()
        invariant
            *state == *old(state),
            dots_wf(snap),
            snap == dot_views(refreshed@),
            snap.len() == refreshed@.len(),
            refreshed@.len() == state.dots@.len(),
            refreshed@.len() * (SCALE as int) <= FX_MAX as int,
            target_density == state.target_density,
            pressure_multiplier == state.pressure_multiplier,
            speed_scale == state.speed_scale,
            force_scale == state.force_scale,
            zoom == state.zoom,
            orbital_forces == state.orbital_forces,
            repulsion_forces == state.repulsion_forces,
            p == old(state).params(),
            k <= refreshed@.len(),
            out@.len() == k,
            forall|m: int| 0 <= m < k ==> #[trigger] out@[m]@ == step_dot_s(snap, m, p),
            forall|m: int| 0 <= m < k ==> dot_wf(#[trigger] out@[m]@),
        decreases refreshed@.len() - k,
    {
        let nd = step_dot(
            &refreshed,
            k,
            target_density,
            pressure_multiplier,
            speed_scale,
            force_scale,
            zoom,
            orbital_forces,
            repulsion_forces,
        );
        out.push(nd);
        k += 1;
    }
    state.dots = out;
}

/// The pointer position rescaled from window pixels into the fixed
/// simulation coordinate space.
pub open spec fn scaled_cursor(raw: Vec2i, width: int, height: int) -> Vec2i
    recommends
        width > 0,
        height > 0,
{
    Vec2i {
        x: fx_mul_s(raw.x, fx_div_s(SIM_WIDTH as int, width * (SCALE as int))),
        y: fx_mul_s(raw.y, fx_div_s(SIM_HEIGHT as int, height * (SCALE as int))),
    }
}

/// A pointer drag rescaled from window pixels into simulation units.
pub open spec fn scaled_delta(cur: Vec2i, last: Vec2i, width: int, height: int) -> Vec2i
    recommends
        width > 0,
        height > 0,
{
    Vec2i {
        x: fx_mul_s(fx_sub_s(cur.x, last.x), fx_div_s(SIM_WIDTH as int, width * (SCALE as int))),
        y: fx_mul_s(fx_sub_s(cur.y, last.y), fx_div_s(SIM_HEIGHT as int, height * (SCALE as int))),
    }
}

/// Offset between centered simulation coordinates and screen coordinates.
pub open spec fn sim_offset() -> Vec2i {
    Vec2i { x: SIM_HALF_WIDTH as int, y: SIM_HALF_HEIGHT as int }
}

/// A dot's distance to the rescaled cursor, measured in screen coordinates.
pub open spec fn cursor_distance(d: DotV, scaled: Vec2i) -> int {
    v2_dist(scaled, v2_add(d.position, sim_offset()))
}

/// A dot with its cursor distance refreshed.
pub open spec fn with_cursor_distance(d: DotV, scaled: Vec2i) -> DotV {
    DotV { distance_to_cursor: cursor_distance(d, scaled), ..d }
}

/// A dot after a pointer move: its cursor distance is refreshed, and a
/// selected dot is dragged to the cursor.
pub open spec fn tracked_dot(d: DotV, scaled: Vec2i) -> DotV {
    let d1 = with_cursor_distance(d, scaled);
    if d.is_selected {
        DotV { position: v2_sub(scaled, sim_offset()), ..d1 }
    } else {
        d1
    }
}

/// A dot after the pointer is released: deselected, and stopped if it was
/// moving faster than the throw limit.
pub open spec fn released_dot(d: DotV) -> DotV {
    let speed = v2_norm(v2_abs(d.velocity));
    DotV {
        velocity: if speed > THROW_SPEED_LIMIT as int {
            v2_zero()
        } else {
            d.velocity
        },
        is_selected: false,
        ..d
    }
}

/// Index of the dot a pointer press picks among the first `k`: the one
/// nearest the cursor within the pick radius, later dots winning ties, or
/// `-1` when none is in range.
pub open spec fn picked_index(dots: Seq<DotV>, k: int) -> int
    decreases k,
{
    if k <= 0 {
        -1
    } else {
        let prev = picked_index(dots, k - 1);
        let d = dots[k - 1];
        if d.distance_to_cursor < PICK_RADIUS as int {
            if prev == -1 || d.distance_to_cursor <= dots[prev].distance_to_cursor {
                k - 1
            } else {
                prev
            }
        } else {
            prev
        }
    }
}

/// Index of the dot a pointer press picks, or `-1`.
pub open spec fn picked(dots: Seq<DotV>) -> int {
    picked_index(dots, dots.len() as int)
}

/// Nothing is picked exactly when no dot lies within the pick radius.
pub proof fn lemma_picked_none(dots: Seq<DotV>, k: int)
    requires
        k <= dots.len(),
    ensures
        picked_index(dots, k) == -1 <==> (forall|j: int|
            0 <= j < k ==> #[trigger] dots[j].distance_to_cursor >= PICK_RADIUS as int),
    decreases k,
{
    if k > 0 {
        lemma_picked_none(dots, k - 1);
    }
}

/// A picked dot is in range of the pick radius and is nearest the cursor
/// among every dot in range.
pub proof fn lemma_picked_min(dots: Seq<DotV>, k: int)
    requires
        k <= dots.len(),
        picked_index(dots, k) != -1,
    ensures
        0 <= picked_index(dots, k) < k,
        dots[picked_index(dots, k)].distance_to_cursor < PICK_RADIUS as int,
        forall|j: int|
            0 <= j < k && #[trigger] dots[j].distance_to_cursor < PICK_RADIUS as int ==> dots[
                picked_index(dots, k)
            ].distance_to_cursor <= dots[j].distance_to_cursor,
    decreases k,
{
    if k > 0 {
        if picked_index(dots, k - 1) != -1 {
            lemma_picked_min(dots, k - 1);
        } else {
            lemma_picked_none(dots, k - 1);
        }
    }
}

impl State {
    /// Creates the simulation: `ndots` dots placed at random inside the
    /// orbit rectangle, with the reference parameter tuning.
    pub fn new(ndots: usize, window_width: u32, window_height: u32) -> (r: State)
        requires
            1 <= ndots <= 100_000_000,
        ensures
            r.wf(),
            r.dots@.len() == ndots,
            forall|i: int|
                0 <= i < r.dots@.len() ==> !(#[trigger] dot_views(r.dots@)[i]).is_selected,
            at_most_one_selected(dot_views(r.dots@)),
            r.zoom as int == 40 * (SCALE as int),
            r.target_density == 50_000_000,
            r.pressure_multiplier as int == 10 * (SCALE as int),
            r.speed_scale as int == fx_div_s(SCALE as int, ndots * (SCALE as int)),
            r.force_scale as int == fx_div_s(SCALE as int, ndots * (SCALE as int)),
            r.window_size.width == window_width,
            r.window_size.height == window_height,
            !r.mouse_info.mouse_down,
            r.focus_color is None,
            r.orbital_forces,
            r.repulsion_forces,
    {
        let dots = generate_dots(
            ndots,
            (window_width as i64) * SCALE,
            (window_height as i64) * SCALE,
            150 * SCALE,
        );
        proof {
            assert(ndots * (SCALE as int) <= 100_000_000 * (SCALE as int)) by (nonlinear_arith)
                requires
                    ndots <= 100_000_000,
                    0 < SCALE as int;
            assert(1 * (SCALE as int) <= ndots * (SCALE as int)) by (nonlinear_arith)
                requires
                    1 <= ndots,
                    0 < SCALE as int;
        }
        let n_fx: i64 = (ndots as i64) * SCALE;
        let inv_n = fx_div(SCALE, n_fx);
        State {
            dots,
            zoom: 40 * SCALE,
            window_size: WindowSize::new(window_width, window_height),
            mouse_info: MouseInfo {
                mouse_down: false,
                mouse_position: Pair::new(0, 0),
                mouse_position_last: None,
                mouse_delta: Pair::new(0, 0),
                scaled_mouse_position: Pair::new(0, 0),
            },
            target_density: 50_000_000,
            pressure_multiplier: 10 * SCALE,
            speed_scale: inv_n,
            force_scale: inv_n,
            focus_color: None,
            orbital_forces: true,
            repulsion_forces: true,
        }
    }

    /// Pointer moved: rescale the position, refresh every dot's cursor
    /// distance, drag the selected dot to the cursor, and track the drag
    /// delta while the button is down.  Selection flags are untouched.
    pub fn pointer_move(&mut self, position: Pair)
        requires
            old(self).wf(),
            v2_in_range(position@),
            old(self).window_size.width > 0,
            old(self).window_size.height > 0,
        ensures
            final(self).wf(),
            final(self).dots@.len() == old(self).dots@.len(),
            ({
                let scaled = scaled_cursor(
                    position@,
                    old(self).window_size.width as int,
                    old(self).window_size.height as int,
                );
                &&& final(self).mouse_info.scaled_mouse_position@ == scaled
                &&& forall|i: int|
                    0 <= i < old(self).dots@.len() ==> dot_views(final(self).dots@)[i]
                        == tracked_dot(#[trigger] dot_views(old(self).dots@)[i], scaled)
            }),
            final(self).mouse_info.mouse_position == position,
            final(self).mouse_info.mouse_down == old(self).mouse_info.mouse_down,
            old(self).mouse_info.mouse_down ==> final(self).mouse_info.mouse_position_last
                == Some(position),
            !old(self).mouse_info.mouse_down ==> final(self).mouse_info.mouse_position_last == old(
                self,
            ).mouse_info.mouse_position_last,
            ({
                let moved = old(self).mouse_info.mouse_down
                    && old(self).mouse_info.mouse_position_last is Some;
                &&& moved ==> final(self).mouse_info.mouse_delta@ == scaled_delta(
                    position@,
                    old(self).mouse_info.mouse_position_last->Some_0@,
                    old(self).window_size.width as int,
                    old(self).window_size.height as int,
                )
                &&& !moved ==> final(self).mouse_info.mouse_delta == old(
                    self,
                ).mouse_info.mouse_delta
            }),
            forall|i: int|
                0 <= i < old(self).dots@.len() ==> dot_views(final(self).dots@)[i].is_selected == (
                #[trigger] dot_views(old(self).dots@)[i]).is_selected,
            at_most_one_selected(dot_views(old(self).dots@)) ==> at_most_one_selected(
                dot_views(final(self).dots@),
            ),
            final(self).zoom == old(self).zoom,
            final(self).window_size == old(self).window_size,
            final(self).target_density == old(self).target_density,
            final(self).pressure_multiplier == old(self).pressure_multiplier,
            final(self).speed_scale == old(self).speed_scale,
            final(self).force_scale == old(self).force_scale,
            final(self).focus_color == old(self).focus_color,
            final(self).orbital_forces == old(self).orbital_forces,
            final(self).repulsion_forces == old(self).repulsion_forces,
    {
        let width = self.window_size.width;
        let height = self.window_size.height;
        proof {
            assert((width as int) * (SCALE as int) <= 0x100000000int * (SCALE as int) && 0 < (
            width as int) * (SCALE as int)) by (nonlinear_arith)
                requires
                    0 < width as int <= 0x100000000int,
                    0 < SCALE as int;
            assert((height as int) * (SCALE as int) <= 0x100000000int * (SCALE as int) && 0 < (
            height as int) * (SCALE as int)) by (nonlinear_arith)
                requires
                    0 < height as int <= 0x100000000int,
                    0 < SCALE as int;
        }
        let wfx: i64 = (width as i64) * SCALE;
        let hfx: i64 = (height as i64) * SCALE;
        let sx = fx_mul(position.x, fx_div(SIM_WIDTH, wfx));
        let sy = fx_mul(position.y, fx_div(SIM_HEIGHT, hfx));
        let scaled = Pair::new(sx, sy);
        let ghost scaled_s = scaled_cursor(position@, width as int, height as int);
        let offset = Pair::new(SIM_HALF_WIDTH, SIM_HALF_HEIGHT);
        let ghost old_dv = dot_views(self.dots@);
        let mut new_dots: Vec<Dot> = Vec::new();
        let mut i: usize = 0;
        while i < self.dots.len()
            invariant
                old(self).wf(),
                self.dots@ == old(self).dots@,
                old_dv == dot_views(self.dots@),
                scaled@ == scaled_s,
                v2_in_range(scaled@),
                offset@ == sim_offset(),
                i <= self.dots@.len(),
                new_dots@.len() == i,
                forall|k: int|
                    0 <= k < i ==> #[trigger] new_dots@[k]@ == tracked_dot(old_dv[k], scaled_s),
                forall|k: int| 0 <= k < i ==> dot_wf(#[trigger] new_dots@[k]@),
            decreases self.dots@.len() - i,
        {
            assert(dot_wf(old_dv[i as int]));
            let d = self.dots[i];
            let dist = scaled.distance(d.position.add(offset));
            let newpos = if d.is_selected {
                scaled.sub(offset)
            } else {
                d.position
            };
            new_dots.push(
                Dot {
                    position: newpos,
                    velocity: d.velocity,
                    density: d.density,
                    color: d.color,
                    distance_to_cursor: dist,
                    is_selected: d.is_selected,
                },
            );
            i += 1;
        }
        self.dots = new_dots;
        proof {
            let fdv = dot_views(self.dots@);
            assert forall|k: int| 0 <= k < fdv.len() implies #[trigger] fdv[k] == tracked_dot(
                old_dv[k],
                scaled_s,
            ) && dot_wf(fdv[k]) by {
                assert(fdv[k] == self.dots@[k]@);
            }
        }
        self.mouse_info.mouse_position = position;
        self.mouse_info.scaled_mouse_position = scaled;
        if self.mouse_info.mouse_down {
            match self.mouse_info.mouse_position_last {
                Some(last) => {
                    let dx = fx_mul(fx_sub(position.x, last.x), fx_div(SIM_WIDTH, wfx));
                    let dy = fx_mul(fx_sub(position.y, last.y), fx_div(SIM_HEIGHT, hfx));
                    self.mouse_info.mouse_delta = Pair::new(dx, dy);
                },
                None => {},
            }
            self.mouse_info.mouse_position_last = Some(position);
        }
    }

    /// Pointer pressed: rescale the position, refresh every dot's cursor
    /// distance, and select the dot nearest the cursor within the pick
    /// radius, if any, remembering its color for the highlight.  With no
    /// dot in range, no selection flag changes.
    pub fn pointer_down(&mut self, position: Pair)
        requires
            old(self).wf(),
            v2_in_range(position@),
            old(self).window_size.width > 0,
            old(self).window_size.height > 0,
        ensures
            final(self).wf(),
            final(self).dots@.len() == old(self).dots@.len(),
            final(self).mouse_info.mouse_down,
            final(self).mouse_info.mouse_position == position,
            ({
                let scaled = scaled_cursor(
                    position@,
                    old(self).window_size.width as int,
                    old(self).window_size.height as int,
                );
                let moved = old(self).dots@.map_values(
                    |d: Dot| with_cursor_distance(d@, scaled),
                );
                let pk = picked(moved);
                &&& final(self).mouse_info.scaled_mouse_position@ == scaled
                &&& pk == -1 ==> {
                    &&& dot_views(final(self).dots@) == moved
                    &&& final(self).focus_color == old(self).focus_color
                }
                &&& pk != -1 ==> {
                    &&& 0 <= pk < moved.len()
                    &&& forall|j: int|
                        0 <= j < moved.len() ==> dot_views(final(self).dots@)[j] == (DotV {
                            is_selected: j == pk,
                            ..#[trigger] moved[j]
                        })
                    &&& final(self).focus_color == Some(moved[pk].color)
                }
            }),
            ({
                let scaled = scaled_cursor(
                    position@,
                    old(self).window_size.width as int,
                    old(self).window_size.height as int,
                );
                let moved = old(self).dots@.map_values(
                    |d: Dot| with_cursor_distance(d@, scaled),
                );
                (forall|j: int|
                    0 <= j < moved.len() ==> #[trigger] moved[j].distance_to_cursor
                        >= PICK_RADIUS as int) ==> forall|j: int|
                    0 <= j < moved.len() ==> dot_views(final(self).dots@)[j].is_selected == (
                    #[trigger] dot_views(old(self).dots@)[j]).is_selected
            }),
            at_most_one_selected(dot_views(old(self).dots@)) ==> at_most_one_selected(
                dot_views(final(self).dots@),
            ),
            !old(self).mouse_info.mouse_down ==> final(self).mouse_info.mouse_position_last
                is None,
            final(self).zoom == old(self).zoom,
            final(self).window_size == old(self).window_size,
            final(self).target_density == old(self).target_density,
            final(self).pressure_multiplier == old(self).pressure_multiplier,
            final(self).speed_scale == old(self).speed_scale,
            final(self).force_scale == old(self).force_scale,
            final(self).orbital_forces == old(self).orbital_forces,
            final(self).repulsion_forces == old(self).repulsion_forces,
    {
        let width = self.window_size.width;
        let height = self.window_size.height;
        proof {
            assert((width as int) * (SCALE as int) <= 0x100000000int * (SCALE as int) && 0 < (
            width as int) * (SCALE as int)) by (nonlinear_arith)
                requires
                    0 < width as int <= 0x100000000int,
                    0 < SCALE as int;
            assert((height as int) * (SCALE as int) <= 0x100000000int * (SCALE as int) && 0 < (
            height as int) * (SCALE as int)) by (nonlinear_arith)
                requires
                    0 < height as int <= 0x100000000int,
                    0 < SCALE as int;
        }
        let wfx: i64 = (width as i64) * SCALE;
        let hfx: i64 = (height as i64) * SCALE;
        let sx = fx_mul(position.x, fx_div(SIM_WIDTH, wfx));
        let sy = fx_mul(position.y, fx_div(SIM_HEIGHT, hfx));
        let scaled = Pair::new(sx, sy);
        let ghost scaled_s = scaled_cursor(position@, width as int, height as int);
        let ghost moved = old(self).dots@.map_values(|d: Dot| with_cursor_distance(d@, scaled_s));
        let offset = Pair::new(SIM_HALF_WIDTH, SIM_HALF_HEIGHT);
        let ghost old_dv = dot_views(self.dots@);
        let mut new_dots: Vec<Dot> = Vec::new();
        let mut i: usize = 0;
        while i < self.dots.len()
            invariant
                old(self).wf(),
                self.dots@ == old(self).dots@,
                old_dv == dot_views(self.dots@),
                scaled@ == scaled_s,
                v2_in_range(scaled@),
                offset@ == sim_offset(),
                moved == old(self).dots@.map_values(|d: Dot| with_cursor_distance(d@, scaled_s)),
                i <= self.dots@.len(),
                new_dots@.len() == i,
                forall|k: int| 0 <= k < i ==> #[trigger] new_dots@[k]@ == moved[k],
                forall|k: int| 0 <= k < i ==> dot_wf(#[trigger] new_dots@[k]@),
            decreases self.dots@.len() - i,
        {
            assert(dot_wf(old_dv[i as int]));
            let d = self.dots[i];
            let dist = scaled.distance(d.position.add(offset));
            new_dots.push(
                Dot {
                    position: d.position,
                    velocity: d.velocity,
                    density: d.density,
                    color: d.color,
                    distance_to_cursor: dist,
                    is_selected: d.is_selected,
                },
            );
            i += 1;
        }
        self.dots = new_dots;
        self.mouse_info.mouse_position = position;
        self.mouse_info.scaled_mouse_position = scaled;
        if !self.mouse_info.mouse_down {
            self.mouse_info.mouse_down = true;
            self.mouse_info.mouse_position_last = None;
        }
        let ghost dv = dot_views(self.dots@);
        proof {
            assert(dv =~= moved);
            assert forall|k: int| 0 <= k < dv.len() implies dot_wf(#[trigger] dv[k]) by {
                assert(dv[k] == self.dots@[k]@);
            }
            assert(dots_wf(dv));
        }
        let mut best: Option<usize> = None;
        let mut j: usize = 0;
        while j < self.dots.len()
            invariant
                dv == dot_views(self.dots@),
                dv.len() == self.dots@.len(),
                j <= self.dots@.len(),
                match best {
                    Some(b) => 0 <= (b as int) < (j as int) && picked_index(dv, j as int) == b as int,
                    None => picked_index(dv, j as int) == -1,
                },
            decreases self.dots@.len() - j,
        {
            let d = self.dots[j].distance_to_cursor;
            if d < PICK_RADIUS {
                let take = match best {
                    None => true,
                    Some(b) => d <= self.dots[b].distance_to_cursor,
                };
                if take {
                    best = Some(j);
                }
            }
            j += 1;
        }
        match best {
            Some(b) => {
                let color = self.dots[b].color;
                self.focus_color = Some(color);
                let mut flagged: Vec<Dot> = Vec::new();
                let mut m: usize = 0;
                while m < self.dots.len()
                    invariant
                        dv == dot_views(self.dots@),
                        dv.len() == self.dots@.len(),
                        (b as int) < dv.len(),
                        m <= self.dots@.len(),
                        flagged@.len() == m,
                        forall|k: int|
                            0 <= k < m ==> #[trigger] flagged@[k]@ == (DotV {
                                is_selected: k == b as int,
                                ..dv[k]
                            }),
                    decreases self.dots@.len() - m,
                {
                    let d = self.dots[m];
                    flagged.push(
                        Dot {
                            position: d.position,
                            velocity: d.velocity,
                            density: d.density,
                            color: d.color,
                            distance_to_cursor: d.distance_to_cursor,
                            is_selected: m == b,
                        },
                    );
                    m += 1;
                }
                self.dots = flagged;
                proof {
                    lemma_picked_min(dv, dv.len() as int);
                    let fdv = dot_views(self.dots@);
                    assert forall|k: int| 0 <= k < fdv.len() implies #[trigger] fdv[k] == (DotV {
                        is_selected: k == b as int,
                        ..moved[k]
                    }) && dot_wf(fdv[k]) by {
                        assert(fdv[k] == self.dots@[k]@);
                        assert(dot_wf(dv[k]));
                    }
                    assert forall|i: int, j: int|
                        0 <= i < fdv.len() && 0 <= j < fdv.len() && #[trigger] fdv[i].is_selected
                            && #[trigger] fdv[j].is_selected implies i == j by {
                        assert(fdv[i] == (DotV { is_selected: i == b as int, ..moved[i] }));
                        assert(fdv[j] == (DotV { is_selected: j == b as int, ..moved[j] }));
                    }
                }
            },
            None => {
                proof {
                    lemma_picked_none(dv, dv.len() as int);
                    let odv = dot_views(old(self).dots@);
                    assert forall|k: int| 0 <= k < dv.len() implies #[trigger] dv[k].is_selected
                        == odv[k].is_selected by {
                        assert(odv[k] == old(self).dots@[k]@);
                    }
                    if at_most_one_selected(odv) {
                        assert forall|i: int, j: int|
                            0 <= i < dv.len() && 0 <= j < dv.len() && #[trigger] dv[i].is_selected
                                && #[trigger] dv[j].is_selected implies i == j by {
                            assert(odv[i].is_selected && odv[j].is_selected);
                        }
                    }
                }
            },
        }
    }

    /// Pointer released: the button state and every selection flag are
    /// cleared, and a dot moving faster than the throw limit is stopped.
    pub fn pointer_up(&mut self)
        requires
            old(self).wf(),
        ensures
            final(self).wf(),
            final(self).dots@.len() == old(self).dots@.len(),
            !final(self).mouse_info.mouse_down,
            forall|i: int|
                0 <= i < old(self).dots@.len() ==> dot_views(final(self).dots@)[i] == released_dot(
                    #[trigger] dot_views(old(self).dots@)[i],
                ),
            at_most_one_selected(dot_views(final(self).dots@)),
            final(self).mouse_info.mouse_position == old(self).mouse_info.mouse_position,
            final(self).mouse_info.mouse_position_last == old(self).mouse_info.mouse_position_last,
            final(self).mouse_info.mouse_delta == old(self).mouse_info.mouse_delta,
            final(self).mouse_info.scaled_mouse_position == old(
                self,
            ).mouse_info.scaled_mouse_position,
            final(self).zoom == old(self).zoom,
            final(self).window_size == old(self).window_size,
            final(self).target_density == old(self).target_density,
            final(self).pressure_multiplier == old(self).pressure_multiplier,
            final(self).speed_scale == old(self).speed_scale,
            final(self).force_scale == old(self).force_scale,
            final(self).focus_color == old(self).focus_color,
            final(self).orbital_forces == old(self).orbital_forces,
            final(self).repulsion_forces == old(self).repulsion_forces,
    {
        self.mouse_info.mouse_down = false;
        let ghost old_dv = dot_views(old(self).dots@);
        let mut new_dots: Vec<Dot> = Vec::new();
        let mut i: usize = 0;
        while i < self.dots.len()
            invariant
                old(self).wf(),
                self.dots@ == old(self).dots@,
                old_dv == dot_views(self.dots@),
                i <= self.dots@.len(),
                new_dots@.len() == i,
                forall|k: int| 0 <= k < i ==> #[trigger] new_dots@[k]@ == released_dot(old_dv[k]),
            decreases self.dots@.len() - i,
        {
            assert(dot_wf(old_dv[i as int]));
            let d = self.dots[i];
            let speed = d.velocity.abs().magnitude();
            let vel = if speed > THROW_SPEED_LIMIT {
                Pair::new(0, 0)
            } else {
                d.velocity
            };
            new_dots.push(
                Dot {
                    position: d.position,
                    velocity: vel,
                    density: d.density,
                    color: d.color,
                    distance_to_cursor: d.distance_to_cursor,
                    is_selected: false,
                },
            );
            i += 1;
        }
        self.dots = new_dots;
    }

    /// Sets the speed scale, clamped to stay at or above the minimum and
    /// within the representable range.
    pub fn set_speed_scale(&mut self, value: i64)
        ensures
            final(self).speed_scale as int == fx_clip(fx_max_s(value as int, MIN_SCALE_PARAM as int)),
            *final(self) == (State { speed_scale: final(self).speed_scale, ..*old(self) }),
            old(self).wf() ==> final(self).wf(),
    {
        let v = fx_max(value, MIN_SCALE_PARAM);
        self.speed_scale = if v > FX_MAX {
            FX_MAX
        } else {
            v
        };
    }

    /// Sets the force scale, clamped to stay at or above the minimum and
    /// within the representable range.
    pub fn set_force_scale(&mut self, value: i64)
        ensures
            final(self).force_scale as int == fx_clip(fx_max_s(value as int, MIN_SCALE_PARAM as int)),
            *final(self) == (State { force_scale: final(self).force_scale, ..*old(self) }),
            old(self).wf() ==> final(self).wf(),
    {
        let v = fx_max(value, MIN_SCALE_PARAM);
        self.force_scale = if v > FX_MAX {
            FX_MAX
        } else {
            v
        };
    }

    /// Sets the target density, saturated into the representable range.
    pub fn set_target_density(&mut self, value: i64)
        ensures
            final(self).target_density as int == fx_clip(value as int),
            *final(self) == (State { target_density: final(self).target_density, ..*old(self) }),
            old(self).wf() ==> final(self).wf(),
    {
        self.target_density = crate::fixed::clip_i128(value as i128);
    }

    /// Sets the pressure multiplier, saturated into the representable range.
    pub fn set_pressure_multiplier(&mut self, value: i64)
        ensures
            final(self).pressure_multiplier as int == fx_clip(value as int),
            *final(self) == (State {
                pressure_multiplier: final(self).pressure_multiplier,
                ..*old(self)
            }),
            old(self).wf() ==> final(self).wf(),
    {
        self.pressure_multiplier = crate::fixed::clip_i128(value as i128);
    }

    /// Sets the zoom, clamped into its documented safe range.
    pub fn set_zoom(&mut self, value: i64)
        ensures
            final(self).zoom as int == if value < ZOOM_MIN {
                ZOOM_MIN as int
            } else if value > ZOOM_MAX {
                ZOOM_MAX as int
            } else {
                value as int
            },
            *final(self) == (State { zoom: final(self).zoom, ..*old(self) }),
            old(self).wf() ==> final(self).wf(),
    {
        self.zoom = if value < ZOOM_MIN {
            ZOOM_MIN
        } else if value > ZOOM_MAX {
            ZOOM_MAX
        } else {
            value
        };
    }
}

/// A value drawn uniformly from `[-half, half]`.
fn sample_centered(half: i64) -> (r: i64)
    requires
        0 <= half,
        fx_in_range(half as int),
    ensures
        -half <= r <= half,
{
    let span: u64 = (half as u64) * 2 + 1;
    let draw = random_below(span);
    (draw as i64) - half
}

/// A color channel jittered up to thirty steps around its base value.
fn color_jitter(base: i64) -> (r: u8)
    requires
        30 <= base <= 225,
{
    let draw = random_below(60) as i64;
    ((base + draw) - 30) as u8
}

/// A freshly generated dot: well formed, unselected, with zero density
/// and cursor distance, placed inside the orbit square.
pub open spec fn fresh_dot_ok(d: DotV, orbit_radius: int) -> bool {
    &&& dot_wf(d)
    &&& !d.is_selected
    &&& d.density == 0
    &&& d.distance_to_cursor == 0
    &&& iabs(d.position.x) <= orbit_radius
    &&& iabs(d.position.y) <= orbit_radius
}

/// A fresh collection of `ndots` dots: positions drawn inside the square
/// of half-extent `orbit_radius` around the center, small random drift
/// velocities scaled for a stable orbit, jittered colors, zero density,
/// and nothing selected.
pub fn generate_dots(ndots: usize, width: i64, height: i64, orbit_radius: i64) -> (r: Vec<Dot>)
    requires
        ndots <= 100_000_000,
        0 <= orbit_radius,
        fx_in_range(orbit_radius as int),
    ensures
        r@.len() == ndots,
        dots_wf(dot_views(r@)),
        forall|i: int|
            0 <= i < r@.len() ==> fresh_dot_ok(#[trigger] dot_views(r@)[i], orbit_radius as int),
{
    let mut out: Vec<Dot> = Vec::new();
    if ndots == 0 {
        return out;
    }
    proof {
        assert(1 * (10 * (SCALE as int)) <= ndots * (10 * (SCALE as int)) <= 100_000_000 * (10 * (
        SCALE as int))) by (nonlinear_arith)
            requires
                1 <= ndots <= 100_000_000,
                0 < SCALE as int;
    }
    let n10: i64 = (ndots as i64) * (10 * SCALE);
    let q = fx_div(orbit_radius, n10);
    proof {
        crate::fixed::lemma_fx_div_nonneg(orbit_radius as int, n10 as int);
    }
    let s = fx_sqrt(q);
    let speed = fx_mul(s, 100_000_000);
    proof {
        lemma_fx_mul_nonneg(s as int, 100_000_000);
    }
    let half_vx = fx_div(speed, 2 * SCALE);
    let half_vy = fx_div(speed, 2_500_000_000);
    proof {
        crate::fixed::lemma_fx_div_nonneg(speed as int, 2 * (SCALE as int));
        crate::fixed::lemma_fx_div_nonneg(speed as int, 2_500_000_000int);
    }
    let mut i: usize = 0;
    while i < ndots
        invariant
            0 <= half_vx,
            fx_in_range(half_vx as int),
            0 <= half_vy,
            fx_in_range(half_vy as int),
            0 <= orbit_radius,
            fx_in_range(orbit_radius as int),
            i <= ndots,
            out@.len() == i,
            forall|k: int|
                0 <= k < out@.len() ==> fresh_dot_ok(#[trigger] out@[k]@, orbit_radius as int),
        decreases ndots - i,
    {
        let px = sample_centered(orbit_radius);
        let py = sample_centered(orbit_radius);
        let vx = sample_centered(half_vx);
        let vy = sample_centered(half_vy);
        let cr = color_jitter(207);
        let cg = color_jitter(31);
        let cb = color_jitter(72);
        let dot = Dot::new(
            Pair::new(px, py),
            Pair::new(vx, vy),
            0,
            Rgba { r: cr, g: cg, b: cb, a: 255 },
        );
        out.push(dot);
        proof {
            assert(fresh_dot_ok(dot@, orbit_radius as int));
        }
        i += 1;
    }
    proof {
        assert forall|k: int| 0 <= k < out@.len() implies fresh_dot_ok(
            #[trigger] dot_views(out@)[k],
            orbit_radius as int,
        ) by {
            assert(dot_views(out@)[k] == out@[k]@);
            assert(fresh_dot_ok(out@[k]@, orbit_radius as int));
        }
    }
    out
}

} // verus!
