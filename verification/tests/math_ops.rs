use gushy::fixed::FX_MAX;
use gushy::fixed::SCALE;
use gushy::fixed::fx_add;
use gushy::fixed::fx_div;
use gushy::fixed::fx_max;
use gushy::fixed::fx_mul;
use gushy::fixed::fx_neg;
use gushy::fixed::fx_sqrt;
use gushy::fixed::fx_sub;
use gushy::math::Pair;

#[test]
fn multiplication_is_exact_on_round_values() {
    // 2.0 * 0.85 == 1.7
    assert_eq!(fx_mul(2 * SCALE, 850_000_000), 1_700_000_000);
    // -3.0 * 0.5 == -1.5: the sign is applied after the magnitude
    assert_eq!(fx_mul(-3 * SCALE, 500_000_000), -1_500_000_000);
    assert_eq!(fx_mul(3 * SCALE, -500_000_000), -1_500_000_000);
}

#[test]
fn multiplication_truncates_toward_zero_symmetrically() {
    // one tick times one tick underflows to zero from either sign
    assert_eq!(fx_mul(1, 1), 0);
    assert_eq!(fx_mul(-1, 1), 0);
    // 0.3 * 0.3 = 0.09 exactly at this scale
    assert_eq!(fx_mul(300_000_000, 300_000_000), 90_000_000);
    assert_eq!(fx_mul(-300_000_000, 300_000_000), -90_000_000);
}

#[test]
fn arithmetic_saturates_at_the_range_bound() {
    assert_eq!(fx_add(FX_MAX, FX_MAX), FX_MAX);
    assert_eq!(fx_sub(-FX_MAX, FX_MAX), -FX_MAX);
    assert_eq!(fx_mul(FX_MAX, 2 * SCALE), FX_MAX);
    assert_eq!(fx_mul(FX_MAX, -2 * SCALE), -FX_MAX);
}

#[test]
fn division_and_negation_are_exact_on_round_values() {
    assert_eq!(fx_div(3 * SCALE, 2 * SCALE), 1_500_000_000);
    assert_eq!(fx_div(-3 * SCALE, 2 * SCALE), -1_500_000_000);
    assert_eq!(fx_neg(7 * SCALE), -7 * SCALE);
    assert_eq!(fx_max(-SCALE, SCALE), SCALE);
}

#[test]
fn square_root_is_exact_on_perfect_squares() {
    assert_eq!(fx_sqrt(4 * SCALE), 2 * SCALE);
    assert_eq!(fx_sqrt(2_250_000_000), 1_500_000_000);
    assert_eq!(fx_sqrt(0), 0);
}

#[test]
fn vector_arithmetic_is_componentwise() {
    let a = Pair::new(3 * SCALE, -4 * SCALE);
    let b = Pair::new(SCALE, 2 * SCALE);
    let sum = a.add(b);
    assert_eq!((sum.x, sum.y), (4 * SCALE, -2 * SCALE));
    let diff = a.sub(b);
    assert_eq!((diff.x, diff.y), (2 * SCALE, -6 * SCALE));
    let scaled = a.mul(500_000_000);
    assert_eq!((scaled.x, scaled.y), (1_500_000_000, -2 * SCALE));
    let halved = a.div(2 * SCALE);
    assert_eq!((halved.x, halved.y), (1_500_000_000, -2 * SCALE));
    let negated = a.neg();
    assert_eq!((negated.x, negated.y), (-3 * SCALE, 4 * SCALE));
    let magnitudes = a.abs();
    assert_eq!((magnitudes.x, magnitudes.y), (3 * SCALE, 4 * SCALE));
}

#[test]
fn dot_product_and_cross_product_match_the_formulas() {
    let a = Pair::new(2 * SCALE, 3 * SCALE);
    let b = Pair::new(4 * SCALE, -SCALE);
    // 2*4 + 3*(-1) == 5
    assert_eq!(a.dot(b), 5 * SCALE);
    let c = a.cross_prod(b);
    // x: 2*(-1) - 3*4 == -14, y is its negation
    assert_eq!((c.x, c.y), (-14 * SCALE, 14 * SCALE));
}

#[test]
fn magnitude_and_distance_use_the_euclidean_norm() {
    let v = Pair::new(3 * SCALE, 4 * SCALE);
    assert_eq!(v.magnitude(), 5 * SCALE);
    let a = Pair::new(SCALE, SCALE);
    let b = Pair::new(4 * SCALE, 5 * SCALE);
    assert_eq!(a.distance(b), 5 * SCALE);
    assert_eq!(b.distance(a), 5 * SCALE);
}

#[test]
fn normalization_yields_unit_vectors_and_keeps_zero() {
    let v = Pair::new(3 * SCALE, 4 * SCALE);
    let n = v.normalize();
    assert_eq!((n.x, n.y), (600_000_000, 800_000_000));
    let nz = v.normalize_or_zero();
    assert_eq!((nz.x, nz.y), (600_000_000, 800_000_000));
    let zero = Pair::new(0, 0);
    let z1 = zero.normalize();
    assert_eq!((z1.x, z1.y), (0, 0));
    let z2 = zero.normalize_or_zero();
    assert_eq!((z2.x, z2.y), (0, 0));
}
