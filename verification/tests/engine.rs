use gushy::BOUNDARY_X;
use gushy::Dot;
use gushy::PARTICLE_MASS;
use gushy::Rgba;
use gushy::SMOOTHING_RADIUS;
use gushy::calculate_pressure;
use gushy::compute_densities;
use gushy::density_to_pressure;
use gushy::derivative_smoothing_kernel;
use gushy::distance;
use gushy::fixed::PI_FX;
use gushy::fixed::SCALE;
use gushy::fixed::fx_div;
use gushy::fixed::fx_mul;
use gushy::math::Pair;
use gushy::reflect_boundary;
use gushy::smoothing_kernel;

fn plain_dot(x: i64, y: i64, density: i64) -> Dot {
    Dot::new(Pair::new(x, y), Pair::new(0, 0), density, Rgba { r: 0, g: 0, b: 0, a: 255 })
}

#[test]
fn kernel_vanishes_at_and_beyond_the_support_radius() {
    let r = SMOOTHING_RADIUS;
    assert_eq!(smoothing_kernel(r, r), 0);
    assert_eq!(smoothing_kernel(r, r + 1), 0);
    assert_eq!(smoothing_kernel(r, 25 * SCALE), 0);
}

#[test]
fn kernel_peaks_at_zero_distance_with_the_analytic_maximum() {
    let r = SMOOTHING_RADIUS;
    // 4 / (pi * 10 * 10) == 0.012732395...
    assert_eq!(smoothing_kernel(r, 0), 12_732_395);
    // and that equals the direct rendering of 4 / (pi * r * r)
    let direct = fx_div(4 * SCALE, fx_mul(PI_FX, fx_mul(r, r)));
    assert_eq!(smoothing_kernel(r, 0), direct);
    // a point strictly inside the support sits strictly below the peak
    assert_eq!(smoothing_kernel(r, 5 * SCALE), 5_371_479);
}

#[test]
fn kernel_is_nonnegative_across_the_support() {
    let r = SMOOTHING_RADIUS;
    let mut d = 0;
    while d <= 12 * SCALE {
        assert!(smoothing_kernel(r, d) >= 0);
        d += SCALE / 2;
    }
}

#[test]
fn kernel_gradient_vanishes_at_center_and_support() {
    let r = SMOOTHING_RADIUS;
    assert_eq!(derivative_smoothing_kernel(r, 0), 0);
    assert_eq!(derivative_smoothing_kernel(r, r), 0);
    assert_eq!(derivative_smoothing_kernel(r, r + SCALE), 0);
    // in between the gradient is negative (force points inward)
    assert_eq!(derivative_smoothing_kernel(r, 5 * SCALE), -2_148_591);
    assert_eq!(derivative_smoothing_kernel(r, 3 * SCALE), -1_897_865);
}

#[test]
fn distance_measures_between_dot_centers() {
    assert_eq!(distance(Pair::new(0, 0), Pair::new(3 * SCALE, 4 * SCALE)), 5 * SCALE);
}

#[test]
fn density_of_a_lone_dot_is_mass_times_the_kernel_peak() {
    let dots = vec![plain_dot(10 * SCALE, 5 * SCALE, 0)];
    let densities = compute_densities(&dots, SMOOTHING_RADIUS);
    assert_eq!(densities.len(), 1);
    // mass * kernel(r, 0): 0.0005 * 0.012732395 truncated
    assert_eq!(densities[0], 6_366);
    assert_eq!(densities[0], fx_mul(PARTICLE_MASS, smoothing_kernel(SMOOTHING_RADIUS, 0)));
}

#[test]
fn densities_are_nonnegative_and_count_only_neighbors_in_range() {
    let dots = vec![
        plain_dot(0, 0, 0),
        plain_dot(3 * SCALE, 0, 0),
        plain_dot(200 * SCALE, 0, 0),
    ];
    let densities = compute_densities(&dots, SMOOTHING_RADIUS);
    assert_eq!(densities.len(), 3);
    for d in &densities {
        assert!(*d >= 0);
    }
    // the two close dots see each other, the distant one only itself
    let self_only = 6_366;
    let pair_extra = fx_mul(PARTICLE_MASS, smoothing_kernel(SMOOTHING_RADIUS, 3 * SCALE));
    assert_eq!(densities[0], self_only + pair_extra);
    assert_eq!(densities[1], self_only + pair_extra);
    assert_eq!(densities[2], self_only);
}

#[test]
fn pressure_conversion_is_signed_deviation_times_multiplier() {
    // (0.5 - 0.05) * 10 == 4.5
    assert_eq!(density_to_pressure(500_000_000, 50_000_000, 10 * SCALE), 4_500_000_000);
    // below the target the pressure is negative
    assert_eq!(density_to_pressure(30_000_000, 50_000_000, 10 * SCALE), -200_000_000);
    // at the target it vanishes
    assert_eq!(density_to_pressure(50_000_000, 50_000_000, 10 * SCALE), 0);
}

#[test]
fn pressure_force_is_zero_at_equilibrium() {
    let target = 50_000_000;
    let dots = vec![
        plain_dot(0, 0, target),
        plain_dot(3 * SCALE, 0, target),
        plain_dot(0, 4 * SCALE, target),
    ];
    for dot in &dots {
        let f = calculate_pressure(&dots, dot.position(), SMOOTHING_RADIUS, target, 10 * SCALE);
        assert_eq!((f.x, f.y), (0, 0));
    }
}

#[test]
fn pressure_forces_on_a_close_pair_are_equal_and_opposite() {
    // two dots above the target density, within the support radius
    let rho = 500_000_000;
    let target = 50_000_000;
    let dots = vec![plain_dot(0, 0, rho), plain_dot(3 * SCALE, 0, rho)];
    let fa = calculate_pressure(&dots, Pair::new(0, 0), SMOOTHING_RADIUS, target, 10 * SCALE);
    let fb = calculate_pressure(
        &dots,
        Pair::new(3 * SCALE, 0),
        SMOOTHING_RADIUS,
        target,
        10 * SCALE,
    );
    assert_eq!((fa.x, fa.y), (8_540, 0));
    assert_eq!((fb.x, fb.y), (-8_540, 0));
    assert_eq!(fa.x, -fb.x);
    assert_eq!(fa.y, -fb.y);
}

#[test]
fn zero_density_neighbors_are_skipped() {
    let dots = vec![plain_dot(0, 0, 0), plain_dot(3 * SCALE, 0, 0)];
    let f = calculate_pressure(&dots, Pair::new(0, 0), SMOOTHING_RADIUS, 50_000_000, 10 * SCALE);
    assert_eq!((f.x, f.y), (0, 0));
}

#[test]
fn reflection_damps_and_reenters_the_arena() {
    let (pos, vel) = reflect_boundary(Pair::new(BOUNDARY_X, 0), Pair::new(2 * SCALE, 0));
    assert_eq!(pos.x, BOUNDARY_X - 500_000_000);
    assert!(pos.x < BOUNDARY_X);
    assert_eq!(pos.y, 0);
    // velocity component is reversed and damped by 0.85 exactly
    assert_eq!(vel.x, -1_700_000_000);
    assert_eq!(vel.y, 0);
}

#[test]
fn reflection_never_amplifies_either_velocity_component() {
    let cases = [
        (Pair::new(BOUNDARY_X + SCALE, 0), Pair::new(3 * SCALE, 2 * SCALE)),
        (Pair::new(-BOUNDARY_X, 7 * SCALE), Pair::new(-5 * SCALE, SCALE)),
        (Pair::new(0, 300 * SCALE), Pair::new(SCALE, 4 * SCALE)),
        (Pair::new(BOUNDARY_X, -300 * SCALE), Pair::new(2 * SCALE, -2 * SCALE)),
        (Pair::new(0, 0), Pair::new(9 * SCALE, -9 * SCALE)),
    ];
    for (p, v) in cases {
        let (_, rv) = reflect_boundary(p, v);
        assert!(rv.x.abs() <= v.x.abs());
        assert!(rv.y.abs() <= v.y.abs());
    }
}

#[test]
fn reflection_inside_the_arena_changes_nothing() {
    let (pos, vel) = reflect_boundary(Pair::new(5 * SCALE, -6 * SCALE), Pair::new(SCALE, 2 * SCALE));
    assert_eq!((pos.x, pos.y), (5 * SCALE, -6 * SCALE));
    assert_eq!((vel.x, vel.y), (SCALE, 2 * SCALE));
}
