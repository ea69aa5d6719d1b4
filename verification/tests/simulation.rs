use gushy::BOUNDARY_X;
use gushy::Dot;
use gushy::MouseInfo;
use gushy::Rgba;
use gushy::State;
use gushy::WindowSize;
use gushy::fixed::SCALE;
use gushy::math::Pair;
use gushy::update_dots;

fn quiet_state(dots: Vec<Dot>) -> State {
    State {
        dots,
        zoom: 40 * SCALE,
        window_size: WindowSize::new(800, 600),
        mouse_info: MouseInfo {
            mouse_down: false,
            mouse_position: Pair::new(0, 0),
            mouse_position_last: None,
            mouse_delta: Pair::new(0, 0),
            scaled_mouse_position: Pair::new(0, 0),
        },
        target_density: 50_000_000,
        pressure_multiplier: 10 * SCALE,
        speed_scale: SCALE,
        force_scale: SCALE,
        focus_color: None,
        orbital_forces: false,
        repulsion_forces: false,
    }
}

fn dot_at(x: i64, y: i64, vx: i64, vy: i64) -> Dot {
    Dot::new(Pair::new(x, y), Pair::new(vx, vy), 0, Rgba { r: 10, g: 20, b: 30, a: 255 })
}

#[test]
fn a_dot_on_the_boundary_with_outward_velocity_bounces_back_damped() {
    // exactly on the boundary, moving outward at 2.0 with damping 0.85
    let mut state = quiet_state(vec![dot_at(BOUNDARY_X, 0, 2 * SCALE, 0)]);
    update_dots(&mut state);
    let dot = &state.dots[0];
    // velocity component equals -0.85 * 2.0 exactly
    assert_eq!(dot.velocity().x, -1_700_000_000);
    assert_eq!(dot.velocity().y, 0);
    // and the dot is strictly inside the boundary again
    assert!(dot.position().x < BOUNDARY_X);
    assert_eq!(dot.position().x, BOUNDARY_X - 500_000_000);
    assert_eq!(dot.position().y, 0);
}

#[test]
fn a_step_with_nothing_to_do_moves_nothing() {
    // a lone dot at rest whose density already equals the target density
    let mut state = quiet_state(vec![dot_at(10 * SCALE, 5 * SCALE, 0, 0)]);
    // mass * kernel(r, 0) for the lone dot
    state.target_density = 6_366;
    update_dots(&mut state);
    let dot = &state.dots[0];
    assert_eq!(dot.position().x, 10 * SCALE);
    assert_eq!(dot.position().y, 5 * SCALE);
    assert_eq!(dot.velocity().x, 0);
    assert_eq!(dot.velocity().y, 0);
}

#[test]
fn a_step_refreshes_densities_from_current_positions() {
    let mut state = quiet_state(vec![dot_at(0, 0, 0, 0), dot_at(3 * SCALE, 0, 0, 0)]);
    update_dots(&mut state);
    // each dot sees itself and its close neighbor
    assert_eq!(state.dots[0].density, 11_163);
    assert_eq!(state.dots[1].density, 11_163);
}

#[test]
fn a_step_preserves_count_parameters_and_selection() {
    let mut dots = vec![dot_at(0, 0, 0, 0), dot_at(20 * SCALE, 0, 0, 0)];
    dots[1].is_selected = true;
    let mut state = quiet_state(dots);
    state.orbital_forces = true;
    state.repulsion_forces = true;
    update_dots(&mut state);
    assert_eq!(state.dots.len(), 2);
    assert!(!state.dots[0].is_selected);
    assert!(state.dots[1].is_selected);
    assert_eq!(state.zoom, 40 * SCALE);
    assert_eq!(state.target_density, 50_000_000);
    let selected: usize = state.dots.iter().filter(|d| d.is_selected).count();
    assert!(selected <= 1);
}

#[test]
fn densities_stay_nonnegative_across_steps() {
    let mut state = State::new(25, 800, 600);
    state.orbital_forces = true;
    state.repulsion_forces = true;
    for _ in 0..5 {
        update_dots(&mut state);
        for dot in &state.dots {
            assert!(dot.density >= 0);
        }
    }
}

#[test]
fn center_repulsion_pushes_a_stalled_dot_away() {
    // at rest near the center with repulsion on, the dot must start moving
    let mut state = quiet_state(vec![dot_at(10 * SCALE, 0, 0, 0)]);
    state.repulsion_forces = true;
    state.target_density = 6_366;
    update_dots(&mut state);
    let dot = &state.dots[0];
    assert!(dot.velocity().x != 0 || dot.velocity().y != 0);
    assert!(dot.position().x != 10 * SCALE || dot.position().y != 0);
}

#[test]
fn pairwise_repulsion_drives_close_dots_apart() {
    let mut state = quiet_state(vec![
        dot_at(-250 * SCALE, 0, 0, 0),
        dot_at(-247 * SCALE, 0, 0, 0),
    ]);
    state.repulsion_forces = true;
    update_dots(&mut state);
    // the left dot is pushed further left, the right dot further right
    assert!(state.dots[0].velocity().x < 0);
    assert!(state.dots[1].velocity().x > 0);
}
