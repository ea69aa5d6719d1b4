use gushy::Dot;
use gushy::MouseInfo;
use gushy::Rgba;
use gushy::State;
use gushy::WindowSize;
use gushy::ZOOM_MAX;
use gushy::ZOOM_MIN;
use gushy::fixed::SCALE;
use gushy::font::TextAlign;
use gushy::font::aligned_start;
use gushy::generate_dots;
use gushy::math::Pair;

fn base_state(dots: Vec<Dot>) -> State {
    State {
        dots,
        zoom: 40 * SCALE,
        window_size: WindowSize::new(800, 600),
        mouse_info: MouseInfo {
            mouse_down: false,
            mouse_position: Pair::new(0, 0),
            mouse_position_last: None,
            mouse_delta: Pair::new(0, 0),
            scaled_mouse_position: Pair::new(0, 0),
        },
        target_density: 50_000_000,
        pressure_multiplier: 10 * SCALE,
        speed_scale: SCALE,
        force_scale: SCALE,
        focus_color: None,
        orbital_forces: false,
        repulsion_forces: false,
    }
}

fn colored_dot(x: i64, y: i64, r: u8) -> Dot {
    Dot::new(Pair::new(x, y), Pair::new(0, 0), 0, Rgba { r, g: 0, b: 0, a: 255 })
}

fn selected_count(state: &State) -> usize {
    state.dots.iter().filter(|d| d.is_selected).count()
}

#[test]
fn pointer_coordinates_are_rescaled_into_simulation_space() {
    let mut state = base_state(vec![colored_dot(0, 0, 1)]);
    state.window_size = WindowSize::new(1600, 1200);
    state.pointer_move(Pair::new(100 * SCALE, 60 * SCALE));
    // 800/1600 and 600/1200 halve both coordinates
    assert_eq!(state.mouse_info.scaled_mouse_position.x, 50 * SCALE);
    assert_eq!(state.mouse_info.scaled_mouse_position.y, 30 * SCALE);
}

#[test]
fn pointer_down_selects_the_nearest_dot_in_range() {
    let mut state = base_state(vec![colored_dot(0, 0, 7), colored_dot(50 * SCALE, 0, 9)]);
    // screen coordinates of the simulation origin
    state.pointer_down(Pair::new(400 * SCALE, 300 * SCALE));
    assert!(state.mouse_info.mouse_down);
    assert!(state.dots[0].is_selected);
    assert!(!state.dots[1].is_selected);
    assert_eq!(state.focus_color, Some(Rgba { r: 7, g: 0, b: 0, a: 255 }));
    assert_eq!(selected_count(&state), 1);
}

#[test]
fn equidistant_dots_resolve_to_the_later_one() {
    let mut state = base_state(vec![colored_dot(10 * SCALE, 0, 1), colored_dot(-10 * SCALE, 0, 2)]);
    state.pointer_down(Pair::new(400 * SCALE, 300 * SCALE));
    assert!(!state.dots[0].is_selected);
    assert!(state.dots[1].is_selected);
    assert_eq!(selected_count(&state), 1);
}

#[test]
fn pointer_down_out_of_range_changes_no_selection() {
    let mut state = base_state(vec![colored_dot(0, 0, 1), colored_dot(50 * SCALE, 0, 2)]);
    // both dots are at least 31 units from the cursor
    state.pointer_down(Pair::new(481 * SCALE, 300 * SCALE));
    assert_eq!(selected_count(&state), 0);
    assert_eq!(state.focus_color, None);
    // and an existing selection survives an out-of-range press untouched
    let mut held = base_state(vec![colored_dot(0, 0, 1), colored_dot(50 * SCALE, 0, 2)]);
    held.pointer_down(Pair::new(400 * SCALE, 300 * SCALE));
    assert!(held.dots[0].is_selected);
    held.mouse_info.mouse_down = false;
    held.pointer_down(Pair::new(481 * SCALE, 300 * SCALE));
    assert!(held.dots[0].is_selected);
    assert!(!held.dots[1].is_selected);
    assert_eq!(selected_count(&held), 1);
}

#[test]
fn at_most_one_dot_is_selected_across_any_event_sequence() {
    let mut state = base_state(vec![
        colored_dot(0, 0, 1),
        colored_dot(10 * SCALE, 0, 2),
        colored_dot(0, 12 * SCALE, 3),
    ]);
    let presses = [
        Pair::new(400 * SCALE, 300 * SCALE),
        Pair::new(410 * SCALE, 300 * SCALE),
        Pair::new(900 * SCALE, 900 * SCALE),
        Pair::new(400 * SCALE, 312 * SCALE),
    ];
    for p in presses {
        state.pointer_down(p);
        assert!(selected_count(&state) <= 1);
        state.pointer_move(p);
        assert!(selected_count(&state) <= 1);
        state.pointer_up();
        assert_eq!(selected_count(&state), 0);
    }
}

#[test]
fn a_selected_dot_tracks_the_pointer() {
    let mut state = base_state(vec![colored_dot(0, 0, 1)]);
    state.pointer_down(Pair::new(400 * SCALE, 300 * SCALE));
    assert!(state.dots[0].is_selected);
    state.pointer_move(Pair::new(500 * SCALE, 300 * SCALE));
    // the dot is clamped to the rescaled cursor position
    assert_eq!(state.dots[0].position().x, 100 * SCALE);
    assert_eq!(state.dots[0].position().y, 0);
    // an unselected dot would not have moved
    assert!(state.dots[0].is_selected);
}

#[test]
fn pointer_up_clears_selection_and_stops_thrown_dots() {
    let mut fast = colored_dot(0, 0, 1);
    fast.velocity = Pair::new(150 * SCALE, 0);
    let mut slow = colored_dot(20 * SCALE, 0, 2);
    slow.velocity = Pair::new(3 * SCALE, 4 * SCALE);
    let mut state = base_state(vec![fast, slow]);
    state.dots[0].is_selected = true;
    state.mouse_info.mouse_down = true;
    state.pointer_up();
    assert!(!state.mouse_info.mouse_down);
    assert_eq!(selected_count(&state), 0);
    // above the throw limit the velocity is zeroed, below it survives
    assert_eq!(state.dots[0].velocity().x, 0);
    assert_eq!(state.dots[0].velocity().y, 0);
    assert_eq!(state.dots[1].velocity().x, 3 * SCALE);
    assert_eq!(state.dots[1].velocity().y, 4 * SCALE);
}

#[test]
fn drag_deltas_are_rescaled_between_consecutive_moves() {
    let mut state = base_state(vec![colored_dot(300 * SCALE, 0, 1)]);
    state.pointer_down(Pair::new(0, 0));
    state.pointer_move(Pair::new(10 * SCALE, 20 * SCALE));
    // first move after the press only records the position
    assert_eq!(state.mouse_info.mouse_delta.x, 0);
    assert_eq!(state.mouse_info.mouse_delta.y, 0);
    state.pointer_move(Pair::new(30 * SCALE, 30 * SCALE));
    assert_eq!(state.mouse_info.mouse_delta.x, 20 * SCALE);
    assert_eq!(state.mouse_info.mouse_delta.y, 10 * SCALE);
}

#[test]
fn parameter_mutators_clamp_into_their_safe_ranges() {
    let mut state = base_state(vec![colored_dot(0, 0, 1)]);
    state.set_speed_scale(50_000_000);
    assert_eq!(state.speed_scale, 100_000_000);
    state.set_speed_scale(2 * SCALE);
    assert_eq!(state.speed_scale, 2 * SCALE);
    state.set_force_scale(-SCALE);
    assert_eq!(state.force_scale, 100_000_000);
    state.set_zoom(0);
    assert_eq!(state.zoom, ZOOM_MIN);
    state.set_zoom(200 * SCALE);
    assert_eq!(state.zoom, ZOOM_MAX);
    state.set_zoom(40 * SCALE);
    assert_eq!(state.zoom, 40 * SCALE);
    state.set_target_density(70_000_000);
    assert_eq!(state.target_density, 70_000_000);
    state.set_pressure_multiplier(5 * SCALE);
    assert_eq!(state.pressure_multiplier, 5 * SCALE);
}

#[test]
fn generated_dots_stay_inside_the_orbit_square() {
    let dots = generate_dots(50, 800 * SCALE, 600 * SCALE, 150 * SCALE);
    assert_eq!(dots.len(), 50);
    for d in &dots {
        assert!(d.position().x.abs() <= 150 * SCALE);
        assert!(d.position().y.abs() <= 150 * SCALE);
        assert_eq!(d.density, 0);
        assert_eq!(d.distance_to_cursor, 0);
        assert!(!d.is_selected);
    }
}

#[test]
fn a_new_state_carries_the_reference_tuning() {
    let state = State::new(30, 800, 600);
    assert_eq!(state.dots.len(), 30);
    assert_eq!(selected_count(&state), 0);
    assert_eq!(state.zoom, 40 * SCALE);
    assert_eq!(state.target_density, 50_000_000);
    assert_eq!(state.pressure_multiplier, 10 * SCALE);
    // 1 / 30 in fixed point
    assert_eq!(state.speed_scale, 33_333_333);
    assert_eq!(state.force_scale, 33_333_333);
    assert!(!state.mouse_info.mouse_down);
    assert_eq!(state.focus_color, None);
    assert_eq!(state.window_size.width, 800);
    assert_eq!(state.window_size.height, 600);
}

#[test]
fn text_runs_are_anchored_left_center_or_right() {
    let w = 100 * SCALE;
    assert_eq!(aligned_start(400 * SCALE, w, TextAlign::Left), 400 * SCALE);
    assert_eq!(aligned_start(400 * SCALE, w, TextAlign::Center), 350 * SCALE);
    assert_eq!(aligned_start(400 * SCALE, w, TextAlign::Right), 300 * SCALE);
}
