use webgl_client::app_state::{
    get_current_app_state, update_app_state, update_mouse_down, update_mouse_position, AppState,
};

const SCALE: i64 = 1_000_000;

#[test]
fn initial_state_values() {
    let s = AppState::new();
    assert_eq!(s.time, 0);
    assert_eq!(s.canvas_width, 0);
    assert_eq!(s.canvas_height, 0);
    assert!(!s.mouse_down);
    assert_eq!(s.mouse_x, -SCALE);
    assert_eq!(s.mouse_y, -SCALE);
    assert_eq!(s.rotation_x, 2_800_000);
    assert_eq!(s.rotation_y, 800_000);
}

#[test]
fn update_app_state_replaces_frame_fields() {
    let mut s = AppState::new();
    update_app_state(&mut s, 16_000_000, 800 * SCALE, 600 * SCALE);
    assert_eq!(s.time, 16_000_000);
    assert_eq!(s.canvas_width, 800 * SCALE);
    assert_eq!(s.canvas_height, 600 * SCALE);
    // every other field carried forward
    assert!(!s.mouse_down);
    assert_eq!(s.mouse_x, -SCALE);
    assert_eq!(s.rotation_x, 2_800_000);
    assert_eq!(s.rotation_y, 800_000);
}

#[test]
fn get_current_returns_complete_copy() {
    let mut s = AppState::new();
    update_app_state(&mut s, 5, 7, 9);
    let snap = get_current_app_state(&s);
    assert_eq!(snap, s);
}

#[test]
fn mouse_down_flips_y_against_canvas_height() {
    let mut s = AppState::new();
    update_app_state(&mut s, 0, 100 * SCALE, 100 * SCALE);
    update_mouse_down(&mut s, 10 * SCALE, 10 * SCALE, true);
    assert!(s.mouse_down);
    assert_eq!(s.mouse_x, 10 * SCALE);
    assert_eq!(s.mouse_y, 90 * SCALE);
}

#[test]
fn mouse_move_with_button_up_never_rotates() {
    let mut s = AppState::new();
    update_app_state(&mut s, 0, 200 * SCALE, 100 * SCALE);
    let rx = s.rotation_x;
    let ry = s.rotation_y;
    for (x, y) in [(5i64, 5i64), (90, 12), (3, 77), (44, 44), (0, 0)] {
        update_mouse_position(&mut s, x * SCALE, y * SCALE);
    }
    assert_eq!(s.rotation_x, rx);
    assert_eq!(s.rotation_y, ry);
    assert_eq!(s.mouse_x, 0);
    assert_eq!(s.mouse_y, 100 * SCALE);
}

#[test]
fn horizontal_drag_rotates_by_pi_dx_over_width() {
    // canvas 100x100; press at (10,10), drag to (20,10):
    // rotation_x advances by pi * 10 / 100 = pi / 10, i.e. 314159 micro-rad.
    let mut s = AppState::new();
    update_app_state(&mut s, 0, 100 * SCALE, 100 * SCALE);
    update_mouse_down(&mut s, 10 * SCALE, 10 * SCALE, true);
    let rx = s.rotation_x;
    let ry = s.rotation_y;
    update_mouse_position(&mut s, 20 * SCALE, 10 * SCALE);
    assert_eq!(s.rotation_x - rx, 314_159);
    let expected = std::f64::consts::PI / 10.0;
    let got = (s.rotation_x - rx) as f64 / SCALE as f64;
    assert!((got - expected).abs() < 1e-5);
    // no vertical delta, so the other axis is untouched
    assert_eq!(s.rotation_y, ry);
}

#[test]
fn vertical_drag_rotates_other_axis_negatively() {
    let mut s = AppState::new();
    update_app_state(&mut s, 0, 100 * SCALE, 100 * SCALE);
    update_mouse_down(&mut s, 10 * SCALE, 10 * SCALE, true);
    let rx = s.rotation_x;
    let ry = s.rotation_y;
    // move down by 20 device pixels: flipped y delta is -20, and the y
    // contribution enters with inverted sign
    update_mouse_position(&mut s, 10 * SCALE, 30 * SCALE);
    assert_eq!(s.rotation_x, rx);
    assert_eq!(s.rotation_y - ry, 628_318); // 2 * 314159
}
