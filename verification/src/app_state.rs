//! The shared render state: canvas size, elapsed time, mouse position and
//! drag state, and the accumulated camera rotation.
//!
//! The state is an owned snapshot replaced wholesale by each update; readers
//! receive a complete copy and never observe a partial write.  Dimensions and
//! coordinates are in micro-pixels, time in micro-milliseconds, rotations in
//! micro-radians (see `math::SCALE`).

use vstd::prelude::*;

verus! {

use crate::math::div_trunc;
use crate::math::mul_div_trunc;
use crate::math::PI_FP;
use crate::math::SCALE;

/// Largest mouse-event coordinate the model admits (micro-pixels).
pub const COORD_MAX: i64 = 100_000_000_000;

/// Largest canvas dimension the model admits (micro-pixels).
pub const DIM_MAX: i64 = 100_000_000_000;

/// Largest recorded mouse position: a y-flip adds at most one canvas height.
pub const MOUSE_MAX: i64 = DIM_MAX + COORD_MAX;

/// Largest elapsed time the model admits (micro-milliseconds).
pub const TIME_MAX: i64 = 1_000_000_000_000_000;

/// Largest accumulated rotation from which one more drag step cannot
/// overflow.
pub const ROT_MAX: i64 = 7_900_000_000_000_000_000;

/// One snapshot of the shared render state.
#[derive(Clone, Copy, Debug, PartialEq, Eq, Structural)]
pub struct AppState {
    pub time: i64,
    pub canvas_height: i64,
    pub canvas_width: i64,
    pub mouse_down: bool,
    pub mouse_x: i64,
    pub mouse_y: i64,
    pub rotation_x: i64,
    pub rotation_y: i64,
}

/// The startup snapshot: zero time and size, mouse parked off-canvas, a
/// fixed initial camera orientation.
pub open spec fn spec_initial_state() -> AppState {
    AppState {
        time: 0,
        canvas_height: 0,
        canvas_width: 0,
        mouse_down: false,
        mouse_x: (-SCALE) as i64,
        mouse_y: (-SCALE) as i64,
        rotation_x: 2_800_000,
        rotation_y: 800_000,
    }
}

impl AppState {
    /// Field bounds every snapshot reachable through the update functions
    /// keeps (rotation accumulates and is bounded separately at each drag).
    pub open spec fn wf(self) -> bool {
        &&& 0 <= self.time <= TIME_MAX
        &&& 0 <= self.canvas_width <= DIM_MAX
        &&& 0 <= self.canvas_height <= DIM_MAX
        &&& -MOUSE_MAX <= self.mouse_x <= MOUSE_MAX
        &&& -MOUSE_MAX <= self.mouse_y <= MOUSE_MAX
    }

    /// The startup snapshot: zero time and size, mouse parked off-canvas,
    /// a fixed initial camera orientation.
    pub fn new() -> (s: AppState)
        ensures
            s == spec_initial_state(),
            s.wf(),
            !s.mouse_down,
    {
        AppState {
            time: 0,
            canvas_height: 0,
            canvas_width: 0,
            mouse_down: false,
            mouse_x: -SCALE,
            mouse_y: -SCALE,
            rotation_x: 2_800_000,
            rotation_y: 800_000,
        }
    }
}

/// One rotation increment of a drag: `pi * delta / dim`, truncated toward
/// zero, in micro-radians.
pub open spec fn rot_step(delta: int, dim: int) -> int {
    div_trunc(delta * PI_FP, dim)
}

/// The mouse-move transition: record the (y-flipped) position, and, only
/// while the button is down, advance the rotation by `pi * delta / dim` per
/// axis, the vertical contribution with inverted sign.
pub open spec fn spec_mouse_move(s: AppState, x: i64, y: i64) -> AppState {
    let inverted_y: int = s.canvas_height - y;
    let x_delta: int = x - s.mouse_x;
    let y_delta: int = inverted_y - s.mouse_y;
    let rx: int = if s.mouse_down {
        rot_step(x_delta, s.canvas_width as int)
    } else {
        0
    };
    let ry: int = if s.mouse_down {
        rot_step(y_delta, s.canvas_height as int)
    } else {
        0
    };
    AppState {
        time: s.time,
        canvas_height: s.canvas_height,
        canvas_width: s.canvas_width,
        mouse_down: s.mouse_down,
        mouse_x: x,
        mouse_y: inverted_y as i64,
        rotation_x: (s.rotation_x + rx) as i64,
        rotation_y: (s.rotation_y - ry) as i64,
    }
}

/// Replace the frame fields of the snapshot, carrying every other field
/// forward.
pub fn update_app_state(state: &mut AppState, time: i64, canvas_width: i64, canvas_height: i64)
    requires
        old(state).wf(),
        0 <= time <= TIME_MAX,
        0 <= canvas_width <= DIM_MAX,
        0 <= canvas_height <= DIM_MAX,
    ensures
        *final(state) == (AppState {
            time: time,
            canvas_width: canvas_width,
            canvas_height: canvas_height,
            ..*old(state)
        }),
        final(state).wf(),
{
    state.time = time;
    state.canvas_width = canvas_width;
    state.canvas_height = canvas_height;
}

/// Return the latest snapshot; the caller gets a complete copy.
pub fn get_current_app_state(state: &AppState) -> (snapshot: AppState)
    ensures
        snapshot == *state,
{
    *state
}

/// Record the button state together with the event position, the y
/// coordinate flipped against the current canvas height.
pub fn update_mouse_down(state: &mut AppState, x: i64, y: i64, is_down: bool)
    requires
        old(state).wf(),
        -COORD_MAX <= x <= COORD_MAX,
        -COORD_MAX <= y <= COORD_MAX,
    ensures
        *final(state) == (AppState {
            mouse_down: is_down,
            mouse_x: x,
            mouse_y: (old(state).canvas_height - y) as i64,
            ..*old(state)
        }),
        final(state).wf(),
{
    let inverted_y: i64 = state.canvas_height - y;
    state.mouse_down = is_down;
    state.mouse_x = x;
    state.mouse_y = inverted_y;
}

/// Record a mouse move, advancing the camera rotation only while the button
/// is down (see `spec_mouse_move`).
pub fn update_mouse_position(state: &mut AppState, x: i64, y: i64)
    requires
        old(state).wf(),
        -COORD_MAX <= x <= COORD_MAX,
        -COORD_MAX <= y <= COORD_MAX,
        old(state).mouse_down ==> {
            &&& old(state).canvas_width >= 1
            &&& old(state).canvas_height >= 1
            &&& -ROT_MAX <= old(state).rotation_x <= ROT_MAX
            &&& -ROT_MAX <= old(state).rotation_y <= ROT_MAX
        },
    ensures
        *final(state) == spec_mouse_move(*old(state), x, y),
        final(state).wf(),
{
    let inverted_y: i64 = state.canvas_height - y;
    let x_delta: i64 = x - state.mouse_x;
    let y_delta: i64 = inverted_y - state.mouse_y;
    let (rx, ry): (i64, i64) = if state.mouse_down {
        (
            mul_div_trunc(x_delta, PI_FP, state.canvas_width),
            mul_div_trunc(y_delta, PI_FP, state.canvas_height),
        )
    } else {
        (0, 0)
    };
    state.mouse_x = x;
    state.mouse_y = inverted_y;
    state.rotation_x = state.rotation_x + rx;
    state.rotation_y = state.rotation_y - ry;
}

/// A sequence of mouse moves applied in order.
pub open spec fn apply_mouse_moves(s: AppState, moves: Seq<(i64, i64)>) -> AppState
    decreases moves.len(),
{
    if moves.len() == 0 {
        s
    } else {
        spec_mouse_move(apply_mouse_moves(s, moves.drop_last()), moves.last().0, moves.last().1)
    }
}

/// While the button is up, no sequence of mouse moves changes the
/// accumulated rotation (and the button stays up).
pub proof fn lemma_button_up_preserves_rotation(s: AppState, moves: Seq<(i64, i64)>)
    requires
        !s.mouse_down,
    ensures
        !apply_mouse_moves(s, moves).mouse_down,
        apply_mouse_moves(s, moves).rotation_x == s.rotation_x,
        apply_mouse_moves(s, moves).rotation_y == s.rotation_y,
    decreases moves.len(),
{
    if moves.len() > 0 {
        lemma_button_up_preserves_rotation(s, moves.drop_last());
    }
}

/// A button-down drag with no vertical motion advances the horizontal
/// rotation axis by exactly `pi * x_delta / canvas_width` and leaves the
/// other axis untouched.
pub proof fn lemma_horizontal_drag_rotates_exactly(s: AppState, x: i64, y: i64)
    requires
        s.mouse_down,
        s.canvas_width >= 1,
        s.canvas_height >= 1,
        s.canvas_height - y == s.mouse_y,
    ensures
        spec_mouse_move(s, x, y).rotation_x == ((s.rotation_x + div_trunc(
            (x - s.mouse_x) * PI_FP,
            s.canvas_width as int,
        )) as i64),
        spec_mouse_move(s, x, y).rotation_y == s.rotation_y,
{
    assert(rot_step(0, s.canvas_height as int) == 0) by {
        assert(0int / (s.canvas_height as int) == 0) by {
            vstd::arithmetic::div_mod::lemma_div_of0(s.canvas_height as int);
        }
    }
}

} // verus!
