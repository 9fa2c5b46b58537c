//! Camera state and the pure input-transition table.
//!
//! The camera holds a position, a heading and a field of view in 16.24
//! fixed-point radians, a sample count and the fog flag. It is created once
//! with fixed defaults and changed only by recognized input events, each a
//! pure transition; the sample count is clamped at this boundary to
//! `1 ..= WIDTH`, never checked downstream, and the continuous fields are
//! clamped to the coordinate range of the fixed-point model.

use vstd::prelude::*;
use crate::geom::{Point, point_ok, coord_ok, dir_ok};
use crate::project::angle_ok;

verus! {

/// Screen width in pixels, and the largest allowed sample count.
pub const WIDTH: u32 = 800;

/// Screen height in pixels.
pub const HEIGHT: u32 = 480;

/// One rotation step, two degrees, in 16.24 fixed-point radians.
pub const ROT_STEP_FP: i64 = 585635;

/// One field-of-view step, one degree, in 16.24 fixed-point radians.
pub const FOV_STEP_FP: i64 = 292818;

/// The default heading, an eighth turn, in 16.24 fixed-point radians.
pub const DEFAULT_DIRECTION_FP: i64 = 13176795;

/// The default field of view, a little over 74 degrees, in 16.24
/// fixed-point radians.
pub const DEFAULT_FOV_FP: i64 = 21926186;

/// The default sample count: one ray per screen column.
pub const DEFAULT_SAMPLES: u32 = 800;

/// The live camera state.
#[derive(Clone, Copy, Debug)]
pub struct State {
    /// Camera position, 16.24 fixed point.
    pub position: Point,
    /// Rays cast per frame.
    pub samples: u32,
    /// Heading in 16.24 fixed-point radians.
    pub direction: i64,
    /// Field of view in 16.24 fixed-point radians.
    pub fov: i64,
    /// Depth-shading policy.
    pub fog: bool,
}

/// The recognized state-changing input events.
#[derive(Clone, Copy, Debug, PartialEq, Eq, Structural)]
pub enum InputEvent {
    Forward,
    Backward,
    RotateLeft,
    RotateRight,
    FovDecrease,
    FovIncrease,
    ResolutionDown,
    ResolutionUp,
    ToggleFog,
}

impl State {
    /// The sample count stays within the screen and every continuous field
    /// within the fixed-point coordinate range.
    pub open spec fn wf(self) -> bool {
        1 <= self.samples <= WIDTH && point_ok(self.position) && angle_ok(self.direction)
            && angle_ok(self.fov)
    }

    /// The fixed default camera: at the origin, default heading and field
    /// of view, one ray per column, fog on.
    pub fn default_state() -> (r: State)
        ensures
            r.wf(),
            r.position == (Point { x: 0, y: 0 }),
            r.samples == DEFAULT_SAMPLES,
            r.direction == DEFAULT_DIRECTION_FP,
            r.fov == DEFAULT_FOV_FP,
            r.fog,
    {
        State {
            position: Point { x: 0, y: 0 },
            samples: DEFAULT_SAMPLES,
            direction: DEFAULT_DIRECTION_FP,
            fov: DEFAULT_FOV_FP,
            fog: true,
        }
    }
}

/// A value clamped to the fixed-point coordinate range.
pub open spec fn clamp_coord_spec(v: int) -> int {
    if v < -0x1000_0000_0000 {
        -0x1000_0000_0000
    } else if v > 0x1000_0000_0000 {
        0x1000_0000_0000
    } else {
        v
    }
}

/// Clamps a coordinate or angle to the fixed-point range.
fn clamp_coord(v: i64) -> (r: i64)
    ensures
        r == clamp_coord_spec(v as int),
        coord_ok(r),
{
    if v < -0x1000_0000_0000 {
        -0x1000_0000_0000
    } else if v > 0x1000_0000_0000 {
        0x1000_0000_0000
    } else {
        v
    }
}

/// The pure transition table: what each recognized event does to the
/// camera. `step` is the camera displacement along the heading for the
/// movement events — the heading's unit vector scaled by the camera speed,
/// supplied by the host's trigonometry — and is ignored by every other
/// event.
pub open spec fn apply_spec(s: State, ev: InputEvent, step: Point) -> State {
    match ev {
        InputEvent::Forward => State {
            position: Point {
                x: clamp_coord_spec(s.position.x + step.x) as i64,
                y: clamp_coord_spec(s.position.y + step.y) as i64,
            },
            ..s
        },
        InputEvent::Backward => State {
            position: Point {
                x: clamp_coord_spec(s.position.x - step.x) as i64,
                y: clamp_coord_spec(s.position.y - step.y) as i64,
            },
            ..s
        },
        InputEvent::RotateLeft => State {
            direction: clamp_coord_spec(s.direction + ROT_STEP_FP) as i64,
            ..s
        },
        InputEvent::RotateRight => State {
            direction: clamp_coord_spec(s.direction - ROT_STEP_FP) as i64,
            ..s
        },
        InputEvent::FovDecrease => State { fov: clamp_coord_spec(s.fov - FOV_STEP_FP) as i64, ..s },
        InputEvent::FovIncrease => State { fov: clamp_coord_spec(s.fov + FOV_STEP_FP) as i64, ..s },
        InputEvent::ResolutionDown => State {
            samples: if s.samples / 2 >= 1 {
                (s.samples / 2) as u32
            } else {
                1u32
            },
            ..s
        },
        InputEvent::ResolutionUp => State {
            samples: if s.samples * 2 <= WIDTH {
                (s.samples * 2) as u32
            } else {
                WIDTH
            },
            ..s
        },
        InputEvent::ToggleFog => State { fog: !s.fog, ..s },
    }
}

/// Applies one input event to the camera. Every event preserves
/// well-formedness: in particular the sample count is clamped here, at the
/// input boundary, to `1 ..= WIDTH`.
pub fn apply(s: State, ev: InputEvent, step: Point) -> (r: State)
    requires
        s.wf(),
        dir_ok(step.x),
        dir_ok(step.y),
    ensures
        r == apply_spec(s, ev, step),
        r.wf(),
{
    match ev {
        InputEvent::Forward => State {
            position: Point {
                x: clamp_coord(s.position.x + step.x),
                y: clamp_coord(s.position.y + step.y),
            },
            ..s
        },
        InputEvent::Backward => State {
            position: Point {
                x: clamp_coord(s.position.x - step.x),
                y: clamp_coord(s.position.y - step.y),
            },
            ..s
        },
        InputEvent::RotateLeft => State { direction: clamp_coord(s.direction + ROT_STEP_FP), ..s },
        InputEvent::RotateRight => State { direction: clamp_coord(s.direction - ROT_STEP_FP), ..s },
        InputEvent::FovDecrease => State { fov: clamp_coord(s.fov - FOV_STEP_FP), ..s },
        InputEvent::FovIncrease => State { fov: clamp_coord(s.fov + FOV_STEP_FP), ..s },
        InputEvent::ResolutionDown => State {
            samples: if s.samples / 2 >= 1 {
                s.samples / 2
            } else {
                1
            },
            ..s
        },
        InputEvent::ResolutionUp => State {
            samples: if s.samples * 2 <= WIDTH {
                s.samples * 2
            } else {
                WIDTH
            },
            ..s
        },
        InputEvent::ToggleFog => State { fog: !s.fog, ..s },
    }
}

} // verus!
