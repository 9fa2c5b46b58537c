use raycaster::camera::{apply, InputEvent, State, DEFAULT_FOV_FP, ROT_STEP_FP, WIDTH};
use raycaster::geom::Point;

fn zero_step() -> Point {
    Point { x: 0, y: 0 }
}

#[test]
fn default_state_fixed() {
    let s = State::default_state();
    assert_eq!(s.position, Point { x: 0, y: 0 });
    assert_eq!(s.samples, 800);
    assert_eq!(s.fov, DEFAULT_FOV_FP);
    assert!(s.fog);
}

#[test]
fn forward_and_backward_move_by_step() {
    let s = State::default_state();
    let step = Point { x: 100, y: -40 };
    let f = apply(s, InputEvent::Forward, step);
    assert_eq!(f.position, Point { x: 100, y: -40 });
    let b = apply(f, InputEvent::Backward, step);
    assert_eq!(b.position, Point { x: 0, y: 0 });
}

#[test]
fn rotation_steps_heading() {
    let s = State::default_state();
    let l = apply(s, InputEvent::RotateLeft, zero_step());
    assert_eq!(l.direction, s.direction + ROT_STEP_FP);
    let r = apply(l, InputEvent::RotateRight, zero_step());
    assert_eq!(r.direction, s.direction);
}

#[test]
fn fov_steps() {
    let s = State::default_state();
    let narrower = apply(s, InputEvent::FovDecrease, zero_step());
    let back = apply(narrower, InputEvent::FovIncrease, zero_step());
    assert!(narrower.fov < s.fov);
    assert_eq!(back.fov, s.fov);
}

#[test]
fn resolution_clamped_to_one() {
    let mut s = State::default_state();
    for _ in 0..20 {
        s = apply(s, InputEvent::ResolutionDown, zero_step());
    }
    assert_eq!(s.samples, 1);
}

#[test]
fn resolution_clamped_to_width() {
    let mut s = State::default_state();
    for _ in 0..20 {
        s = apply(s, InputEvent::ResolutionUp, zero_step());
    }
    assert_eq!(s.samples, WIDTH);
    // halving and doubling stay inside 1..=WIDTH throughout
    s = apply(s, InputEvent::ResolutionDown, zero_step());
    assert_eq!(s.samples, WIDTH / 2);
}

#[test]
fn fog_toggles() {
    let s = State::default_state();
    let off = apply(s, InputEvent::ToggleFog, zero_step());
    assert!(!off.fog);
    let on = apply(off, InputEvent::ToggleFog, zero_step());
    assert!(on.fog);
}
