//! Scenarios for the canvas transform and the drag-to-rotate state machine.

use globe::rotation::{Event, InteractionState};
use globe::transform::{CanvasTransform, ScreenPosition};

fn pos(x: i32, y: i32) -> ScreenPosition {
    ScreenPosition { x, y }
}

fn square_canvas() -> CanvasTransform {
    CanvasTransform::for_canvas(800, 800)
}

#[test]
fn transform_components_follow_canvas_size() {
    let t = square_canvas();
    assert_eq!(t.scale_x, 400);
    assert_eq!(t.scale_y, -400);
    assert_eq!(t.translate_x, 400);
    assert_eq!(t.translate_y, 400);

    let t2 = CanvasTransform::for_canvas(800, 600);
    assert_eq!(t2.scale_x, 300);
    assert_eq!(t2.scale_y, -300);
}

#[test]
fn to_model_space_inverts_forward_transform() {
    let t = square_canvas();
    // Canvas centre maps to the model origin.
    assert_eq!(t.to_model_space(pos(400, 400)), (0, 0));
    // Half a radius to the right.
    assert_eq!(t.to_model_space(pos(600, 400)), (500_000, 0));
    // Screen-up maps to model-up: the vertical axis is flipped.
    assert_eq!(t.to_model_space(pos(400, 300)), (0, 250_000));
    // The disc edge.
    assert_eq!(t.to_model_space(pos(800, 400)), (1_000_000, 0));
    // Outside the disc: magnitudes above one unit come back unclamped.
    assert_eq!(t.to_model_space(pos(810, 400)), (1_025_000, 0));
}

#[test]
fn press_starts_drag_at_event_position() {
    let t = square_canvas();
    let mut s = InteractionState::new();
    s.update(&t, Event::Press { pos: pos(600, 400), button: 0 });
    assert!(s.dragging);
    assert_eq!(s.current, pos(600, 400));
    assert_eq!(s.previous, pos(600, 400));
    assert_eq!(s.rotation, 0);
}

#[test]
fn secondary_button_press_is_ignored() {
    let t = square_canvas();
    let mut s = InteractionState::new();
    s.update(&t, Event::Press { pos: pos(600, 400), button: 2 });
    assert!(!s.dragging);
    s.update(&t, Event::Move { pos: pos(500, 400) });
    assert_eq!(s.current, pos(0, 0));
}

#[test]
fn move_without_drag_is_ignored() {
    let t = square_canvas();
    let mut s = InteractionState::new();
    s.update(&t, Event::Move { pos: pos(500, 400) });
    assert_eq!(s, InteractionState::new());
}

#[test]
fn drag_inside_disc_rotates_by_longitude_difference() {
    let t = square_canvas();
    let mut s = InteractionState::new();
    s.update(&t, Event::Press { pos: pos(600, 400), button: 0 });
    s.update(&t, Event::Tick);
    // No motion yet: nothing to apply.
    assert_eq!(s.rotation, 0);

    s.update(&t, Event::Move { pos: pos(400, 400) });
    s.update(&t, Event::Tick);
    // Longitude under (600,400) is 30 degrees, under the centre 0:
    // the rotation changes by exactly the signed difference.
    assert_eq!(s.rotation, -30);
    assert_eq!(s.previous, pos(400, 400));
}

#[test]
fn drag_leaving_disc_skips_update_and_keeps_anchor() {
    let t = square_canvas();
    let mut s = InteractionState::new();
    s.update(&t, Event::Press { pos: pos(600, 400), button: 0 });
    s.update(&t, Event::Move { pos: pos(810, 400) });
    s.update(&t, Event::Tick);
    // (810,400) maps outside the disc: the rotation is unchanged and the
    // anchor stays where the press put it, deferring the update.
    assert_eq!(s.rotation, 0);
    assert_eq!(s.previous, pos(600, 400));
    // Back onto the disc: the deferred update applies in one piece.
    s.update(&t, Event::Move { pos: pos(400, 400) });
    s.update(&t, Event::Tick);
    assert_eq!(s.rotation, -30);
}

#[test]
fn press_move_to_same_spot_release_leaves_rotation_unchanged() {
    let t = square_canvas();
    let mut s = InteractionState::new();
    s.update(&t, Event::Press { pos: pos(600, 400), button: 0 });
    s.update(&t, Event::Move { pos: pos(600, 400) });
    s.update(&t, Event::Release { pos: pos(600, 400) });
    s.update(&t, Event::Tick);
    assert_eq!(s.rotation, 0);
    assert!(!s.dragging);
    assert_eq!(s.previous, pos(600, 400));
}

#[test]
fn two_tick_drag_accumulates_like_one() {
    let t = square_canvas();
    // Sampled path: a tick at the intermediate position, then one at the end.
    let mut sampled = InteractionState::new();
    sampled.update(&t, Event::Press { pos: pos(600, 400), button: 0 });
    sampled.update(&t, Event::Move { pos: pos(400, 400) });
    sampled.update(&t, Event::Tick);
    sampled.update(&t, Event::Move { pos: pos(300, 400) });
    sampled.update(&t, Event::Tick);

    // Direct path: one tick over the whole motion.
    let mut direct = InteractionState::new();
    direct.update(&t, Event::Press { pos: pos(600, 400), button: 0 });
    direct.update(&t, Event::Move { pos: pos(300, 400) });
    direct.update(&t, Event::Tick);

    // Longitudes: 30 at the start, 0 at (400,400), -15 at (300,400).
    assert_eq!(sampled.rotation, -45);
    assert_eq!(direct.rotation, -45);
    assert_eq!(sampled, direct);
}

#[test]
fn release_applies_last_position_then_ends_drag() {
    let t = square_canvas();
    let mut s = InteractionState::new();
    s.update(&t, Event::Press { pos: pos(600, 400), button: 0 });
    s.update(&t, Event::Release { pos: pos(400, 400) });
    assert!(!s.dragging);
    assert_eq!(s.current, pos(400, 400));
    s.update(&t, Event::Tick);
    // The tick still applies the pending motion after the release.
    assert_eq!(s.rotation, -30);
}
