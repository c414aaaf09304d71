//! The drag-to-rotate state machine: pointer events move a pair of screen
//! positions, and every animation tick converts the motion between them
//! into a longitude delta that accumulates in the rotation.
//!
//! The update is lazy and delta-based: a single absolute longitude is
//! ambiguous at the poles and wraps at a half turn, whereas the difference
//! between two nearby drag samples is well defined almost everywhere. A
//! sample that maps off the sphere's disc is skipped without resetting the
//! anchor position, so the update is deferred until both samples are valid.

use crate::fixed::{iabs, SCALE};
use crate::spherical::{cartesian_to_spherical, lemma_longitude_range, spec_longitude, spec_third,
    third_coordinate};
use crate::transform::{CanvasTransform, ScreenPosition};
use vstd::prelude::*;

verus! {

/// The mutable session state: whether a primary-button drag is under way,
/// the latest pointer position, the anchor position of the last applied
/// rotation update, and the accumulated longitude offset in whole degrees.
///
/// The anchor `previous` advances only together with `rotation`: it always
/// holds the position whose rotation update was applied last.
#[derive(Clone, Copy, Debug, PartialEq, Eq, Structural)]
pub struct InteractionState {
    pub dragging: bool,
    pub current: ScreenPosition,
    pub previous: ScreenPosition,
    pub rotation: i64,
}

/// An input to the state machine: a pointer event or the animation tick.
#[derive(Clone, Copy, Debug)]
pub enum Event {
    /// A pointer button went down at a position.
    Press { pos: ScreenPosition, button: i32 },
    /// The pointer moved to a position.
    Move { pos: ScreenPosition },
    /// The pointer button came up at a position.
    Release { pos: ScreenPosition },
    /// One animation frame elapsed.
    Tick,
}

/// Longitude, in whole degrees, of the sphere point under a pixel position,
/// or nothing when the position maps off the sphere's projected disc.
pub open spec fn spec_lon_at(t: CanvasTransform, p: ScreenPosition) -> Option<int> {
    let uv = t.spec_to_model(p.x as int, p.y as int);
    match spec_third(uv.0, uv.1) {
        Option::None => Option::None,
        Option::Some(w) => Option::Some(spec_longitude(w, uv.0)),
    }
}

/// A longitude taken at any position lies within a half turn either way.
pub proof fn lemma_lon_at_range(t: CanvasTransform, p: ScreenPosition)
    ensures
        spec_lon_at(t, p) matches Some(l) ==> -180 <= l <= 180,
{
    let uv = t.spec_to_model(p.x as int, p.y as int);
    match spec_third(uv.0, uv.1) {
        Option::None => {}
        Option::Some(w) => {
            lemma_longitude_range(w, uv.0);
        }
    }
}

/// Accumulate a tick's longitude delta, which is always within a full turn,
/// into the rotation. The rotation is an unbounded accumulator in design;
/// the one concession to the machine word is that a delta is dropped when
/// the sum would leave the representable range.
pub open spec fn spec_add_rotation(r: int, delta: int) -> int {
    if i64::MIN + 360 <= r <= i64::MAX - 360 && -360 <= delta <= 360 {
        r + delta
    } else {
        r
    }
}

/// State after a press: a primary-button press starts a drag with both
/// positions at the event position; any other button changes nothing.
pub open spec fn spec_press(s: InteractionState, pos: ScreenPosition, button: i32) -> InteractionState {
    if button == 0 {
        InteractionState { dragging: true, current: pos, previous: pos, rotation: s.rotation }
    } else {
        s
    }
}

/// State after a move: while dragging, only the current position advances;
/// the rotation update is deferred to the next tick.
pub open spec fn spec_move(s: InteractionState, pos: ScreenPosition) -> InteractionState {
    if s.dragging {
        InteractionState { current: pos, ..s }
    } else {
        s
    }
}

/// State after a release: the same position update as a move, then the drag
/// ends.
pub open spec fn spec_release(s: InteractionState, pos: ScreenPosition) -> InteractionState {
    InteractionState { dragging: false, ..spec_move(s, pos) }
}

/// State after an animation tick: when the pointer has moved and both the
/// current and the anchor position map onto the sphere, the longitude
/// difference between them joins the rotation and the anchor advances;
/// otherwise nothing changes.
pub open spec fn spec_tick(t: CanvasTransform, s: InteractionState) -> InteractionState {
    if s.current == s.previous {
        s
    } else {
        match spec_lon_at(t, s.current) {
            Option::None => s,
            Option::Some(lc) => match spec_lon_at(t, s.previous) {
                Option::None => s,
                Option::Some(lp) => InteractionState {
                    previous: s.current,
                    rotation: spec_add_rotation(s.rotation as int, lc - lp) as i64,
                    ..s
                },
            },
        }
    }
}

/// State after any input: the four events dispatched to their updates.
pub open spec fn spec_step(t: CanvasTransform, s: InteractionState, ev: Event) -> InteractionState {
    match ev {
        Event::Press { pos, button } => spec_press(s, pos, button),
        Event::Move { pos } => spec_move(s, pos),
        Event::Release { pos } => spec_release(s, pos),
        Event::Tick => spec_tick(t, s),
    }
}

impl InteractionState {
    /// The idle state a session starts in: no drag, both positions at the
    /// origin, no accumulated rotation.
    pub fn new() -> (s: InteractionState)
        ensures
            s == (InteractionState {
                dragging: false,
                current: ScreenPosition { x: 0, y: 0 },
                previous: ScreenPosition { x: 0, y: 0 },
                rotation: 0,
            }),
    {
        InteractionState {
            dragging: false,
            current: ScreenPosition { x: 0, y: 0 },
            previous: ScreenPosition { x: 0, y: 0 },
            rotation: 0,
        }
    }

    /// Apply one input event to the state.
    pub fn update(&mut self, t: &CanvasTransform, ev: Event)
        requires
            t.wf(),
        ensures
            *final(self) == spec_step(*t, *old(self), ev),
    {
        match ev {
            Event::Press { pos, button } => {
                if button == 0 {
                    self.dragging = true;
                    self.current = pos;
                    self.previous = pos;
                }
            },
            Event::Move { pos } => {
                if self.dragging {
                    self.current = pos;
                }
            },
            Event::Release { pos } => {
                if self.dragging {
                    self.current = pos;
                }
                self.dragging = false;
            },
            Event::Tick => {
                self.tick(t);
            },
        }
    }

    /// Apply one animation tick to the state.
    pub fn tick(&mut self, t: &CanvasTransform)
        requires
            t.wf(),
        ensures
            *final(self) == spec_tick(*t, *old(self)),
    {
        if self.current != self.previous {
            let mc: (i64, i64) = t.to_model_space(self.current);
            match third_coordinate(mc.0, mc.1) {
                Option::None => {},
                Option::Some(w) => {
                    let mp: (i64, i64) = t.to_model_space(self.previous);
                    match third_coordinate(mp.0, mp.1) {
                        Option::None => {},
                        Option::Some(wp) => {
                            proof {
                                assert(iabs(mc.0 as int) <= SCALE && iabs(mc.1 as int) <= SCALE)
                                    by (nonlinear_arith)
                                    requires
                                        (mc.0 as int) * (mc.0 as int) + (mc.1 as int) * (
                                        mc.1 as int) <= 1_000_000_000_000,
                                        SCALE == 1_000_000,
                                ;
                                assert(iabs(mp.0 as int) <= SCALE && iabs(mp.1 as int) <= SCALE)
                                    by (nonlinear_arith)
                                    requires
                                        (mp.0 as int) * (mp.0 as int) + (mp.1 as int) * (
                                        mp.1 as int) <= 1_000_000_000_000,
                                        SCALE == 1_000_000,
                                ;
                            }
                            let sc: (i64, i64) = cartesian_to_spherical(w, mc.0, mc.1);
                            let sp: (i64, i64) = cartesian_to_spherical(wp, mp.0, mp.1);
                            let delta: i64 = sc.1 - sp.1;
                            if self.rotation >= i64::MIN + 360 && self.rotation <= i64::MAX
                                - 360 {
                                self.rotation = self.rotation + delta;
                            }
                            self.previous = self.current;
                        },
                    }
                },
            }
        }
    }
}

/// A drag that goes nowhere changes nothing: pressing, moving to the very
/// position of the press, and releasing leaves the rotation untouched after
/// the next tick, with the drag over.
pub proof fn lemma_null_drag_keeps_rotation(t: CanvasTransform, s: InteractionState, p: ScreenPosition)
    ensures
        spec_tick(t, spec_release(spec_press(s, p, 0), p)).rotation == s.rotation,
        !spec_tick(t, spec_release(spec_press(s, p, 0), p)).dragging,
{
}

/// A tick whose current sample maps off the sphere's disc is skipped
/// entirely: the rotation and the anchor position both stay, deferring the
/// update until the pointer returns to the sphere.
pub proof fn lemma_off_disc_sample_defers_update(t: CanvasTransform, s: InteractionState)
    requires
        spec_lon_at(t, s.current) is None || spec_lon_at(t, s.previous) is None,
    ensures
        spec_tick(t, s) == s,
{
}

/// Rotation accumulation is additive across ticks: sampling a drag at an
/// intermediate position `b` on the way to `c` accumulates exactly the
/// rotation that a single step to `c` accumulates, and leaves the same
/// state in every other respect.
pub proof fn lemma_drag_deltas_accumulate(
    t: CanvasTransform,
    s: InteractionState,
    b: ScreenPosition,
    c: ScreenPosition,
)
    requires
        s.dragging,
        spec_lon_at(t, s.previous) is Some,
        spec_lon_at(t, b) is Some,
        spec_lon_at(t, c) is Some,
        i64::MIN + 720 <= s.rotation <= i64::MAX - 720,
    ensures
        spec_tick(t, spec_move(spec_tick(t, spec_move(s, b)), c)) == spec_tick(t, spec_move(s, c)),
{
    lemma_lon_at_range(t, s.previous);
    lemma_lon_at_range(t, b);
    lemma_lon_at_range(t, c);
}

} // verus!
