//! Projection and classification of coastline polylines: every consecutive
//! pair of dataset points is projected onto the unit sphere with the
//! current rotation applied, and the segment between them is classified
//! front- or back-facing by the sign of the depth coordinate alone. A
//! segment that straddles the silhouette edge can be misclassified; that
//! per-segment approximation is deliberate, there is no hidden-surface
//! removal.

use crate::fixed::{iabs, lemma_sdiv_neg_num, SCALE};
use crate::spherical::{spec_sph_to_cart, spherical_to_cartesian};
use crate::trig::{lemma_cos_period, lemma_cos_shift_half, lemma_sin_period, spec_cos, spec_sin};
use vstd::prelude::*;

verus! {

/// Largest rotation magnitude, in whole degrees, the renderer accepts;
/// wide enough for any rotation the interaction state can accumulate
/// within a session.
pub const ROTATION_BOUND: i64 = 999_999_999_000;

/// A dataset point: longitude and latitude in whole degrees.
#[derive(Clone, Copy, Debug, PartialEq, Eq, Structural)]
pub struct GeoPoint {
    pub lon: i64,
    pub lat: i64,
}

/// A dataset point projected onto the unit sphere under some rotation:
/// `x` is the depth toward the viewer, `(y, z)` the drawing-plane position.
#[derive(Clone, Copy, Debug, PartialEq, Eq, Structural)]
pub struct ProjectedPoint {
    pub x: i64,
    pub y: i64,
    pub z: i64,
}

/// One drawable stroke: the projected endpoints of two consecutive dataset
/// points, and whether the segment faces away from the viewer.
#[derive(Clone, Copy, Debug, PartialEq, Eq, Structural)]
pub struct Segment {
    pub from: ProjectedPoint,
    pub to: ProjectedPoint,
    pub back: bool,
}

/// Cartesian coordinates of a dataset point under a rotation: latitude
/// becomes the polar angle by subtraction from 90, the rotation joins the
/// longitude directly, spinning the sphere about its vertical axis.
pub open spec fn spec_project(p: GeoPoint, rotation: int) -> (int, int, int) {
    spec_sph_to_cart(90 - p.lat, p.lon + rotation)
}

/// A segment faces away from the viewer when either endpoint's depth
/// coordinate is negative.
pub open spec fn spec_back_facing(x1: int, x2: int) -> bool {
    x1 < 0 || x2 < 0
}

/// The dataset point bounds under which projection cannot overflow.
pub open spec fn geo_point_ok(p: GeoPoint) -> bool {
    &&& iabs(p.lat as int) <= 90
    &&& iabs(p.lon as int) <= 180
}

/// Project one dataset point under a rotation.
pub fn project_point(p: GeoPoint, rotation: i64) -> (q: ProjectedPoint)
    requires
        geo_point_ok(p),
        iabs(rotation as int) <= ROTATION_BOUND,
    ensures
        q.x == spec_project(p, rotation as int).0,
        q.y == spec_project(p, rotation as int).1,
        q.z == spec_project(p, rotation as int).2,
        iabs(q.x as int) <= SCALE,
        iabs(q.y as int) <= SCALE,
        iabs(q.z as int) <= SCALE,
{
    let c: (i64, i64, i64) = spherical_to_cartesian(90 - p.lat, p.lon + rotation);
    ProjectedPoint { x: c.0, y: c.1, z: c.2 }
}

/// The segment a consecutive pair of dataset points projects to under a
/// rotation, with its facing classification.
pub open spec fn seg_matches(s: Segment, p1: GeoPoint, p2: GeoPoint, rotation: int) -> bool {
    let a = spec_project(p1, rotation);
    let b = spec_project(p2, rotation);
    &&& s.from.x == a.0
    &&& s.from.y == a.1
    &&& s.from.z == a.2
    &&& s.to.x == b.0
    &&& s.to.y == b.1
    &&& s.to.z == b.2
    &&& s.back == spec_back_facing(a.0, b.0)
}

/// Project a polyline under a rotation: one classified segment for every
/// consecutive pair of points, in order.
pub fn project_polyline(points: &Vec<GeoPoint>, rotation: i64) -> (segs: Vec<Segment>)
    requires
        forall|i: int| 0 <= i < points@.len() ==> geo_point_ok(#[trigger] points@[i]),
        iabs(rotation as int) <= ROTATION_BOUND,
    ensures
        points@.len() == 0 ==> segs@.len() == 0,
        points@.len() > 0 ==> segs@.len() == points@.len() - 1,
        forall|i: int|
            0 <= i < segs@.len() ==> seg_matches(
                #[trigger] segs@[i],
                points@[i],
                points@[i + 1],
                rotation as int,
            ),
{
    let mut segs: Vec<Segment> = Vec::new();
    if points.len() == 0 {
        return segs;
    }
    let mut i: usize = 1;
    while i < points.len()
        invariant
            1 <= i <= points@.len() || points@.len() == 0,
            points@.len() > 0 ==> segs@.len() == i - 1,
            points@.len() == 0 ==> segs@.len() == 0,
            forall|j: int| 0 <= j < points@.len() ==> geo_point_ok(#[trigger] points@[j]),
            iabs(rotation as int) <= ROTATION_BOUND,
            forall|j: int|
                0 <= j < segs@.len() ==> seg_matches(
                    #[trigger] segs@[j],
                    points@[j],
                    points@[j + 1],
                    rotation as int,
                ),
        decreases points@.len() - i,
    {
        let a: ProjectedPoint = project_point(points[i - 1], rotation);
        let b: ProjectedPoint = project_point(points[i], rotation);
        let back: bool = a.x < 0 || b.x < 0;
        segs.push(Segment { from: a, to: b, back });
        i = i + 1;
    }
    segs
}

/// A half turn of rotation negates every projected depth coordinate
/// exactly.
pub proof fn lemma_half_turn_negates_depth(p: GeoPoint, rotation: int)
    ensures
        spec_project(p, rotation + 180).0 == -spec_project(p, rotation).0,
{
    let st = spec_sin(90 - p.lat);
    let cp = spec_cos(p.lon + rotation);
    lemma_cos_shift_half(p.lon + rotation);
    assert(spec_cos(p.lon + (rotation + 180)) == -cp);
    assert(st * (-cp) == -(st * cp)) by (nonlinear_arith);
    lemma_sdiv_neg_num(st * cp, SCALE as int);
}

/// A full turn of rotation leaves every projection unchanged, so the half
/// turn that flips a front-facing segment to back-facing can be read
/// modulo full turns.
pub proof fn lemma_full_turn_preserves_projection(p: GeoPoint, rotation: int)
    ensures
        spec_project(p, rotation + 360) == spec_project(p, rotation),
{
    lemma_sin_period(p.lon + rotation);
    lemma_cos_period(p.lon + rotation);
}

/// A segment classified front-facing at some rotation is classified
/// back-facing a half turn later, barring endpoints exactly on the
/// silhouette edge.
pub proof fn lemma_front_flips_to_back(p1: GeoPoint, p2: GeoPoint, rotation: int)
    requires
        spec_project(p1, rotation).0 != 0,
        spec_project(p2, rotation).0 != 0,
        !spec_back_facing(spec_project(p1, rotation).0, spec_project(p2, rotation).0),
    ensures
        spec_back_facing(spec_project(p1, rotation + 180).0, spec_project(p2, rotation + 180).0),
{
    lemma_half_turn_negates_depth(p1, rotation);
    lemma_half_turn_negates_depth(p2, rotation);
}

} // verus!
