//! Scenarios for projection and front/back classification of coastline
//! segments.

use globe::fixed::SCALE;
use globe::render::{project_point, project_polyline, GeoPoint, Segment};

fn geo(lon: i64, lat: i64) -> GeoPoint {
    GeoPoint { lon, lat }
}

#[test]
fn origin_point_at_zero_rotation_faces_front() {
    let q = project_point(geo(0, 0), 0);
    assert_eq!((q.x, q.y, q.z), (SCALE, 0, 0));
    assert!(q.x >= 0);
}

#[test]
fn origin_point_at_half_turn_faces_back() {
    let q = project_point(geo(0, 0), 180);
    assert_eq!((q.x, q.y, q.z), (-SCALE, 0, 0));
    assert!(q.x < 0);
}

#[test]
fn poles_project_to_vertical_axis() {
    let north = project_point(geo(0, 90), 0);
    assert_eq!((north.x, north.y, north.z), (0, 0, SCALE));
    let south = project_point(geo(0, -90), 0);
    assert_eq!((south.x, south.y, south.z), (0, 0, -SCALE));
}

#[test]
fn rotation_joins_longitude_directly() {
    assert_eq!(project_point(geo(30, 0), 30), project_point(geo(60, 0), 0));
}

#[test]
fn empty_and_single_point_polylines_have_no_segments() {
    assert_eq!(project_polyline(&Vec::new(), 0).len(), 0);
    assert_eq!(project_polyline(&vec![geo(0, 0)], 0).len(), 0);
}

#[test]
fn polyline_segments_join_consecutive_points() {
    let points = vec![geo(0, 0), geo(10, 0), geo(10, 10)];
    let segs: Vec<Segment> = project_polyline(&points, 0);
    assert_eq!(segs.len(), 2);
    let a = project_point(geo(0, 0), 0);
    let b = project_point(geo(10, 0), 0);
    let c = project_point(geo(10, 10), 0);
    assert_eq!(segs[0].from, a);
    assert_eq!(segs[0].to, b);
    assert_eq!(segs[1].from, b);
    assert_eq!(segs[1].to, c);
    assert!(!segs[0].back);
    assert!(!segs[1].back);
}

#[test]
fn segment_with_one_far_side_endpoint_faces_back() {
    // Longitude 100 is past the silhouette: its depth is negative.
    let segs = project_polyline(&vec![geo(0, 0), geo(100, 0)], 0);
    assert_eq!(segs.len(), 1);
    assert!(segs[0].from.x >= 0);
    assert!(segs[0].to.x < 0);
    assert!(segs[0].back);
}

#[test]
fn front_segment_flips_to_back_after_half_turn() {
    let front = project_polyline(&vec![geo(0, 0), geo(10, 0)], 0);
    assert!(!front[0].back);
    let flipped = project_polyline(&vec![geo(0, 0), geo(10, 0)], 180);
    assert!(flipped[0].back);
    // The depth coordinates are negated exactly.
    assert_eq!(flipped[0].from.x, -front[0].from.x);
    assert_eq!(flipped[0].to.x, -front[0].to.x);
}

#[test]
fn classification_flip_holds_modulo_full_turn() {
    // A half turn past rotation 200 lands on 380 == 20 (mod 360).
    let at_200 = project_polyline(&vec![geo(0, 0), geo(10, 0)], 200);
    let at_380 = project_polyline(&vec![geo(0, 0), geo(10, 0)], 380);
    let at_20 = project_polyline(&vec![geo(0, 0), geo(10, 0)], 20);
    assert_eq!(at_380[0], at_20[0]);
    assert!(at_200[0].back);
    assert!(!at_20[0].back);
}
