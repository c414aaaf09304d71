//! Exact values and round trips of the fixed-point geometry.

use globe::fixed::{isqrt64, sdiv64, SCALE};
use globe::spherical::{cartesian_to_spherical, spherical_to_cartesian, third_coordinate};
use globe::trig::{acos_deg, cos_deg, sin_deg};

#[test]
fn isqrt_exact_values() {
    assert_eq!(isqrt64(0), 0);
    assert_eq!(isqrt64(1), 1);
    assert_eq!(isqrt64(999_999), 999);
    assert_eq!(isqrt64(1_000_000), 1000);
    assert_eq!(isqrt64(999_999_300_625), 999_999);
    assert_eq!(isqrt64(4_000_000_000_000), 2_000_000);
}

#[test]
fn sdiv_rounds_toward_zero() {
    assert_eq!(sdiv64(7, 2), 3);
    assert_eq!(sdiv64(-7, 2), -3);
    assert_eq!(sdiv64(7, -2), -3);
    assert_eq!(sdiv64(-7, -2), 3);
    assert_eq!(sdiv64(0, 5), 0);
}

#[test]
fn sine_exact_at_axes_and_special_angles() {
    assert_eq!(sin_deg(0), 0);
    assert_eq!(sin_deg(30), 500_000);
    assert_eq!(sin_deg(90), SCALE);
    assert_eq!(sin_deg(150), 500_000);
    assert_eq!(sin_deg(180), 0);
    assert_eq!(sin_deg(270), -SCALE);
    assert_eq!(sin_deg(-90), -SCALE);
    assert_eq!(sin_deg(45), 705_882);
}

#[test]
fn sine_symmetries() {
    assert_eq!(sin_deg(30 + 360), sin_deg(30));
    assert_eq!(sin_deg(45 - 360), sin_deg(45));
    assert_eq!(sin_deg(30 + 180), -sin_deg(30));
    assert_eq!(sin_deg(-45), -sin_deg(45));
}

#[test]
fn cosine_exact_values() {
    assert_eq!(cos_deg(0), SCALE);
    assert_eq!(cos_deg(60), 500_000);
    assert_eq!(cos_deg(90), 0);
    assert_eq!(cos_deg(180), -SCALE);
    assert_eq!(cos_deg(180), -cos_deg(0));
}

#[test]
fn arccosine_inverts_axis_values() {
    assert_eq!(acos_deg(SCALE), 0);
    assert_eq!(acos_deg(0), 90);
    assert_eq!(acos_deg(-SCALE), 180);
    assert_eq!(acos_deg(500_000), 60);
    assert_eq!(acos_deg(866_025), 30);
}

#[test]
fn third_coordinate_inside_disc() {
    assert_eq!(third_coordinate(0, 0), Some(SCALE));
    assert_eq!(third_coordinate(SCALE, 0), Some(0));
    assert_eq!(third_coordinate(500_000, 0), Some(866_025));
    assert_eq!(third_coordinate(707_106, 707_106), Some(1486));
}

#[test]
fn third_coordinate_outside_disc_is_rejected() {
    assert_eq!(third_coordinate(1_000_001, 0), None);
    assert_eq!(third_coordinate(0, -1_000_001), None);
    assert_eq!(third_coordinate(707_107, 707_107), None);
    assert_eq!(third_coordinate(800_000, 800_000), None);
    assert_eq!(third_coordinate(i64::MAX, i64::MAX), None);
}

#[test]
fn third_coordinate_squares_below_remainder() {
    let (u, v) = (123_456, -654_321);
    let w = third_coordinate(u, v).unwrap();
    let rest = SCALE * SCALE - u * u - v * v;
    assert!(w >= 0);
    assert!(w * w <= rest);
    assert!(rest < (w + 1) * (w + 1));
}

#[test]
fn cartesian_to_spherical_axis_points() {
    assert_eq!(cartesian_to_spherical(SCALE, 0, 0), (90, 0));
    assert_eq!(cartesian_to_spherical(0, SCALE, 0), (90, 90));
    assert_eq!(cartesian_to_spherical(0, -SCALE, 0), (90, -90));
    assert_eq!(cartesian_to_spherical(0, 0, SCALE), (0, 0));
    assert_eq!(cartesian_to_spherical(0, 0, -SCALE), (180, 0));
    assert_eq!(cartesian_to_spherical(866_025, 500_000, 0), (90, 30));
}

#[test]
fn longitude_mirrors_across_meridian_plane() {
    let (_, east) = cartesian_to_spherical(866_025, 500_000, 0);
    let (_, west) = cartesian_to_spherical(866_025, -500_000, 0);
    assert_eq!(east, 30);
    assert_eq!(west, -30);
    let (_, far_east) = cartesian_to_spherical(-600_000, 800_000, 0);
    let (_, far_west) = cartesian_to_spherical(-600_000, -800_000, 0);
    assert_eq!(far_west, -far_east);
}

#[test]
fn cartesian_to_spherical_degenerate_pole_and_meridian() {
    // At the exact pole the longitude is undefined; the model reports 0.
    assert_eq!(cartesian_to_spherical(0, 0, SCALE).1, 0);
    // The sign of zero is positive, so the y == 0 half-meridian behind the
    // sphere is the antimeridian, longitude 180.
    assert_eq!(cartesian_to_spherical(-SCALE, 0, 0), (90, 180));
    assert_eq!(cartesian_to_spherical(SCALE, 0, 0), (90, 0));
}

#[test]
fn spherical_to_cartesian_axis_points() {
    assert_eq!(spherical_to_cartesian(90, 0), (SCALE, 0, 0));
    assert_eq!(spherical_to_cartesian(90, 180), (-SCALE, 0, 0));
    assert_eq!(spherical_to_cartesian(90, 90), (0, SCALE, 0));
    assert_eq!(spherical_to_cartesian(0, 0), (0, 0, SCALE));
    assert_eq!(spherical_to_cartesian(90, 30), (864_864, 500_000, 0));
    assert_eq!(spherical_to_cartesian(60, 45), (610_491, 610_491, 500_000));
}

fn assert_round_trip(x: i64, y: i64, z: i64, tolerance: i64) {
    let (polar, lon) = cartesian_to_spherical(x, y, z);
    let (x2, y2, z2) = spherical_to_cartesian(polar, lon);
    assert!((x2 - x).abs() <= tolerance, "x: {x} -> {x2}");
    assert!((y2 - y).abs() <= tolerance, "y: {y} -> {y2}");
    assert!((z2 - z).abs() <= tolerance, "z: {z} -> {z2}");
}

#[test]
fn round_trip_on_unit_sphere_within_tolerance() {
    let tolerance = 15_000; // 1.5% of the unit radius
    assert_round_trip(500_000, 866_025, 0, tolerance);
    assert_round_trip(600_000, 0, -800_000, tolerance);
    assert_round_trip(333_333, 666_667, -666_667, tolerance);
    assert_round_trip(866_025, -500_000, 0, tolerance);
}

#[test]
fn polar_angle_round_trip_is_exact() {
    for theta in 0..=180 {
        let (x, y, z) = spherical_to_cartesian(theta, 77);
        let (polar, _) = cartesian_to_spherical(x, y, z);
        assert_eq!(polar, theta);
    }
}

#[test]
fn longitude_round_trip_within_one_degree() {
    // Away from the poles the longitude survives the round trip to within
    // one step of the whole-degree mesh, read modulo a full turn.
    for theta in (1..180).step_by(3) {
        for phi in -180..=180 {
            let (x, y, z) = spherical_to_cartesian(theta, phi);
            let (_, lon) = cartesian_to_spherical(x, y, z);
            let err = (lon - phi).rem_euclid(360);
            assert!(err <= 1 || err >= 359, "theta {theta} phi {phi} -> {lon}");
        }
    }
}

#[test]
fn cardinal_longitudes_round_trip_exactly() {
    for theta in [1, 45, 90, 135, 179] {
        for phi in [0, 90, 180, -90] {
            let (x, y, z) = spherical_to_cartesian(theta, phi);
            let (_, lon) = cartesian_to_spherical(x, y, z);
            assert_eq!(lon, phi, "theta {theta} phi {phi}");
        }
    }
}

#[test]
fn spherical_to_cartesian_stays_near_unit_sphere() {
    for theta in (0..=180).step_by(5) {
        for phi in (-180..=180).step_by(5) {
            let (x, y, z) = spherical_to_cartesian(theta, phi);
            let gap = x * x + y * y + z * z - SCALE * SCALE;
            assert!(gap.abs() <= 9_000_000_000, "theta {theta} phi {phi}: {gap}");
        }
    }
}

#[test]
fn round_trip_exact_on_meridian_and_antimeridian() {
    // (−1, 0, 0) is not a pole: it must come back, and it comes back exactly
    // through longitude 180.
    assert_round_trip(-SCALE, 0, 0, 0);
    assert_round_trip(SCALE, 0, 0, 0);
}

#[test]
fn round_trip_exact_at_pole() {
    // The poles are where the longitude is undefined; the polar angle alone
    // carries the point, and the round trip is exact.
    assert_round_trip(0, 0, SCALE, 0);
    assert_round_trip(0, 0, -SCALE, 0);
}
