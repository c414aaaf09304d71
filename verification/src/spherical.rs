//! Conversions between unit-sphere Cartesian coordinates and spherical
//! coordinates (polar angle and longitude, in whole degrees), and recovery
//! of the hidden depth coordinate from the two visible ones.

use crate::fixed::{iabs, is_isqrt, isqrt64, lemma_isqrt_is, lemma_sdiv_bound, lemma_sdiv_neg_num,
    lemma_sdiv_remainder, sdiv, sdiv64, spec_isqrt, SCALE, SCALE_SQ};
use crate::trig::{acos_deg, cos_deg, lemma_acos_inverts_cos, lemma_acos_range, lemma_cos_ends,
    lemma_cos_of_acos_bracket, lemma_pythagoras_model, lemma_sin_bounds, lemma_sin_half_ends,
    lemma_sin_positive, sin_deg, spec_acos, spec_cos, spec_sin, spec_sin_half, ANGLE_BOUND};
use vstd::arithmetic::div_mod::*;
use vstd::prelude::*;

verus! {

/// Depth coordinate of the near-side hemisphere point above the plane
/// position `(u, v)`: the integer square root of `SCALE_SQ - u*u - v*v`,
/// or nothing when `(u, v)` lies outside the sphere's projected disc.
pub open spec fn spec_third(u: int, v: int) -> Option<int> {
    if u * u + v * v > SCALE_SQ {
        None
    } else {
        Some(spec_isqrt(SCALE_SQ - u * u - v * v))
    }
}

/// Recover the positive third Cartesian coordinate of a unit-sphere point
/// from the two visible ones; `None` takes the place of the not-a-number
/// result for points outside the projected disc.
pub fn third_coordinate(u: i64, v: i64) -> (w: Option<i64>)
    ensures
        w is Some <==> (u as int) * (u as int) + (v as int) * (v as int) <= SCALE_SQ,
        w matches Some(x) ==> {
            &&& x as int == spec_isqrt(SCALE_SQ - (u as int) * (u as int) - (v as int) * (
            v as int))
            &&& is_isqrt(x as int, SCALE_SQ - (u as int) * (u as int) - (v as int) * (v as int))
            &&& 0 <= x <= SCALE
        },
{
    if u > SCALE || u < -SCALE || v > SCALE || v < -SCALE {
        proof {
            assert((u as int) * (u as int) + (v as int) * (v as int) > 1_000_000_000_000)
                by (nonlinear_arith)
                requires
                    u > 1_000_000 || u < -1_000_000 || v > 1_000_000 || v < -1_000_000,
            ;
        }
        return None;
    }
    proof {
        assert(0 <= (u as int) * (u as int) <= 1_000_000_000_000 && 0 <= (v as int) * (
        v as int) <= 1_000_000_000_000) by (nonlinear_arith)
            requires
                -1_000_000 <= u <= 1_000_000,
                -1_000_000 <= v <= 1_000_000,
        ;
    }
    let uu: i64 = u * u;
    let vv: i64 = v * v;
    let s: i64 = uu + vv;
    if s > SCALE_SQ {
        None
    } else {
        let w: i64 = isqrt64(SCALE_SQ - s);
        proof {
            assert(w <= 1_000_000) by (nonlinear_arith)
                requires
                    0 <= w,
                    (w as int) * (w as int) <= 1_000_000_000_000,
            ;
        }
        Some(w)
    }
}

/// Longitude, in whole degrees, of the unit-sphere point with visible-plane
/// coordinates `(x, y)`: `sign(y) * acos(x / sqrt(x*x + y*y))`, where the
/// sign of zero is positive, so the `y == 0` half-meridian with `x > 0` maps
/// to 0 and the antimeridian half with `x < 0` maps to 180. Only the
/// degenerate pole `x == y == 0` maps to 0 by convention.
pub open spec fn spec_longitude(x: int, y: int) -> int {
    let d = spec_isqrt(x * x + y * y);
    if d == 0 {
        0
    } else if y >= 0 {
        spec_acos(sdiv(x * (SCALE as int), d))
    } else {
        -spec_acos(sdiv(x * (SCALE as int), d))
    }
}

/// The longitude of any plane point lies on `[-180, 180]`.
pub proof fn lemma_longitude_range(x: int, y: int)
    ensures
        -180 <= spec_longitude(x, y) <= 180,
{
    let d = spec_isqrt(x * x + y * y);
    if d == 0 {
    } else {
        lemma_acos_range(sdiv(x * (SCALE as int), d));
    }
}

/// Longitude is signed symmetrically for the two hemispheres of `y`:
/// mirroring a point across the `y == 0` meridian plane negates it exactly
/// away from that plane, and up to a full turn on it (where 180 and -180
/// name the same meridian).
pub proof fn lemma_longitude_mirror(x: int, y: int)
    ensures
        y != 0 ==> spec_longitude(x, -y) == -spec_longitude(x, y),
        spec_longitude(x, -y) % 360 == (-spec_longitude(x, y)) % 360,
{
    assert((-y) * (-y) == y * y) by (nonlinear_arith);
    if y == 0 {
        lemma_meridian_longitude(x);
        let l = spec_longitude(x, 0);
        if l == 0 {
            assert(0int % 360 == 0);
        } else {
            assert(180int % 360 == 180);
            assert((-180int) % 360 == 180);
        }
    }
}

/// On the `y == 0` meridian plane the depth ratio is exactly plus or minus
/// one unit, so the longitude is exactly 0 toward the viewer's meridian and
/// exactly 180 on the antimeridian.
pub proof fn lemma_meridian_longitude(x: int)
    ensures
        x >= 0 ==> spec_longitude(x, 0) == 0,
        x < 0 ==> spec_longitude(x, 0) == 180,
{
    lemma_cos_ends();
    if x == 0 {
        assert(is_isqrt(0, 0));
        lemma_isqrt_is(0, 0);
    } else {
        assert(is_isqrt(iabs(x), x * x)) by (nonlinear_arith)
            requires
                x != 0,
        ;
        lemma_isqrt_is(x * x, iabs(x));
        let d = spec_isqrt(x * x);
        if x > 0 {
            assert(x * (SCALE as int) > 0) by (nonlinear_arith)
                requires
                    x >= 1,
            ;
            lemma_div_multiples_vanish(SCALE as int, x);
            assert(sdiv(x * (SCALE as int), d) == SCALE as int);
            lemma_acos_inverts_cos(0);
        } else {
            assert(x * (SCALE as int) < 0 && iabs(x * (SCALE as int)) == (-x) * (SCALE as int))
                by (nonlinear_arith)
                requires
                    x <= -1,
            ;
            lemma_div_multiples_vanish(SCALE as int, -x);
            assert(sdiv(x * (SCALE as int), d) == -(SCALE as int));
            lemma_acos_inverts_cos(180);
        }
    }
}

/// Polar angle, in whole degrees, of the unit-sphere point with vertical
/// coordinate `z`: 0 at the north pole, 180 at the south pole.
pub open spec fn spec_polar(z: int) -> int {
    spec_acos(z)
}

/// Convert unit-sphere Cartesian coordinates to spherical coordinates
/// `(polar angle, longitude)` in whole degrees.
pub fn cartesian_to_spherical(x: i64, y: i64, z: i64) -> (r: (i64, i64))
    requires
        iabs(x as int) <= SCALE,
        iabs(y as int) <= SCALE,
        iabs(z as int) <= SCALE,
    ensures
        r.0 == spec_polar(z as int),
        r.1 == spec_longitude(x as int, y as int),
        0 <= r.0 <= 180,
        -180 <= r.1 <= 180,
{
    let polar: i64 = acos_deg(z);
    proof {
        assert(0 <= (x as int) * (x as int) <= 1_000_000_000_000 && 0 <= (y as int) * (
        y as int) <= 1_000_000_000_000) by (nonlinear_arith)
            requires
                -1_000_000 <= x <= 1_000_000,
                -1_000_000 <= y <= 1_000_000,
        ;
    }
    let xx: i64 = x * x;
    let yy: i64 = y * y;
    let d: i64 = isqrt64(xx + yy);
    if d == 0 {
        (polar, 0)
    } else {
        proof {
            assert(iabs(x as int) <= d as int) by (nonlinear_arith)
                requires
                    is_isqrt(d as int, (x as int) * (x as int) + (y as int) * (y as int)),
                    0 <= d,
            ;
            assert(iabs((x as int) * (SCALE as int)) <= (SCALE as int) * (d as int))
                by (nonlinear_arith)
                requires
                    iabs(x as int) <= d as int,
                    SCALE == 1_000_000,
            ;
            lemma_sdiv_bound((x as int) * (SCALE as int), d as int, SCALE as int);
            assert(iabs((x as int) * (SCALE as int)) <= 1_000_000_000_000) by (nonlinear_arith)
                requires
                    iabs(x as int) <= 1_000_000,
                    SCALE == 1_000_000,
            ;
        }
        let c: i64 = sdiv64(x * SCALE, d);
        let a: i64 = acos_deg(c);
        if y >= 0 {
            (polar, a)
        } else {
            (polar, -a)
        }
    }
}

/// Cartesian coordinates, scaled by `SCALE`, of the unit-sphere point with
/// the given polar angle and longitude in whole degrees.
pub open spec fn spec_sph_to_cart(theta: int, phi: int) -> (int, int, int) {
    (
        sdiv(spec_sin(theta) * spec_cos(phi), SCALE as int),
        sdiv(spec_sin(theta) * spec_sin(phi), SCALE as int),
        spec_cos(theta),
    )
}

/// The polar angle survives the round trip through Cartesian coordinates
/// exactly: converting spherical coordinates to Cartesian and reading the
/// polar angle back recovers it, whatever the longitude.
pub proof fn lemma_polar_round_trip(theta: int, phi: int)
    requires
        0 <= theta <= 180,
    ensures
        spec_polar(spec_sph_to_cart(theta, phi).2) == theta,
{
    lemma_acos_inverts_cos(theta);
}

/// The four cardinal longitudes survive the round trip through Cartesian
/// coordinates exactly, at every polar angle strictly between the poles:
/// 0, 90 and -90 come back as themselves, and the antimeridian comes back
/// as 180. The longitudes between them come back within the resolution of
/// the whole-degree mesh, which the tests sample.
pub proof fn lemma_cardinal_longitude_round_trip(theta: int)
    requires
        0 < theta < 180,
    ensures
        spec_longitude(spec_sph_to_cart(theta, 0).0, spec_sph_to_cart(theta, 0).1) == 0,
        spec_longitude(spec_sph_to_cart(theta, 180).0, spec_sph_to_cart(theta, 180).1) == 180,
        spec_longitude(spec_sph_to_cart(theta, 90).0, spec_sph_to_cart(theta, 90).1) == 90,
        spec_longitude(spec_sph_to_cart(theta, -90).0, spec_sph_to_cart(theta, -90).1) == -90,
{
    let st = spec_sin(theta);
    lemma_sin_positive(theta);
    lemma_cos_ends();
    lemma_sin_half_ends();
    lemma_small_mod(180nat, 360nat);
    lemma_small_mod(90nat, 360nat);
    lemma_small_mod(0nat, 360nat);
    lemma_div_of0(SCALE as int);
    lemma_div_of0(st);
    lemma_div_multiples_vanish(st, SCALE as int);
    lemma_sdiv_neg_num(st * (SCALE as int), SCALE as int);
    // the two meridian longitudes: the second coordinate vanishes, the
    // first is plus or minus the sine of the polar angle
    assert(spec_cos(180) == -SCALE && spec_cos(0) == SCALE && spec_sin(180) == 0
        && spec_sin(0) == 0);
    assert(sdiv(st * (SCALE as int), SCALE as int) == st);
    assert(sdiv(st * (-(SCALE as int)), SCALE as int) == -st);
    lemma_meridian_longitude(st);
    lemma_meridian_longitude(-st);
    // the two quarter-turn longitudes: the first coordinate vanishes, the
    // ratio is exactly zero, and its arccosine is a quarter turn
    assert(spec_cos(90) == 0 && spec_sin(90) == SCALE);
    assert(spec_sin(270) == -spec_sin_half(90));
    assert(spec_cos(-90) == spec_sin(0));
    assert(spec_sin(-90) == -spec_sin_half(90));
    assert(spec_sin(-90) == -SCALE);
    assert(sdiv(st * (SCALE as int), SCALE as int) == st);
    assert((-st) * (-st) == st * st) by (nonlinear_arith);
    assert(is_isqrt(st, st * st)) by (nonlinear_arith)
        requires
            1 <= st,
    ;
    lemma_isqrt_is(st * st, st);
    assert(sdiv(0, st) == 0);
    lemma_acos_inverts_cos(90);
    assert(spec_longitude(0, st) == 90);
    assert(spec_longitude(0, -st) == -90);
}

/// The vertical coordinate survives the round trip through spherical
/// coordinates up to one step of the cosine mesh: converting it to a polar
/// angle and back lands at or just below it, and one degree less overshoots.
pub proof fn lemma_vertical_round_trip(z: int)
    requires
        -SCALE <= z <= SCALE,
    ensures
        spec_sph_to_cart(spec_polar(z), 0).2 <= z,
        spec_polar(z) > 0 ==> z < spec_cos(spec_polar(z) - 1),
{
    lemma_cos_of_acos_bracket(z);
}

/// The conversion from spherical coordinates lands on the unit sphere up to
/// the model's Pythagorean play: the squared norm of the result stays
/// within about nine tenths of a percent of the squared unit radius.
pub proof fn lemma_sph_to_cart_norm(theta: int, phi: int)
    ensures
        iabs(
            spec_sph_to_cart(theta, phi).0 * spec_sph_to_cart(theta, phi).0 + spec_sph_to_cart(
                theta,
                phi,
            ).1 * spec_sph_to_cart(theta, phi).1 + spec_sph_to_cart(theta, phi).2
                * spec_sph_to_cart(theta, phi).2 - SCALE_SQ,
        ) <= 9_000_000_000,
{
    let st = spec_sin(theta);
    let ct = spec_cos(theta);
    let sp = spec_sin(phi);
    let cp = spec_cos(phi);
    let ax = st * cp;
    let ay = st * sp;
    let x = sdiv(ax, SCALE as int);
    let y = sdiv(ay, SCALE as int);
    lemma_sin_bounds(theta);
    lemma_sin_bounds(theta + 90);
    lemma_sin_bounds(phi);
    lemma_sin_bounds(phi + 90);
    lemma_pythagoras_model(theta);
    lemma_pythagoras_model(phi);
    lemma_sdiv_remainder(ax, SCALE as int);
    lemma_sdiv_remainder(ay, SCALE as int);
    assert(iabs(ax) <= 1_000_000_000_000 && iabs(ay) <= 1_000_000_000_000 && (SCALE as int) * (
    SCALE as int) == 1_000_000_000_000) by (nonlinear_arith)
        requires
            iabs(st) <= 1_000_000,
            iabs(sp) <= 1_000_000,
            iabs(cp) <= 1_000_000,
            SCALE == 1_000_000,
            ax == st * cp,
            ay == st * sp,
    ;
    lemma_sdiv_bound(ax, SCALE as int, SCALE as int);
    lemma_sdiv_bound(ay, SCALE as int, SCALE as int);
    let t1 = SCALE_SQ * (x * x) - ax * ax;
    let t2 = SCALE_SQ * (y * y) - ay * ay;
    assert(iabs(t1) <= 2_100_000_000_000_000_000 && iabs(t2) <= 2_100_000_000_000_000_000)
        by (nonlinear_arith)
        requires
            t1 == 1_000_000_000_000 * (x * x) - ax * ax,
            t2 == 1_000_000_000_000 * (y * y) - ay * ay,
            iabs(ax - 1_000_000 * x) < 1_000_000,
            iabs(ay - 1_000_000 * y) < 1_000_000,
            iabs(x) <= 1_000_000,
            iabs(y) <= 1_000_000,
            iabs(ax) <= 1_000_000_000_000,
            iabs(ay) <= 1_000_000_000_000,
    ;
    let e_theta = st * st + ct * ct - SCALE_SQ;
    let e_phi = cp * cp + sp * sp - SCALE_SQ;
    let norm_gap = x * x + y * y + ct * ct - SCALE_SQ;
    assert(SCALE_SQ * norm_gap == t1 + t2 + (st * st) * e_phi + SCALE_SQ * e_theta)
        by (nonlinear_arith)
        requires
            t1 == SCALE_SQ * (x * x) - ax * ax,
            t2 == SCALE_SQ * (y * y) - ay * ay,
            ax == st * cp,
            ay == st * sp,
            e_theta == st * st + ct * ct - SCALE_SQ,
            e_phi == cp * cp + sp * sp - SCALE_SQ,
            norm_gap == x * x + y * y + ct * ct - SCALE_SQ,
            SCALE_SQ == 1_000_000_000_000,
    ;
    assert(iabs(norm_gap) <= 9_000_000_000) by (nonlinear_arith)
        requires
            1_000_000_000_000 * norm_gap == t1 + t2 + (st * st) * e_phi + 1_000_000_000_000
                * e_theta,
            iabs(t1) <= 2_100_000_000_000_000_000,
            iabs(t2) <= 2_100_000_000_000_000_000,
            -4_000_000_000 <= e_phi <= 500_000_000,
            -4_000_000_000 <= e_theta <= 500_000_000,
            iabs(st) <= 1_000_000,
    ;
}

/// Convert spherical coordinates (polar angle, longitude, whole degrees) to
/// unit-sphere Cartesian coordinates.
pub fn spherical_to_cartesian(theta: i64, phi: i64) -> (r: (i64, i64, i64))
    requires
        iabs(theta as int) <= ANGLE_BOUND,
        iabs(phi as int) <= ANGLE_BOUND,
    ensures
        r.0 == spec_sph_to_cart(theta as int, phi as int).0,
        r.1 == spec_sph_to_cart(theta as int, phi as int).1,
        r.2 == spec_sph_to_cart(theta as int, phi as int).2,
        iabs(r.0 as int) <= SCALE,
        iabs(r.1 as int) <= SCALE,
        iabs(r.2 as int) <= SCALE,
{
    let st: i64 = sin_deg(theta);
    let ct: i64 = cos_deg(theta);
    let sp: i64 = sin_deg(phi);
    let cp: i64 = cos_deg(phi);
    proof {
        assert(iabs((st as int) * (cp as int)) <= 1_000_000_000_000 && iabs(
            (st as int) * (sp as int),
        ) <= 1_000_000_000_000) by (nonlinear_arith)
            requires
                -1_000_000 <= st <= 1_000_000,
                -1_000_000 <= sp <= 1_000_000,
                -1_000_000 <= cp <= 1_000_000,
        ;
        lemma_sdiv_bound((st as int) * (cp as int), SCALE as int, SCALE as int);
        lemma_sdiv_bound((st as int) * (sp as int), SCALE as int, SCALE as int);
        assert((SCALE as int) * (SCALE as int) == 1_000_000_000_000) by (nonlinear_arith)
            requires
                SCALE == 1_000_000,
        ;
    }
    let x: i64 = sdiv64(st * cp, SCALE);
    let y: i64 = sdiv64(st * sp, SCALE);
    (x, y, ct)
}

} // verus!
