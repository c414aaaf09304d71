//! Fixed-point trigonometry on whole-degree angles.
//!
//! The sine of a degree angle is modeled by Bhaskara's rational
//! approximation on a half turn, extended to all angles by exact symmetry:
//! the model is exact at the axes (multiples of 90 degrees map to 0 and
//! `SCALE`), periodic, and satisfies `sin(a + 180) == -sin(a)` exactly,
//! which is what the front/back classification of the renderer rests on.
//! The arccosine is the exact discrete inverse: the first whole degree
//! whose cosine is at or below the given value.

use crate::fixed::{iabs, SCALE, SCALE_SQ};
use vstd::arithmetic::div_mod::*;
use vstd::prelude::*;

verus! {

/// Largest angle magnitude, in degrees, the trigonometric entry points accept;
/// wide enough for any rotation the interaction state can accumulate.
pub const ANGLE_BOUND: i64 = 1_000_000_000_000;

/// Bhaskara's sine approximation on a half turn, in fixed-point units:
/// for `0 <= d <= 180` this is `4 d (180 - d) * SCALE / (40500 - d (180 - d))`,
/// exact at 0, 30, 90, 150 and 180 degrees.
pub open spec fn spec_sin_half(d: int) -> int {
    let m = d * (180 - d);
    (4 * m * (SCALE as int)) / (40500 - m)
}

/// Sine of a whole-degree angle, scaled by `SCALE`, defined for every
/// integer by reduction to a single turn.
pub open spec fn spec_sin(a: int) -> int {
    let q = a % 360;
    if q <= 180 {
        spec_sin_half(q)
    } else {
        -spec_sin_half(q - 180)
    }
}

/// Cosine of a whole-degree angle, scaled by `SCALE`.
pub open spec fn spec_cos(a: int) -> int {
    spec_sin(a + 90)
}

/// On a half turn the sine model stays within `[0, SCALE]`.
pub proof fn lemma_sin_half_bounds(d: int)
    requires
        0 <= d <= 180,
    ensures
        0 <= spec_sin_half(d) <= SCALE,
{
    assert(0 <= d * (180 - d) <= 8100) by (nonlinear_arith)
        requires
            0 <= d <= 180,
    ;
    let m = d * (180 - d);
    let num = 4 * m * (SCALE as int);
    let den = 40500 - m;
    assert(num <= (SCALE as int) * den) by (nonlinear_arith)
        requires
            0 <= m <= 8100,
            num == 4 * m * (SCALE as int),
            den == 40500 - m,
    ;
    lemma_div_pos_is_pos(num, den);
    lemma_div_is_ordered(num, (SCALE as int) * den, den);
    lemma_div_multiples_vanish(SCALE as int, den);
    assert((SCALE as int) * den == den * (SCALE as int)) by (nonlinear_arith);
}

/// The sine model is zero at both ends of the half turn.
pub proof fn lemma_sin_half_ends()
    ensures
        spec_sin_half(0) == 0,
        spec_sin_half(180) == 0,
{
    lemma_div_of0(40500);
}

/// The sine of any angle lies within `[-SCALE, SCALE]`.
pub proof fn lemma_sin_bounds(a: int)
    ensures
        -SCALE <= spec_sin(a) <= SCALE,
{
    lemma_mod_bound(a, 360);
    let q = a % 360;
    if q <= 180 {
        lemma_sin_half_bounds(q);
    } else {
        lemma_sin_half_bounds(q - 180);
    }
}

/// The sine is strictly positive strictly inside the half turn.
pub proof fn lemma_sin_positive(a: int)
    requires
        0 < a < 180,
    ensures
        1 <= spec_sin(a) <= SCALE,
{
    lemma_small_mod(a as nat, 360nat);
    lemma_sin_bounds(a);
    lemma_sin_half_ends();
    if a <= 90 {
        lemma_sin_half_mono_up(0, a);
    } else {
        lemma_sin_half_mono_down(a, 180);
    }
}

/// A full turn leaves the sine unchanged.
pub proof fn lemma_sin_period(a: int)
    ensures
        spec_sin(a + 360) == spec_sin(a),
{
    lemma_mod_add_multiples_vanish(a, 360);
}

/// A full turn leaves the cosine unchanged.
pub proof fn lemma_cos_period(a: int)
    ensures
        spec_cos(a + 360) == spec_cos(a),
{
    lemma_sin_period(a + 90);
}

/// A half turn negates the sine exactly.
pub proof fn lemma_sin_shift_half(a: int)
    ensures
        spec_sin(a + 180) == -spec_sin(a),
{
    lemma_mod_bound(a, 360);
    let q = a % 360;
    assert((a + 180) % 360 == (q + 180) % 360) by {
        lemma_add_mod_noop(a, 180, 360);
        lemma_small_mod(180nat, 360nat);
        lemma_mod_twice(a, 360);
    }
    if q < 180 {
        lemma_small_mod((q + 180) as nat, 360nat);
        assert((a + 180) % 360 == q + 180);
        if q == 0 {
            lemma_sin_half_ends();
        }
    } else {
        assert((q + 180) % 360 == (q - 180) % 360) by {
            lemma_mod_sub_multiples_vanish(q + 180, 360);
        }
        lemma_small_mod((q - 180) as nat, 360nat);
        assert((a + 180) % 360 == q - 180);
        if q == 180 {
            lemma_sin_half_ends();
        }
    }
}

/// A half turn negates the cosine exactly.
pub proof fn lemma_cos_shift_half(a: int)
    ensures
        spec_cos(a + 180) == -spec_cos(a),
{
    lemma_sin_shift_half(a + 90);
}

/// Bhaskara's sine approximation on a half turn.
fn sin_half_fp(d: i64) -> (r: i64)
    requires
        0 <= d <= 180,
    ensures
        r == spec_sin_half(d as int),
        0 <= r <= SCALE,
{
    proof {
        lemma_sin_half_bounds(d as int);
        assert(0 <= d * (180 - d) <= 8100) by (nonlinear_arith)
            requires
                0 <= d <= 180,
        ;
    }
    let m: i64 = d * (180 - d);
    let num: i64 = 4 * m * SCALE;
    let den: i64 = 40500 - m;
    num / den
}

/// Sine of a whole-degree angle, scaled by `SCALE`.
pub fn sin_deg(a: i64) -> (r: i64)
    requires
        iabs(a as int) <= ANGLE_BOUND + 90,
    ensures
        r == spec_sin(a as int),
        -SCALE <= r <= SCALE,
{
    let b: i64 = a + 3_240_000_000_000;
    proof {
        assert(b as int == 360 * 9_000_000_000 + a as int);
        lemma_mod_multiples_vanish(9_000_000_000, a as int, 360);
        lemma_mod_bound(a as int, 360);
        lemma_sin_bounds(a as int);
    }
    let q: i64 = b % 360;
    if q <= 180 {
        sin_half_fp(q)
    } else {
        let s: i64 = sin_half_fp(q - 180);
        -s
    }
}

/// Cosine of a whole-degree angle, scaled by `SCALE`.
pub fn cos_deg(a: i64) -> (r: i64)
    requires
        iabs(a as int) <= ANGLE_BOUND,
    ensures
        r == spec_cos(a as int),
        -SCALE <= r <= SCALE,
{
    sin_deg(a + 90)
}

/// The first whole degree at or after `a` whose cosine is at or below `c`,
/// or 180 if there is none before the half turn ends.
pub open spec fn acos_search(a: int, c: int) -> int
    decreases 180 - a,
{
    if a >= 180 {
        180
    } else if spec_cos(a) <= c {
        a
    } else {
        acos_search(a + 1, c)
    }
}

/// Arccosine in whole degrees: the first angle on `[0, 180]` whose modeled
/// cosine is at or below `c`.
pub open spec fn spec_acos(c: int) -> int {
    acos_search(0, c)
}

/// A quarter turn apart, the squares of the sine model sum to nearly the
/// squared unit: within half a percent below and a twentieth of a percent
/// above `SCALE_SQ`.
#[verifier::rlimit(100)]
#[verifier::spinoff_prover]
proof fn lemma_sin_half_pair(v: int)
    requires
        0 <= v <= 90,
    ensures
        SCALE_SQ - 4_000_000_000 <= spec_sin_half(v) * spec_sin_half(v) + spec_sin_half(v + 90)
            * spec_sin_half(v + 90),
        spec_sin_half(v) * spec_sin_half(v) + spec_sin_half(v + 90) * spec_sin_half(v + 90)
            <= SCALE_SQ + 500_000_000,
{
    lemma_sin_half_bounds(v);
    lemma_sin_half_bounds(v + 90);
    assert(0 <= v * (180 - v) <= 8100 && 0 <= (v + 90) * (90 - v) <= 8100) by (nonlinear_arith)
        requires
            0 <= v <= 90,
    ;
    let m1 = v * (180 - v);
    let m2 = (v + 90) * (90 - v);
    let d1 = 40500 - m1;
    let d2 = 40500 - m2;
    let n1 = 4 * m1 * (SCALE as int);
    let n2 = 4 * m2 * (SCALE as int);
    let s = n1 / d1;
    let c = n2 / d2;
    assert(spec_sin_half(v + 90) == c) by {
        assert((v + 90) * (180 - (v + 90)) == m2);
    }
    lemma_fundamental_div_mod(n1, d1);
    lemma_mod_bound(n1, d1);
    lemma_fundamental_div_mod(n2, d2);
    lemma_mod_bound(n2, d2);
    assert(d1 * s <= n1 < d1 * (s + 1)) by (nonlinear_arith)
        requires
            n1 == d1 * s + n1 % d1,
            0 <= n1 % d1 < d1,
    ;
    assert(d2 * c <= n2 < d2 * (c + 1)) by (nonlinear_arith)
        requires
            n2 == d2 * c + n2 % d2,
            0 <= n2 % d2 < d2,
    ;
    assert(1_000_000_000_000 - 4_000_000_000 <= s * s + c * c <= 1_000_000_000_000
        + 500_000_000) by (nonlinear_arith)
        requires
            0 <= v <= 90,
            m1 == v * (180 - v),
            m2 == (v + 90) * (90 - v),
            d1 == 40500 - m1,
            d2 == 40500 - m2,
            n1 == 4 * m1 * 1_000_000,
            n2 == 4 * m2 * 1_000_000,
            d1 * s <= n1 < d1 * (s + 1),
            d2 * c <= n2 < d2 * (c + 1),
            0 <= s <= 1_000_000,
            0 <= c <= 1_000_000,
    ;
}

/// Squaring forgets the sign.
proof fn lemma_square_neg(x: int)
    ensures
        (-x) * (-x) == x * x,
{
    assert((-x) * (-x) == x * x) by (nonlinear_arith);
}

/// The model's sine and cosine nearly satisfy the Pythagorean identity: at
/// every angle the sum of their squares lies within half a percent below
/// and a twentieth of a percent above the squared unit.
pub proof fn lemma_pythagoras_model(a: int)
    ensures
        SCALE_SQ - 4_000_000_000 <= spec_sin(a) * spec_sin(a) + spec_cos(a) * spec_cos(a),
        spec_sin(a) * spec_sin(a) + spec_cos(a) * spec_cos(a) <= SCALE_SQ + 500_000_000,
{
    lemma_mod_bound(a, 360);
    let q = a % 360;
    assert((a + 90) % 360 == (q + 90) % 360) by {
        lemma_add_mod_noop(a, 90, 360);
        lemma_small_mod(90nat, 360nat);
        lemma_mod_twice(a, 360);
    }
    if q <= 90 {
        lemma_small_mod((q + 90) as nat, 360nat);
        lemma_sin_half_pair(q);
    } else if q <= 180 {
        lemma_small_mod((q + 90) as nat, 360nat);
        lemma_sin_half_pair(q - 90);
        lemma_square_neg(spec_sin_half(q - 90));
    } else if q < 270 {
        lemma_small_mod((q + 90) as nat, 360nat);
        lemma_sin_half_pair(q - 180);
        lemma_square_neg(spec_sin_half(q - 180));
        lemma_square_neg(spec_sin_half(q - 90));
    } else {
        assert((q + 90) % 360 == q - 270) by {
            lemma_mod_sub_multiples_vanish(q + 90, 360);
            lemma_small_mod((q - 270) as nat, 360nat);
        }
        lemma_sin_half_pair(q - 270);
        lemma_square_neg(spec_sin_half(q - 180));
    }
}

/// The quotient `4 m SCALE / (40500 - m)` at the heart of the sine model
/// grows strictly with `m` on `[0, 8100]`: its real-valued increase per unit
/// of `m` is far larger than what truncation can absorb.
proof fn lemma_bh_ratio_mono(m1: int, m2: int)
    requires
        0 <= m1 < m2 <= 8100,
    ensures
        (4 * m1 * (SCALE as int)) / (40500 - m1) < (4 * m2 * (SCALE as int)) / (40500 - m2),
{
    let x1 = 4 * m1 * (SCALE as int);
    let x2 = 4 * m2 * (SCALE as int);
    let d1 = 40500 - m1;
    let d2 = 40500 - m2;
    let q1 = x1 / d1;
    let q2 = x2 / d2;
    lemma_fundamental_div_mod(x1, d1);
    lemma_mod_bound(x1, d1);
    lemma_fundamental_div_mod(x2, d2);
    lemma_mod_bound(x2, d2);
    lemma_div_pos_is_pos(x1, d1);
    lemma_div_pos_is_pos(x2, d2);
    assert(d1 * q1 <= x1);
    assert(x2 < d2 * (q2 + 1)) by (nonlinear_arith)
        requires
            x2 == d2 * q2 + x2 % d2,
            x2 % d2 < d2,
    ;
    assert(q1 < q2) by (nonlinear_arith)
        requires
            0 <= m1 < m2 <= 8100,
            d1 == 40500 - m1,
            d2 == 40500 - m2,
            x1 == 4 * m1 * 1_000_000,
            x2 == 4 * m2 * 1_000_000,
            d1 * q1 <= x1,
            x2 < d2 * (q2 + 1),
            0 <= q1,
            0 <= q2,
    ;
}

/// On the rising quarter of the half turn the sine model grows strictly.
proof fn lemma_sin_half_mono_up(d1: int, d2: int)
    requires
        0 <= d1 < d2 <= 90,
    ensures
        spec_sin_half(d1) < spec_sin_half(d2),
{
    assert(0 <= d1 * (180 - d1) < d2 * (180 - d2) <= 8100) by (nonlinear_arith)
        requires
            0 <= d1 < d2 <= 90,
    ;
    lemma_bh_ratio_mono(d1 * (180 - d1), d2 * (180 - d2));
}

/// On the falling quarter of the half turn the sine model falls strictly.
proof fn lemma_sin_half_mono_down(d1: int, d2: int)
    requires
        90 <= d1 < d2 <= 180,
    ensures
        spec_sin_half(d2) < spec_sin_half(d1),
{
    assert(0 <= d2 * (180 - d2) < d1 * (180 - d1) <= 8100) by (nonlinear_arith)
        requires
            90 <= d1 < d2 <= 180,
    ;
    lemma_bh_ratio_mono(d2 * (180 - d2), d1 * (180 - d1));
}

/// On the first quadrant past a quarter turn the cosine is the sine model
/// of the shifted angle.
proof fn lemma_cos_as_sin_half(a: int)
    requires
        0 <= a <= 180,
    ensures
        0 <= a <= 90 ==> spec_cos(a) == spec_sin_half(a + 90),
        90 < a <= 180 ==> spec_cos(a) == -spec_sin_half(a - 90),
{
    lemma_small_mod((a + 90) as nat, 360nat);
}

/// The modeled cosine falls strictly over the whole half turn, the fact
/// that makes the arccosine search an exact inverse.
pub proof fn lemma_cos_strict_decreasing(a: int, b: int)
    requires
        0 <= a < b <= 180,
    ensures
        spec_cos(b) < spec_cos(a),
{
    lemma_cos_as_sin_half(a);
    lemma_cos_as_sin_half(b);
    if b <= 90 {
        lemma_sin_half_mono_down(a + 90, b + 90);
    } else if a > 90 {
        lemma_sin_half_mono_up(a - 90, b - 90);
    } else {
        lemma_sin_half_bounds(a + 90);
        lemma_sin_half_ends();
        lemma_sin_half_mono_up(0, b - 90);
    }
}

/// The arccosine search, started at or below `theta`, stops exactly at
/// `theta` when asked for the cosine of `theta`.
proof fn lemma_acos_search_hits(a: int, theta: int)
    requires
        0 <= a <= theta <= 180,
    ensures
        acos_search(a, spec_cos(theta)) == theta,
    decreases theta - a,
{
    if a == theta {
    } else {
        lemma_cos_strict_decreasing(a, theta);
        lemma_acos_search_hits(a + 1, theta);
    }
}

/// The arccosine inverts the cosine exactly on the half turn.
pub proof fn lemma_acos_inverts_cos(theta: int)
    requires
        0 <= theta <= 180,
    ensures
        spec_acos(spec_cos(theta)) == theta,
{
    lemma_acos_search_hits(0, theta);
}

/// The cosine at the far end of the half turn is exactly minus one unit.
pub proof fn lemma_cos_ends()
    ensures
        spec_cos(0) == SCALE,
        spec_cos(180) == -SCALE,
{
    lemma_cos_as_sin_half(0);
    lemma_cos_as_sin_half(180);
    assert(spec_sin_half(90) == SCALE) by {
        assert(90 * (180 - 90) == 8100);
        assert(4 * 8100 * 1_000_000 == 32_400_000_000int);
        assert(32_400_000_000int / 32_400 == 1_000_000);
    }
}

/// Wherever the arccosine search stops, the cosine there is at or below the
/// target, and the cosine one degree earlier was still above it.
proof fn lemma_acos_search_bracket(a: int, c: int)
    requires
        0 <= a <= 180,
        -SCALE <= c,
    ensures
        spec_cos(acos_search(a, c)) <= c,
        a < acos_search(a, c) ==> spec_cos(acos_search(a, c) - 1) > c,
    decreases 180 - a,
{
    if a >= 180 {
        lemma_cos_ends();
    } else if spec_cos(a) <= c {
    } else {
        lemma_acos_search_bracket(a + 1, c);
    }
}

/// The cosine of the arccosine lands at or just below its argument: the
/// round trip reproduces the argument up to one step of the cosine mesh.
pub proof fn lemma_cos_of_acos_bracket(c: int)
    requires
        -SCALE <= c <= SCALE,
    ensures
        spec_cos(spec_acos(c)) <= c,
        spec_acos(c) > 0 ==> c < spec_cos(spec_acos(c) - 1),
{
    lemma_acos_search_bracket(0, c);
}

/// The arccosine search never leaves `[a, 180]`.
pub proof fn lemma_acos_search_range(a: int, c: int)
    requires
        0 <= a <= 180,
    ensures
        a <= acos_search(a, c) <= 180,
    decreases 180 - a,
{
    if a >= 180 {
    } else if spec_cos(a) <= c {
    } else {
        lemma_acos_search_range(a + 1, c);
    }
}

/// The arccosine lies on `[0, 180]`.
pub proof fn lemma_acos_range(c: int)
    ensures
        0 <= spec_acos(c) <= 180,
{
    lemma_acos_search_range(0, c);
}

/// Arccosine of a fixed-point value, in whole degrees.
pub fn acos_deg(c: i64) -> (r: i64)
    requires
        iabs(c as int) <= SCALE,
    ensures
        r == spec_acos(c as int),
        0 <= r <= 180,
{
    let mut a: i64 = 0;
    while a < 180
        invariant
            0 <= a <= 180,
            iabs(c as int) <= SCALE,
            spec_acos(c as int) == acos_search(a as int, c as int),
        decreases 180 - a,
    {
        let cv: i64 = cos_deg(a);
        if cv <= c {
            return a;
        }
        a = a + 1;
    }
    180
}

} // verus!
