//! Fixed-point scalar arithmetic: the scale factor, truncating signed
//! division, and an exact integer square root.

use vstd::arithmetic::div_mod::*;
use vstd::prelude::*;

verus! {

/// Number of integer units that stand for the real value 1.0: unit-sphere
/// coordinates are held as integers scaled by this factor.
pub const SCALE: i64 = 1_000_000;

/// `SCALE * SCALE`, the scaled square of the sphere's unit radius.
pub const SCALE_SQ: i64 = 1_000_000_000_000;

/// Magnitude of an integer.
pub open spec fn iabs(a: int) -> int {
    if a >= 0 {
        a
    } else {
        -a
    }
}

/// Division of `a` by `b` rounding toward zero, as the hardware divides
/// signed integers.
pub open spec fn sdiv(a: int, b: int) -> int {
    if (a >= 0) == (b >= 0) {
        iabs(a) / iabs(b)
    } else {
        -(iabs(a) / iabs(b))
    }
}

/// Negating the dividend negates a truncating quotient exactly.
pub proof fn lemma_sdiv_neg_num(a: int, b: int)
    requires
        b != 0,
    ensures
        sdiv(-a, b) == -sdiv(a, b),
{
    assert(iabs(-a) == iabs(a));
    if a == 0 {
        assert(sdiv(0, b) == iabs(0) / iabs(b) || sdiv(0, b) == -(iabs(0) / iabs(b)));
        lemma_div_of0(iabs(b));
        assert(iabs(0) / iabs(b) == 0 || iabs(b) == 0);
    } else if a > 0 {
        assert(sdiv(-a, b) == if (false) == (b >= 0) {
            iabs(a) / iabs(b)
        } else {
            -(iabs(a) / iabs(b))
        });
    } else {
        assert(sdiv(-a, b) == if (true) == (b >= 0) {
            iabs(a) / iabs(b)
        } else {
            -(iabs(a) / iabs(b))
        });
    }
}

/// A truncating quotient is no larger in magnitude than the bound that the
/// dividend gives: `|a| <= c * b` implies `|a / b| <= c`.
pub proof fn lemma_sdiv_bound(a: int, b: int, c: int)
    requires
        0 < b,
        0 <= c,
        iabs(a) <= c * b,
    ensures
        iabs(sdiv(a, b)) <= c,
{
    lemma_div_pos_is_pos(iabs(a), b);
    lemma_div_is_ordered(iabs(a), c * b, b);
    lemma_div_multiples_vanish(c, b);
    assert(c * b == b * c) by (nonlinear_arith);
    assert(iabs(a) / b <= c);
    assert(sdiv(a, b) == iabs(a) / b || sdiv(a, b) == -(iabs(a) / b));
}

/// A truncating quotient leaves a remainder smaller than the divisor.
pub proof fn lemma_sdiv_remainder(a: int, b: int)
    requires
        0 < b,
    ensures
        iabs(a - b * sdiv(a, b)) < b,
{
    if a >= 0 {
        lemma_fundamental_div_mod(a, b);
        lemma_mod_bound(a, b);
    } else {
        lemma_fundamental_div_mod(-a, b);
        lemma_mod_bound(-a, b);
        let q = (-a) / b;
        assert(b * (-q) == -(b * q)) by (nonlinear_arith);
        assert(a - b * (-q) == -((-a) % b));
    }
}

/// Divide `a` by `b`, rounding toward zero.
pub fn sdiv64(a: i64, b: i64) -> (q: i64)
    requires
        a > i64::MIN,
        b != 0,
        b > i64::MIN,
    ensures
        q == sdiv(a as int, b as int),
        iabs(q as int) <= iabs(a as int),
{
    let an: u64 = if a >= 0 {
        a as u64
    } else {
        (-a) as u64
    };
    let bn: u64 = if b >= 0 {
        b as u64
    } else {
        (-b) as u64
    };
    let qn: u64 = an / bn;
    proof {
        assert(an == iabs(a as int));
        assert(bn == iabs(b as int));
        lemma_div_is_ordered_by_denominator(an as int, 1, bn as int);
        lemma_div_basics(an as int);
        assert(qn <= an);
    }
    if (a >= 0) == (b >= 0) {
        qn as i64
    } else {
        -(qn as i64)
    }
}

/// `r` is the integer square root of `n`.
pub open spec fn is_isqrt(r: int, n: int) -> bool {
    0 <= r && r * r <= n && n < (r + 1) * (r + 1)
}

/// The integer square root: the unique `r >= 0` with `r * r <= n < (r+1)*(r+1)`.
pub open spec fn spec_isqrt(n: int) -> int {
    choose|r: int| is_isqrt(r, n)
}

/// Two integer square roots of the same number are equal.
pub proof fn lemma_isqrt_unique(n: int, r1: int, r2: int)
    requires
        is_isqrt(r1, n),
        is_isqrt(r2, n),
    ensures
        r1 == r2,
{
    assert(r1 == r2) by (nonlinear_arith)
        requires
            0 <= r1,
            0 <= r2,
            r1 * r1 <= n,
            n < (r1 + 1) * (r1 + 1),
            r2 * r2 <= n,
            n < (r2 + 1) * (r2 + 1),
    ;
}

/// A witness that satisfies the square-root bracket pins `spec_isqrt` down.
pub proof fn lemma_isqrt_is(n: int, r: int)
    requires
        is_isqrt(r, n),
    ensures
        spec_isqrt(n) == r,
{
    assert(exists|x: int| is_isqrt(x, n)) by {
        assert(is_isqrt(r, n));
    }
    assert(is_isqrt(spec_isqrt(n), n));
    lemma_isqrt_unique(n, spec_isqrt(n), r);
}

/// Integer square root by bisection.
pub fn isqrt64(n: i64) -> (r: i64)
    requires
        0 <= n <= 4_000_000_000_000,
    ensures
        is_isqrt(r as int, n as int),
        r == spec_isqrt(n as int),
        0 <= r <= 2_000_000,
{
    let mut lo: i64 = 0;
    let mut hi: i64 = 2_000_001;
    while lo + 1 < hi
        invariant
            0 <= lo < hi <= 2_000_001,
            lo * lo <= n,
            n < hi * hi,
        decreases hi - lo,
    {
        let mid: i64 = lo + (hi - lo) / 2;
        proof {
            assert(lo < mid < hi);
            assert(mid * mid <= 2_000_001 * 2_000_001) by (nonlinear_arith)
                requires
                    0 <= mid <= 2_000_001,
            ;
        }
        if mid * mid <= n {
            lo = mid;
        } else {
            hi = mid;
        }
    }
    proof {
        assert(is_isqrt(lo as int, n as int));
        lemma_isqrt_is(n as int, lo as int);
    }
    lo
}

} // verus!
