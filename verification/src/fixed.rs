//! Fixed-point scalars and the arithmetic the curve engine is built on.
//!
//! A scalar is stored as an integer count of `1 / SCALE` units. Euclidean
//! division (rounding toward negative infinity) is used throughout, so
//! interpolation is monotonic in its inputs and exact at segment endpoints.

use vstd::prelude::*;

verus! {

use vstd::arithmetic::div_mod::lemma_fundamental_div_mod_converse;

/// Number of fixed-point steps in one unit; a stored scalar `x` denotes
/// the real number `x / SCALE`.
pub const SCALE: i64 = 0x10000;

/// Largest magnitude a stored keyframe time or value may have.
pub const COORD_MAX: i64 = 0x100_0000;

/// Largest magnitude an evaluation time offset may have; wider than
/// `COORD_MAX` so a play cursor may run past the last keyframe.
pub const TIME_ARG_MAX: i64 = 0x200_0000;

/// Largest interpolation progress `u` that can arise: progress is
/// `(t - t0) * SCALE / (t1 - t0)` with `|t - t0| < 3 * COORD_MAX`
/// and `t1 - t0 >= 1`.
pub const PROGRESS_MAX: i128 = 0x400_0000_0000;

/// Bound on the operands `lerp` accepts; three nested rounds of
/// interpolation starting from `COORD_MAX` stay below it.
pub const LERP_ARG_MAX: i128 = 0x1_0000_0000_0000_0000_0000;

/// One round of interpolation grows a bound on the operands by at most
/// this factor: `1 + 2 * PROGRESS_MAX / SCALE`, rounded up to a power
/// of two.
pub const LERP_GROWTH: i128 = 0x1000_0000;

/// Largest magnitude any segment evaluation can produce:
/// `LERP_ARG_MAX * LERP_GROWTH`, the bound after the last interpolation
/// round.
pub const EVAL_MAX: i128 = 0x1000_0000_0000_0000_0000_0000_0000;

pub open spec fn spec_clamp(x: int, lo: int, hi: int) -> int {
    if x < lo {
        lo
    } else if x > hi {
        hi
    } else {
        x
    }
}

/// Clamp `x` into `[lo, hi]`.
pub fn clamp_i64(x: i64, lo: i64, hi: i64) -> (r: i64)
    requires
        lo <= hi,
    ensures
        r == spec_clamp(x as int, lo as int, hi as int),
{
    if x < lo {
        lo
    } else if x > hi {
        hi
    } else {
        x
    }
}

/// Euclidean division of a fixed-point scalar by a positive divisor;
/// agrees with `/` of mathematical integers.
pub fn div_euclid_fixed(n: i128, d: i128) -> (r: i128)
    requires
        1 <= d,
        -0x7fff_ffff_ffff_ffff_ffff_ffff_ffff_ffff <= n,
    ensures
        r == n as int / d as int,
{
    if n >= 0 {
        let q = (n as u128) / (d as u128);
        proof {
            vstd::arithmetic::div_mod::lemma_fundamental_div_mod(n as int, d as int);
            assert(n as int == (q as int) * d + (n as u128 % d as u128) as int)
                by (nonlinear_arith)
                requires
                    n as int == d as int * ((n as int) / (d as int)) + (n as int) % (d as int),
                    q as int == (n as int) / (d as int),
                    (n as u128 % d as u128) as int == (n as int) % (d as int),
            ;
            lemma_fundamental_div_mod_converse(
                n as int,
                d as int,
                q as int,
                (n as u128 % d as u128) as int,
            );
        }
        q as i128
    } else {
        let m = (-n) as u128;
        let du = d as u128;
        let q = m / du;
        let rem = m % du;
        proof {
            vstd::arithmetic::div_mod::lemma_fundamental_div_mod(m as int, du as int);
        }
        if rem == 0 {
            proof {
                assert(n as int == (-(q as int)) * d + 0) by (nonlinear_arith)
                    requires
                        m as int == du as int * (q as int) + 0,
                        n as int == -(m as int),
                        d as int == du as int,
                ;
                lemma_fundamental_div_mod_converse(n as int, d as int, -(q as int), 0);
            }
            -(q as i128)
        } else {
            proof {
                assert(n as int == (-(q as int) - 1) * d + (d - rem)) by (nonlinear_arith)
                    requires
                        m as int == du as int * (q as int) + rem as int,
                        n as int == -(m as int),
                        d as int == du as int,
                ;
                lemma_fundamental_div_mod_converse(
                    n as int,
                    d as int,
                    -(q as int) - 1,
                    d - rem,
                );
            }
            -(q as i128) - 1
        }
    }
}

/// Fixed-point linear interpolation: `a` at `u == 0`, `b` at `u == SCALE`,
/// and beyond `b` for `u > SCALE`.
pub open spec fn spec_lerp(a: int, b: int, u: int) -> int {
    a + (b - a) * u / (SCALE as int)
}

/// `spec_lerp` stays within `[-m * LERP_GROWTH, m * LERP_GROWTH]` when its
/// operands stay within `[-m, m]` and `u` within `[0, PROGRESS_MAX]`.
pub proof fn lemma_lerp_bound(a: int, b: int, u: int, m: int)
    requires
        0 <= m,
        -m <= a <= m,
        -m <= b <= m,
        0 <= u <= PROGRESS_MAX,
    ensures
        -m * LERP_GROWTH <= spec_lerp(a, b, u) <= m * LERP_GROWTH,
{
    let s = SCALE as int;
    let p = (b - a) * u;
    let cap = m * (2 * (PROGRESS_MAX as int / s));
    assert(-(cap * s) <= p <= cap * s) by (nonlinear_arith)
        requires
            p == (b - a) * u,
            cap == m * (2 * (PROGRESS_MAX as int / s)),
            s == SCALE as int,
            -m <= a <= m,
            -m <= b <= m,
            0 <= u <= PROGRESS_MAX,
            0 <= m,
    ;
    assert((cap * s) / s == cap && (-(cap * s)) / s == -cap) by {
        vstd::arithmetic::div_mod::lemma_div_multiples_vanish(cap, s);
        vstd::arithmetic::div_mod::lemma_div_multiples_vanish(-cap, s);
        assert(cap * s == s * cap && -(cap * s) == s * (-cap)) by (nonlinear_arith);
    }
    assert(-cap <= p / s <= cap) by {
        vstd::arithmetic::div_mod::lemma_div_is_ordered(-(cap * s), p, s);
        vstd::arithmetic::div_mod::lemma_div_is_ordered(p, cap * s, s);
    }
    assert(m + cap <= m * LERP_GROWTH) by (nonlinear_arith)
        requires
            cap == m * (2 * (PROGRESS_MAX as int / s)),
            s == SCALE as int,
            0 <= m,
    ;
}

/// Fixed-point linear interpolation between `a` and `b` by progress `u`.
pub fn lerp_fixed(a: i128, b: i128, u: i128) -> (r: i128)
    requires
        -LERP_ARG_MAX <= a <= LERP_ARG_MAX,
        -LERP_ARG_MAX <= b <= LERP_ARG_MAX,
        0 <= u <= PROGRESS_MAX,
    ensures
        r == spec_lerp(a as int, b as int, u as int),
        -LERP_ARG_MAX * LERP_GROWTH <= r <= LERP_ARG_MAX * LERP_GROWTH,
{
    proof {
        assert(-(2 * LERP_ARG_MAX) * PROGRESS_MAX <= (b - a) * u <= (2 * LERP_ARG_MAX)
            * PROGRESS_MAX) by (nonlinear_arith)
            requires
                -LERP_ARG_MAX <= a <= LERP_ARG_MAX,
                -LERP_ARG_MAX <= b <= LERP_ARG_MAX,
                0 <= u <= PROGRESS_MAX,
        ;
        lemma_lerp_bound(a as int, b as int, u as int, LERP_ARG_MAX as int);
    }
    let d = (b - a) * u;
    let q = div_euclid_fixed(d, SCALE as i128);
    a + q
}

/// Interpolation progress of time `t` across the span `[t0, t1]`, in
/// `SCALE` units and clamped below at zero; `spec_progress(t1, t0, t1)`
/// is exactly `SCALE`.
pub open spec fn spec_progress(t: int, t0: int, t1: int) -> int {
    let raw = (t - t0) * (SCALE as int) / (t1 - t0);
    if raw < 0 {
        0
    } else {
        raw
    }
}

/// Compute `spec_progress` for bounded fixed-point times.
pub fn progress_fixed(t: i64, t0: i64, t1: i64) -> (u: i128)
    requires
        -TIME_ARG_MAX <= t <= TIME_ARG_MAX,
        -COORD_MAX <= t0 <= COORD_MAX,
        -COORD_MAX <= t1 <= COORD_MAX,
        t0 < t1,
    ensures
        u == spec_progress(t as int, t0 as int, t1 as int),
        0 <= u <= PROGRESS_MAX,
{
    let num = (t as i128 - t0 as i128) * (SCALE as i128);
    let d = (t1 - t0) as i128;
    let raw = div_euclid_fixed(num, d);
    proof {
        assert(-PROGRESS_MAX <= num <= PROGRESS_MAX) by (nonlinear_arith)
            requires
                num == (t as int - t0 as int) * (SCALE as int),
                -TIME_ARG_MAX <= t <= TIME_ARG_MAX,
                -COORD_MAX <= t0 <= COORD_MAX,
        ;
        if num >= 0 {
            vstd::arithmetic::div_mod::lemma_div_pos_is_pos(num as int, d as int);
            vstd::arithmetic::div_mod::lemma_div_nonincreasing(num as int, d as int);
        } else {
            vstd::arithmetic::div_mod::lemma_div_is_ordered(num as int, 0, d as int);
            vstd::arithmetic::div_mod::lemma_div_of0(d as int);
        }
    }
    if raw < 0 {
        0
    } else {
        raw
    }
}

} // verus!
