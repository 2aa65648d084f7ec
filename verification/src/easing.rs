//! Fixed-point cubic ease-in-out: the progress curve that shapes the
//! visible transition between two tiles.
//!
//! Progress is measured in 1024ths: for elapsed time `t` out of a total
//! duration `d`, the eased progress accelerates cubically through the
//! first half and decelerates symmetrically through the second, starting
//! at exactly 0 and ending at exactly 1024.

use vstd::prelude::*;

verus! {

use vstd::arithmetic::div_mod::{lemma_div_pos_is_pos, lemma_div_is_ordered, lemma_div_by_multiple};

/// Full eased progress: the fixed-point value standing for 1.0.
pub const EASE_SCALE: u32 = 1024;

/// Eased progress in 1024ths after `t` of `d` time units: `4u^3` for
/// `u = t/d` in the first half, mirrored in the second, each quotient
/// rounded toward zero.
pub open spec fn spec_cubic_ease(t: int, d: int) -> int
    recommends
        0 < d,
        0 <= t <= d,
{
    if 2 * t <= d {
        (4 * t * t * t * 1024) / (d * d * d)
    } else {
        1024 - (4 * (d - t) * (d - t) * (d - t) * 1024) / (d * d * d)
    }
}

/// Cubing keeps order on the non-negative integers.
proof fn lemma_cube_monotone(a: int, b: int)
    requires
        0 <= a <= b,
    ensures
        a * a * a <= b * b * b,
{
    assert(a * a * a <= b * b * b) by (nonlinear_arith)
        requires
            0 <= a <= b,
    ;
}

/// The first-half numerator stays within half the denominator's weight:
/// for `2 * t <= d`, `4 t^3 * 1024 <= 512 d^3`.
proof fn lemma_half_numerator(t: int, d: int)
    requires
        0 <= t,
        2 * t <= d,
    ensures
        0 <= 4 * t * t * t * 1024 <= 512 * (d * d * d),
{
    lemma_cube_monotone(2 * t, d);
    assert(0 <= 4 * t * t * t * 1024 && 4 * t * t * t * 1024 <= 512 * (d * d * d))
        by (nonlinear_arith)
        requires
            0 <= t,
            (2 * t) * (2 * t) * (2 * t) <= d * d * d,
    ;
}

/// The eased progress stays within [0, 1024], is exactly 0 at the start
/// and exactly 1024 at the end, and passes the midpoint value 512
/// between the two halves of the curve.
pub proof fn lemma_cubic_ease_bounds(t: int, d: int)
    requires
        0 < d,
        0 <= t <= d,
    ensures
        0 <= spec_cubic_ease(t, d) <= 1024,
        t == 0 ==> spec_cubic_ease(t, d) == 0,
        t == d ==> spec_cubic_ease(t, d) == 1024,
        2 * t <= d ==> spec_cubic_ease(t, d) <= 512,
        2 * t > d ==> spec_cubic_ease(t, d) >= 512,
{
    assert(0 < d * d * d) by (nonlinear_arith)
        requires
            0 < d,
    ;
    let d3 = d * d * d;
    if 2 * t <= d {
        let num = 4 * t * t * t * 1024;
        lemma_half_numerator(t, d);
        lemma_div_pos_is_pos(num, d3);
        lemma_div_is_ordered(num, 512 * d3, d3);
        lemma_div_by_multiple(512, d3);
        assert(num / d3 <= 512);
        if t == 0 {
            assert(4 * t * t * t * 1024 == 0) by (nonlinear_arith)
                requires
                    t == 0,
            ;
            assert(num / d3 == 0);
        }
    } else {
        let r = d - t;
        let num = 4 * r * r * r * 1024;
        assert(2 * r <= d);
        lemma_half_numerator(r, d);
        lemma_div_pos_is_pos(num, d3);
        lemma_div_is_ordered(num, 512 * d3, d3);
        lemma_div_by_multiple(512, d3);
        assert(num / d3 <= 512);
        if t == d {
            assert(4 * r * r * r * 1024 == 0) by (nonlinear_arith)
                requires
                    r == 0,
            ;
            assert(num / d3 == 0);
        }
    }
}

/// The eased progress never decreases as time passes: the visible
/// position travels monotonically from the old tile toward the new one.
pub proof fn lemma_cubic_ease_monotone(t1: int, t2: int, d: int)
    requires
        0 < d,
        0 <= t1 <= t2 <= d,
    ensures
        spec_cubic_ease(t1, d) <= spec_cubic_ease(t2, d),
{
    lemma_cubic_ease_bounds(t1, d);
    lemma_cubic_ease_bounds(t2, d);
    assert(0 < d * d * d) by (nonlinear_arith)
        requires
            0 < d,
    ;
    let d3 = d * d * d;
    if 2 * t2 <= d {
        // both in the accelerating half: the numerator grows with time
        lemma_cube_monotone(t1, t2);
        assert(4 * t1 * t1 * t1 * 1024 <= 4 * t2 * t2 * t2 * 1024) by (nonlinear_arith)
            requires
                t1 * t1 * t1 <= t2 * t2 * t2,
        ;
        lemma_div_is_ordered(4 * t1 * t1 * t1 * 1024, 4 * t2 * t2 * t2 * 1024, d3);
    } else if 2 * t1 > d {
        // both in the decelerating half: the subtracted tail shrinks
        let r1 = d - t1;
        let r2 = d - t2;
        lemma_cube_monotone(r2, r1);
        assert(4 * r2 * r2 * r2 * 1024 <= 4 * r1 * r1 * r1 * 1024) by (nonlinear_arith)
            requires
                r2 * r2 * r2 <= r1 * r1 * r1,
        ;
        lemma_div_is_ordered(4 * r2 * r2 * r2 * 1024, 4 * r1 * r1 * r1 * 1024, d3);
    } else {
        // across the midpoint: at most 512 before it, at least 512 after
    }
}

/// Computes the eased progress in 1024ths after `t` of `d` milliseconds.
pub fn cubic_ease_in_out(t: u32, d: u32) -> (e: u32)
    requires
        0 < d,
        t <= d,
    ensures
        e == spec_cubic_ease(t as int, d as int),
        e <= 1024,
{
    proof {
        lemma_cubic_ease_bounds(t as int, d as int);
    }
    let tt: u128 = t as u128;
    let dd: u128 = d as u128;
    assert(dd * dd < 0x10000000000000000 && dd * dd * dd < 0x1000000000000000000000000
        && 0 < dd * dd * dd)
        by (nonlinear_arith)
        requires
            0 < dd < 0x100000000,
    ;
    let denom: u128 = dd * dd * dd;
    if 2 * tt <= dd {
        assert(4 * tt * tt < 0x40000000000000000
            && 4 * tt * tt * tt < 0x4000000000000000000000000
            && 4 * tt * tt * tt * 1024 < 0x1000000000000000000000000000)
            by (nonlinear_arith)
            requires
                tt < 0x100000000,
        ;
        let num: u128 = 4 * tt * tt * tt * 1024;
        let q: u128 = num / denom;
        q as u32
    } else {
        let rr: u128 = dd - tt;
        assert(4 * rr * rr < 0x40000000000000000
            && 4 * rr * rr * rr < 0x4000000000000000000000000
            && 4 * rr * rr * rr * 1024 < 0x1000000000000000000000000000)
            by (nonlinear_arith)
            requires
                rr < 0x100000000,
        ;
        let num: u128 = 4 * rr * rr * rr * 1024;
        let q: u128 = num / denom;
        (1024 - q) as u32
    }
}

} // verus!
