//! Scalar fixed-point operations: floor division, fixed-point product,
//! affine remapping, the smooth cubic threshold, and the overlay blend
//! operator with its crater depth transform.
//!
//! Every operation is defined by a `spec` function over mathematical
//! integers (where `/` is Euclidean division, which for the positive
//! divisors used here coincides with floor division), and the executable
//! code is proved to return exactly that value.

use vstd::arithmetic::div_mod::{
    lemma_div_is_ordered, lemma_div_multiples_vanish, lemma_div_multiples_vanish_fancy,
    lemma_fundamental_div_mod,
};
use vstd::arithmetic::mul::lemma_mul_is_commutative;
use vstd::prelude::*;

use crate::{HALF, SCALE, VAL_LIMIT};

verus! {

/// A quotient lies between `lo` and `hi` as soon as the numerator lies
/// between `lo * d` and `hi * d`.
pub proof fn lemma_div_bounds(n: int, d: int, lo: int, hi: int)
    requires
        0 < d,
        lo * d <= n,
        n <= hi * d,
    ensures
        lo <= n / d <= hi,
{
    lemma_div_is_ordered(lo * d, n, d);
    lemma_div_is_ordered(n, hi * d, d);
    lemma_mul_is_commutative(lo, d);
    lemma_mul_is_commutative(hi, d);
    lemma_div_multiples_vanish(lo, d);
    lemma_div_multiples_vanish(hi, d);
}

/// Floor division of `n` by a positive `d`, as the mathematical `n / d`.
///
/// The bounds keep `-n` and `n + d - 1` representable; every caller works
/// with quantities far smaller.
pub(crate) fn div_floor(n: i128, d: i128) -> (r: i128)
    requires
        0 < d < 0x1000_0000_0000_0000,
        -0x1_0000_0000_0000_0000_0000_0000_0000 < n < 0x1_0000_0000_0000_0000_0000_0000_0000,
    ensures
        r == n as int / d as int,
{
    if n >= 0 {
        let q: u128 = (n as u128) / (d as u128);
        q as i128
    } else {
        let m: u128 = (-n) as u128;
        let du: u128 = d as u128;
        let q: u128 = (m + du - 1) / du;
        proof {
            let ni = n as int;
            let di = d as int;
            let quo = ni / di;
            let rem = ni % di;
            lemma_fundamental_div_mod(ni, di);
            // -n + d - 1 == d * (-quo) + (d - 1 - rem), with the last summand in [0, d).
            assert(m as int == -ni);
            assert(di * (-quo) == -(di * quo)) by (nonlinear_arith);
            assert((m + du - 1) as int == di * (-quo) + (di - 1 - rem));
            lemma_div_multiples_vanish_fancy(-quo, di - 1 - rem, di);
            lemma_div_bounds(ni, di, -0x1_0000_0000_0000_0000_0000_0000_0000, 0);
        }
        -(q as i128)
    }
}

/// What the fixed-point product of `a` and `b` is: the floor of
/// `a * b / SCALE`.
pub open spec fn fp_mul_spec(a: int, b: int) -> int {
    (a * b) / (SCALE as int)
}

/// Fixed-point product, exact floor semantics.
pub fn fp_mul(a: i64, b: i64) -> (r: i64)
    requires
        -VAL_LIMIT <= a <= VAL_LIMIT,
        -VAL_LIMIT <= b <= VAL_LIMIT,
    ensures
        r == fp_mul_spec(a as int, b as int),
{
    proof {
        let lim = VAL_LIMIT as int;
        assert(lim * lim == 0x1_0000_0000_0000_0000_0000);
        assert(-lim * lim <= a as int * b as int <= lim * lim) by (nonlinear_arith)
            requires
                -lim <= a as int <= lim,
                -lim <= b as int <= lim,
        ;
    }
    let n: i128 = (a as i128) * (b as i128);
    proof {
        let lim = VAL_LIMIT as int;
        let s = SCALE as int;
        let big: int = 0x1000_0000_0000_0000;
        assert(big * s == 0x1_9000_0000_0000_0000_0000);
        assert((-big) * s == -(big * s));
        lemma_div_bounds(n as int, s, -big, big);
    }
    let q: i128 = div_floor(n, SCALE as i128);
    q as i64
}

/// What remapping `x` from `[lo, hi]` to `[a, b]` is: the affine rescale
/// `a + (b - a) * (x - lo) / (hi - lo)`, with floor rounding.
pub open spec fn remap_spec(x: int, lo: int, hi: int, a: int, b: int) -> int {
    a + (b - a) * (x - lo) / (hi - lo)
}

/// The remapped value stays within the target range, and the ends of the
/// source range map exactly onto the ends of the target range.
pub proof fn lemma_remap_spec_props(x: int, lo: int, hi: int, a: int, b: int)
    requires
        lo <= x <= hi,
        lo < hi,
        a <= b,
    ensures
        a <= remap_spec(x, lo, hi, a, b) <= b,
        x == lo ==> remap_spec(x, lo, hi, a, b) == a,
        x == hi ==> remap_spec(x, lo, hi, a, b) == b,
{
    let sp = b - a;
    let off = x - lo;
    let d = hi - lo;
    assert(0 <= sp * off && sp * off <= sp * d) by (nonlinear_arith)
        requires
            0 <= sp,
            0 <= off <= d,
    ;
    lemma_mul_is_commutative(sp, d);
    lemma_div_bounds(sp * off, d, 0, sp);
    if x == lo {
        assert(sp * off == 0) by (nonlinear_arith)
            requires
                off == 0,
        ;
    }
    if x == hi {
        assert(sp * off == d * sp) by (nonlinear_arith)
            requires
                off == d,
        ;
        lemma_div_multiples_vanish(sp, d);
    }
}

/// Affine rescale of a scalar from the source range `[min, max]` to the
/// target range `[a, b]`. The ends map exactly: `min` to `a` and `max` to
/// `b`; everything between stays within `[a, b]`.
pub fn remap(x: i64, min: i64, max: i64, a: i64, b: i64) -> (r: i64)
    requires
        min <= x <= max,
        min < max,
        a <= b,
        -VAL_LIMIT <= min <= VAL_LIMIT,
        -VAL_LIMIT <= max <= VAL_LIMIT,
        -VAL_LIMIT <= a <= VAL_LIMIT,
        -VAL_LIMIT <= b <= VAL_LIMIT,
    ensures
        r == remap_spec(x as int, min as int, max as int, a as int, b as int),
        a <= r <= b,
        x == min ==> r == a,
        x == max ==> r == b,
{
    let span: i64 = b - a;
    let offset: i64 = x - min;
    let den: i64 = max - min;
    proof {
        let sp = span as int;
        let off = offset as int;
        let d = den as int;
        assert(0 <= sp * off && sp * off <= sp * d && sp * d <= 0x4_0000_0000_0000_0000_0000)
            by (nonlinear_arith)
            requires
                0 <= sp <= 0x200_0000_0000,
                0 <= off <= d,
                0 < d <= 0x200_0000_0000,
        ;
        lemma_mul_is_commutative(sp, d);
        lemma_div_bounds(sp * off, d, 0, sp);
        lemma_remap_spec_props(x as int, min as int, max as int, a as int, b as int);
    }
    let num: i128 = (span as i128) * (offset as i128);
    let q: i128 = div_floor(num, den as i128);
    a + (q as i64)
}

/// What the clamped ramp of the smooth threshold is: 0 below `e0`, full
/// scale above `e1`, and the proportional position in between.
pub open spec fn sstep_ramp_spec(x: int, e0: int, e1: int) -> int {
    if x <= e0 {
        0
    } else if x >= e1 {
        SCALE as int
    } else {
        (x - e0) * (SCALE as int) / (e1 - e0)
    }
}

/// What the smooth cubic threshold of `x` between edges `e0` and `e1` is:
/// with `t` the clamped ramp, the fixed-point value of `t * t * (3 - 2 * t)`.
pub open spec fn sstep_spec(x: int, e0: int, e1: int) -> int {
    let s = SCALE as int;
    let t = sstep_ramp_spec(x, e0, e1);
    let tt = t * t / s;
    tt * (3 * s - 2 * t) / s
}

/// Smooth cubic threshold between `e0` and `e1`: values at or below `e0`
/// map to zero, values at or above `e1` map to full scale, and between the
/// edges the result follows a continuously differentiable S-curve.
pub fn sstep(x: i64, e0: i64, e1: i64) -> (r: i64)
    requires
        e0 < e1,
        -VAL_LIMIT <= x <= VAL_LIMIT,
        -VAL_LIMIT <= e0 <= VAL_LIMIT,
        -VAL_LIMIT <= e1 <= VAL_LIMIT,
    ensures
        r == sstep_spec(x as int, e0 as int, e1 as int),
        0 <= r <= 3 * SCALE,
{
    let t: i64 = if x <= e0 {
        0
    } else if x >= e1 {
        SCALE
    } else {
        let den: i64 = e1 - e0;
        let diff: i64 = x - e0;
        proof {
            let off = diff as int;
            let d = den as int;
            let si = SCALE as int;
            assert(0 <= off * si && off * si <= d * si && d * si <= 0x4_0000_0000_0000_0000_0000)
                by (nonlinear_arith)
                requires
                    0 < off <= d,
                    0 < si <= 0x200_0000_0000,
                    d <= 0x200_0000_0000,
            ;
            lemma_mul_is_commutative(d, si);
            lemma_div_bounds(off * si, d, 0, si);
        }
        div_floor((diff as i128) * (SCALE as i128), den as i128) as i64
    };
    proof {
        let ti = t as int;
        let si = SCALE as int;
        assert(0 <= ti * ti && ti * ti <= si * si && si * si <= 0x4_0000_0000_0000_0000_0000)
            by (nonlinear_arith)
            requires
                0 <= ti <= si,
                0 < si <= 0x200_0000_0000,
        ;
        lemma_div_bounds(ti * ti, si, 0, si);
    }
    let tsq: i128 = (t as i128) * (t as i128);
    let tt: i64 = div_floor(tsq, SCALE as i128) as i64;
    let shape: i64 = 3 * SCALE - 2 * t;
    proof {
        let tti = tt as int;
        let sh = shape as int;
        let si = SCALE as int;
        assert(0 <= tti * sh && tti * sh <= (3 * si) * si && (3 * si) * si
            <= 0x4_0000_0000_0000_0000_0000) by (nonlinear_arith)
            requires
                0 <= tti <= si,
                0 <= sh <= 3 * si,
                0 < si <= 0x20_0000,
        ;
        lemma_div_bounds(tti * sh, si, 0, 3 * si);
    }
    let num2: i128 = (tt as i128) * (shape as i128);
    div_floor(num2, SCALE as i128) as i64
}

/// What the overlay blend gives when the bottom value is above one half:
/// the top value scaled by the remaining headroom, lifted onto the floor
/// `2 * bottom - 1`.
pub open spec fn overlay_above_spec(bottom: int, top: int) -> int {
    let s = SCALE as int;
    top * (2 * (s - bottom)) / s + (2 * bottom - s)
}

/// What the overlay blend gives when the bottom value is at most one half:
/// the top value scaled by twice the bottom.
pub open spec fn overlay_below_spec(bottom: int, top: int) -> int {
    top * (2 * bottom) / (SCALE as int)
}

/// What the overlay blend of `top` onto `bottom` is.
pub open spec fn overlay_spec(bottom: int, top: int) -> int {
    if bottom > HALF as int {
        overlay_above_spec(bottom, top)
    } else {
        overlay_below_spec(bottom, top)
    }
}

/// Overlay blend: the effect of the top value on the bottom is scaled by
/// the bottom's own brightness. The result stays within `[0, SCALE]`.
pub fn overlay(bottom: i64, top: i64) -> (r: i64)
    requires
        0 <= bottom <= SCALE,
        0 <= top <= SCALE,
    ensures
        r == overlay_spec(bottom as int, top as int),
        0 <= r <= SCALE,
{
    if bottom > HALF {
        let unit: i64 = 2 * (SCALE - bottom);
        proof {
            let ti = top as int;
            let ui = unit as int;
            let si = SCALE as int;
            assert(0 <= ti * ui && ti * ui <= ui * si && ui * si <= 0x4_0000_0000_0000_0000_0000)
                by (nonlinear_arith)
                requires
                    0 <= ti <= si,
                    0 <= ui <= si,
                    0 < si <= 0x200_0000_0000,
            ;
            lemma_mul_is_commutative(ui, si);
            lemma_div_bounds(ti * ui, si, 0, ui);
        }
        let q: i64 = div_floor((top as i128) * (unit as i128), SCALE as i128) as i64;
        q + (2 * bottom - SCALE)
    } else {
        let unit: i64 = 2 * bottom;
        proof {
            let ti = top as int;
            let ui = unit as int;
            let si = SCALE as int;
            assert(0 <= ti * ui && ti * ui <= ti * si && ti * si <= 0x4_0000_0000_0000_0000_0000)
                by (nonlinear_arith)
                requires
                    0 <= ti <= si,
                    0 <= ui <= si,
                    0 < si <= 0x200_0000_0000,
            ;
            lemma_mul_is_commutative(ti, si);
            lemma_div_bounds(ti * ui, si, 0, ti);
        }
        div_floor((top as i128) * (unit as i128), SCALE as i128) as i64
    }
}

/// The overlay blend is continuous at a bottom value of exactly one half:
/// the formulas of both branches give back the top value unchanged there,
/// so approaching the boundary from above and from below meet.
pub proof fn lemma_overlay_continuous_at_half(top: int)
    requires
        0 <= top <= SCALE,
    ensures
        overlay_above_spec(HALF as int, top) == top,
        overlay_below_spec(HALF as int, top) == top,
        overlay_spec(HALF as int, top) == top,
{
    let s = SCALE as int;
    assert(2 * (s - HALF) == s);
    assert(2 * (HALF as int) == s);
    lemma_mul_is_commutative(top, s);
    lemma_div_multiples_vanish(top, s);
}

/// What compressing the crater sample's deviation from the neutral mid
/// level by `depth` is: `(top - 1/2) / depth + 1/2` in fixed point.
pub open spec fn deepen_spec(top: int, depth: int) -> int {
    (top - HALF) * (SCALE as int) / depth + HALF
}

/// Compress a crater sample's deviation from the neutral mid level by the
/// depth scale: larger scales flatten the crater's effect, a scale of one
/// leaves it unchanged up to rounding.
pub fn deepen(top: i64, depth: i64) -> (r: i64)
    requires
        0 <= top <= SCALE,
        SCALE <= depth <= VAL_LIMIT,
    ensures
        r == deepen_spec(top as int, depth as int),
        0 <= r <= SCALE,
{
    let dev: i64 = top - HALF;
    proof {
        let dv = dev as int;
        let si = SCALE as int;
        let de = depth as int;
        let h = HALF as int;
        assert((-h) * de <= dv * si && dv * si <= h * de && h * de <= 0x4_0000_0000_0000_0000_0000
            && (-h) * de >= -0x4_0000_0000_0000_0000_0000) by (nonlinear_arith)
            requires
                -h <= dv <= h,
                0 < si <= de,
                de <= 0x200_0000_0000,
                0 < h <= 0x200_0000_0000,
        ;
        lemma_div_bounds(dv * si, de, -h, h);
    }
    let q: i64 = div_floor((dev as i128) * (SCALE as i128), depth as i128) as i64;
    q + HALF
}

} // verus!
