//! Between two breakpoints the curve is the straight line through them, taken
//! over the rational numbers, up to rounding.

use super::curve::{between, evaluated, rising, segment};
use super::interpolation::{
    lemma_left_of_one, lemma_place, lemma_share, lemma_speed, lemma_sum,
};
use crate::flt::errors::{
    law_minus_error, law_over_error, law_times_error, law_whole_error, within,
};
use crate::flt::facts::{law_rounding_is_monotone, lemma_signed};
use crate::flt::lemmas::lemma_units_at_least;
use crate::flt::model::one;
use crate::flt::{whole, Flt, EPSILON_BITS, ONE_BITS};
use vstd::arithmetic::mul::{
    lemma_mul_is_associative, lemma_mul_is_commutative, lemma_mul_is_distributive_sub_other_way,
};
use vstd::arithmetic::power2::{lemma2_to64, lemma_pow2_adds, lemma_pow2_pos, pow2};
use vstd::prelude::*;

verus! {

/// The larger of two speeds, in units.
pub open spec fn higher(a: u32, b: u32) -> nat {
    (if a < b {
        b * one()
    } else {
        a * one()
    }) as nat
}

/// A value is the speed, at `temp`, of the straight line through two breakpoints,
/// but for one part in 2^19 of the higher speed. With the way `t` from the lower
/// breakpoint and the whole way `d`, the speed on the line, times `d`, is
/// `lo * (d - t) + hi * t`.
pub open spec fn on_the_line(r: Flt, lo: (Flt, u32), hi: (Flt, u32), temp: Flt) -> bool {
    let d = hi.0.value() - lo.0.value();
    let t = temp.value() - lo.0.value();
    let exact = (lo.1 * one()) * (d - t) + (hi.1 * one()) * t;
    &&& r.finite()
    &&& within(0x8_0000 * (r.value() * d), 0x8_0000 * exact, (higher(lo.1, hi.1) * d) as nat)
}

/// Two bounds of a product.
proof fn lemma_product_at_most(x: int, y: int, bx: int, by: int)
    requires
        0 <= x <= bx,
        0 <= y <= by,
    ensures
        0 <= x * y <= bx * by,
{
    assert(0 <= x * y <= bx * by) by (nonlinear_arith)
        requires
            0 <= x <= bx,
            0 <= y <= by,
    ;
}

/// A bound stays one when both sides are multiplied.
proof fn lemma_within_times(x: int, e: int, f: int)
    requires
        -e <= x <= e,
        f >= 0,
    ensures
        -(e * f) <= x * f <= e * f,
        -(f * e) <= f * x <= f * e,
{
    assert(-(e * f) <= x * f <= e * f && -(f * e) <= f * x <= f * e) by (nonlinear_arith)
        requires
            -e <= x <= e,
            f >= 0,
    ;
}

/// The place `t` (in units of `o`) of a temperature is the exact way `tt` over
/// the exact whole way `dd`, but for five parts in 2^24 of one.
proof fn lemma_place_error(o: int, tt: int, dd: int, num: int, dt: int, t: int)
    requires
        o >= 0x0100_0000,
        0 <= tt <= dd,
        0 <= num,
        0 <= dt,
        0 <= t <= o,
        -tt <= 0x0100_0000 * (num - tt) <= tt,
        -dd <= 0x0100_0000 * (dt - dd) <= dd,
        -(num * o + 0x0080_0000 * dt) <= 0x0100_0000 * (t * dt - num * o) <= num * o + 0x0080_0000
            * dt,
    ensures
        -(5 * (o * dd)) <= 0x0100_0000 * (t * dd - tt * o) <= 5 * (o * dd),
{
    let k: int = 0x0100_0000;
    assert(num <= 2 * tt && dt <= 2 * dd);
    let x1 = t * (dd - dt);
    let x2 = (num - tt) * o;
    assert(t * dd - tt * o == x1 + (t * dt - num * o) + x2) by (nonlinear_arith)
        requires
            x1 == t * (dd - dt),
            x2 == (num - tt) * o,
    ;
    lemma_within_times(k * (dt - dd), dd, t);
    assert(t * (k * (dt - dd)) == -(k * x1)) by (nonlinear_arith)
        requires
            x1 == t * (dd - dt),
    ;
    lemma_product_at_most(t, dd, o, dd);
    lemma_within_times(k * (num - tt), tt, o);
    assert((k * (num - tt)) * o == k * x2) by (nonlinear_arith)
        requires
            x2 == (num - tt) * o,
    ;
    lemma_product_at_most(tt, o, dd, o);
    lemma_product_at_most(num, o, 2 * dd, o);
    assert((2 * dd) * o == 2 * (dd * o)) by (nonlinear_arith);
    assert(dd * o == o * dd) by (nonlinear_arith);
    lemma_product_at_most(0x0100_0000, dd, o, dd);
}

/// The errors of all operations together. `aa` and `bb` are the exact speeds, `a`
/// and `b` the rounded ones, `u` is what the place leaves of one, `p` and `q` are
/// the shares, and `v` is their sum.
proof fn lemma_line_error(
    o: int,
    tt: int,
    dd: int,
    t: int,
    u: int,
    aa: int,
    bb: int,
    a: int,
    b: int,
    p: int,
    q: int,
    v: int,
    h: int,
)
    requires
        o >= 0x0100_0000,
        h >= o,
        0 <= dd,
        0 <= t <= o,
        0 <= u <= o,
        0 <= aa <= h,
        0 <= bb <= h,
        0 <= a,
        0 <= b,
        0 <= p <= a,
        0 <= q <= b,
        -(5 * (o * dd)) <= 0x0100_0000 * (t * dd - tt * o) <= 5 * (o * dd),
        -o <= 0x0100_0000 * (u - (o - t)) <= o,
        -aa <= 0x0100_0000 * (a - aa) <= aa,
        -bb <= 0x0100_0000 * (b - bb) <= bb,
        -(u * a + 0x0080_0000 * o) <= 0x0100_0000 * (p * o - u * a) <= u * a + 0x0080_0000 * o,
        -(t * b + 0x0080_0000 * o) <= 0x0100_0000 * (q * o - t * b) <= t * b + 0x0080_0000 * o,
        -(p + q + 0x0080_0000) <= 0x0100_0000 * (v - (p + q)) <= p + q + 0x0080_0000,
    ensures
        -(h * dd) <= 0x8_0000 * (v * dd - (aa * (dd - tt) + bb * tt)) <= h * dd,
{
    let k: int = 0x0100_0000;
    let exact = aa * (dd - tt) + bb * tt;
    let g = o * h;
    // The place against the exact one, weighted by the difference of the speeds.
    let z = t * dd - tt * o;
    let m = (o - t) * aa + t * bb;
    let (f, g1, g2) = (o * dd, t * dd, tt * o);
    assert(((o - t) * aa) * dd == f * aa - g1 * aa) by (nonlinear_arith)
        requires
            f == o * dd,
            g1 == t * dd,
    ;
    assert((t * bb) * dd == g1 * bb) by (nonlinear_arith)
        requires
            g1 == t * dd,
    ;
    assert(m * dd == ((o - t) * aa) * dd + (t * bb) * dd) by (nonlinear_arith)
        requires
            m == (o - t) * aa + t * bb,
    ;
    assert((aa * (dd - tt)) * o == f * aa - g2 * aa) by (nonlinear_arith)
        requires
            f == o * dd,
            g2 == tt * o,
    ;
    assert((bb * tt) * o == g2 * bb) by (nonlinear_arith)
        requires
            g2 == tt * o,
    ;
    assert(exact * o == (aa * (dd - tt)) * o + (bb * tt) * o) by (nonlinear_arith)
        requires
            exact == aa * (dd - tt) + bb * tt,
    ;
    assert((bb - aa) * z == g1 * bb - g1 * aa - g2 * bb + g2 * aa) by (nonlinear_arith)
        requires
            z == g1 - g2,
    ;
    assert(m * dd - exact * o == (bb - aa) * z);
    let w = o * dd;
    assert(w >= 0) by (nonlinear_arith)
        requires
            w == o * dd,
            o >= 0,
            dd >= 0,
    ;
    assert(-((5 * w) * h) <= (bb - aa) * (k * z) <= (5 * w) * h) by (nonlinear_arith)
        requires
            -(5 * w) <= k * z <= 5 * w,
            w >= 0,
            -h <= bb - aa <= h,
    ;
    assert((bb - aa) * (k * z) == k * ((bb - aa) * z)) by (nonlinear_arith);
    assert((5 * w) * h == 5 * (g * dd)) by (nonlinear_arith)
        requires
            w == o * dd,
            g == o * h,
    ;
    // The rounded shares of the rounded speeds.
    let s = u * a + t * b;
    let x1 = (o - t - u) * aa;
    let x2 = u * (aa - a);
    let x3 = t * (bb - b);
    assert(m - s == x1 + x2 + x3) by (nonlinear_arith)
        requires
            m == (o - t) * aa + t * bb,
            s == u * a + t * b,
            x1 == (o - t - u) * aa,
            x2 == u * (aa - a),
            x3 == t * (bb - b),
    ;
    lemma_within_times(k * (u - (o - t)), o, aa);
    assert((k * (u - (o - t))) * aa == -(k * x1)) by (nonlinear_arith)
        requires
            x1 == (o - t - u) * aa,
    ;
    lemma_product_at_most(o, aa, o, h);
    lemma_within_times(k * (a - aa), aa, u);
    assert(u * (k * (a - aa)) == -(k * x2)) by (nonlinear_arith)
        requires
            x2 == u * (aa - a),
    ;
    lemma_product_at_most(u, aa, o, h);
    lemma_within_times(k * (b - bb), bb, t);
    assert(t * (k * (b - bb)) == -(k * x3)) by (nonlinear_arith)
        requires
            x3 == t * (bb - b),
    ;
    lemma_product_at_most(t, bb, o, h);
    assert(-(3 * g) <= k * (m - s) <= 3 * g);
    // The products and the sum.
    assert(a <= 2 * h && b <= 2 * h);
    lemma_product_at_most(u, a, o, 2 * h);
    lemma_product_at_most(t, b, o, 2 * h);
    assert(o * (2 * h) == 2 * g) by (nonlinear_arith)
        requires
            g == o * h,
    ;
    lemma_product_at_most(o, 0x0100_0000, o, h);
    assert(p * o + q * o == (p + q) * o) by (nonlinear_arith);
    assert(-(5 * g) <= k * ((p + q) * o - s) <= 5 * g);
    assert(-(5 * h) <= k * (v - (p + q)) <= 5 * h);
    lemma_within_times(k * (v - (p + q)), 5 * h, o);
    assert((k * (v - (p + q))) * o == k * (v * o) - k * ((p + q) * o)) by (nonlinear_arith);
    assert((5 * h) * o == 5 * g) by (nonlinear_arith)
        requires
            g == o * h,
    ;
    let y = v * o - m;
    assert(-(13 * g) <= k * y <= 13 * g);
    lemma_within_times(k * y, 13 * g, dd);
    assert((v * o) * dd == (v * dd) * o) by {
        lemma_mul_is_associative(v, o, dd);
        lemma_mul_is_associative(v, dd, o);
        lemma_mul_is_commutative(o, dd);
    }
    lemma_mul_is_distributive_sub_other_way(dd, v * o, m);
    lemma_mul_is_associative(k, y, dd);
    assert((k * y) * dd == k * ((v * dd) * o) - k * (m * dd));
    assert((13 * g) * dd == 13 * (g * dd)) by (nonlinear_arith);
    let r = v * dd - exact;
    assert(k * (r * o) == k * ((v * dd) * o) - k * (exact * o)) by (nonlinear_arith)
        requires
            r == v * dd - exact,
    ;
    assert(-(18 * (g * dd)) <= k * (r * o) <= 18 * (g * dd));
    assert(g * dd == (h * dd) * o) by (nonlinear_arith)
        requires
            g == o * h,
    ;
    let c = h * dd;
    assert(c >= 0) by (nonlinear_arith)
        requires
            c == h * dd,
            h >= 0,
            dd >= 0,
    ;
    assert(-(18 * c) <= k * r <= 18 * c) by (nonlinear_arith)
        requires
            o > 0,
            -(18 * (c * o)) <= k * (r * o) <= 18 * (c * o),
    ;
}

/// A step of at least 2^-23 is no zero.
proof fn lemma_step(lo: Flt, hi: Flt)
    requires
        lo.finite(),
        hi.finite(),
        lo.value() <= hi.value(),
        hi.minus(lo).finite(),
        (Flt { bits: EPSILON_BITS }).at_most(hi.minus(lo).absolute()),
    ensures
        hi.minus(lo).magnitude() > 0,
        hi.minus(lo).value() > 0,
{
    let dt = hi.minus(lo);
    law_minus_error(hi, lo);
    lemma_units_at_least(EPSILON_BITS as nat);
    lemma_signed(false, dt.magnitude());
    assert(dt.magnitude() > 0);
    lemma_units_at_least(dt.magnitude());
}

proof fn lemma_between_on_the_line(lo: (Flt, u32), hi: (Flt, u32), temp: Flt)
    requires
        lo.0.finite(),
        hi.0.finite(),
        lo.0.less(temp),
        temp.at_most(hi.0),
        hi.0.minus(lo.0).finite(),
        (Flt { bits: EPSILON_BITS }).at_most(hi.0.minus(lo.0).absolute()),
    ensures
        on_the_line(between(lo, hi, temp), lo, hi, temp),
{
    let dt = hi.0.minus(lo.0);
    let num = temp.minus(lo.0);
    lemma_step(lo.0, hi.0);
    crate::flt::lemmas::lemma_units_increasing(
        lo.0.magnitude(),
        crate::flt::model::INFINITY_BITS as nat,
    );
    crate::flt::lemmas::lemma_units_increasing(
        hi.0.magnitude(),
        crate::flt::model::INFINITY_BITS as nat,
    );
    assert(temp.finite());
    lemma_place(lo.0, hi.0, temp);
    let t = num.over(dt);
    lemma_left_of_one(t);
    let u = (Flt { bits: ONE_BITS }).minus(t);
    let (a, b) = (whole(lo.1 as nat), whole(hi.1 as nat));
    lemma_speed(lo.1);
    lemma_speed(hi.1);
    law_whole_error(lo.1 as nat);
    law_whole_error(hi.1 as nat);
    lemma_share(u, a);
    lemma_share(t, b);
    let (p, q) = (u.times(a), t.times(b));
    lemma_sum(p, q);
    law_times_error(u, a);
    law_times_error(t, b);
    law_minus_error(temp, lo.0);
    law_minus_error(hi.0, lo.0);
    lemma_num_is_finite(lo.0, hi.0, temp);
    law_over_error(num, dt);
    let v = p.plus(q);
    let dd = hi.0.value() - lo.0.value();
    let tt = temp.value() - lo.0.value();
    let o = one() as int;
    lemma2_to64();
    lemma_pow2_adds(24, 125);
    lemma_pow2_pos(125);
    assert(o >= 0x0100_0000) by (nonlinear_arith)
        requires
            o == 0x0100_0000 * pow2(125),
            pow2(125) >= 1,
    ;
    lemma_place_error(o, tt, dd, num.value(), dt.value(), t.value());
    let h = higher(lo.1, hi.1) as int;
    let (aa, bb) = (lo.1 * one(), hi.1 * one());
    assert(aa <= h && bb <= h) by (nonlinear_arith)
        requires
            aa == lo.1 * one(),
            bb == hi.1 * one(),
            h == (if lo.1 < hi.1 {
                hi.1 * one()
            } else {
                lo.1 * one()
            }),
    ;
    assert(u.value() * a.value() >= 0) by (nonlinear_arith)
        requires
            u.value() >= 0,
            a.value() >= 0,
    ;
    assert(t.value() * b.value() >= 0) by (nonlinear_arith)
        requires
            t.value() >= 0,
            b.value() >= 0,
    ;
    if lo.1 == 0 && hi.1 == 0 {
        assert(0 * one() == 0);
        assert(v.value() == 0);
        assert(0 * dd == 0 && 0 * (dd - tt) == 0 && 0 * tt == 0);
    } else {
        assert(h >= o) by (nonlinear_arith)
            requires
                h == (if lo.1 < hi.1 {
                    hi.1 * one()
                } else {
                    lo.1 * one()
                }),
                o == one(),
                lo.1 > 0 || hi.1 > 0,
        ;
        lemma_line_error(
            o,
            tt,
            dd,
            t.value(),
            u.value(),
            aa,
            bb,
            a.value(),
            b.value(),
            p.value(),
            q.value(),
            v.value(),
            h,
        );
    }
    assert(between(lo, hi, temp) == v);
}

/// The way to a temperature is finite where the whole way is.
proof fn lemma_num_is_finite(lo: Flt, hi: Flt, temp: Flt)
    requires
        lo.finite(),
        hi.finite(),
        temp.finite(),
        lo.value() < temp.value() <= hi.value(),
        hi.minus(lo).finite(),
    ensures
        temp.minus(lo).finite(),
{
    let s = (temp.value() - lo.value()) as nat;
    let s1 = (hi.value() - lo.value()) as nat;
    lemma_signed(!lo.negative(), lo.magnitude());
    law_rounding_is_monotone(s, s1, 1);
    lemma_signed(false, crate::flt::model::round_magnitude(s, 1));
    lemma_signed(false, crate::flt::model::round_magnitude(s1, 1));
}

proof fn lemma_first_not_below(points: Seq<(Flt, u32)>, temp: Flt, k: int, i: int)
    requires
        0 < i <= k < points.len(),
        forall|j: int| 0 <= j < k ==> (#[trigger] points[j]).0.less(temp),
        temp.at_most(points[k].0),
    ensures
        segment(points, temp, i) == k,
    decreases k - i,
{
    if i < k {
        assert(points[i].0.less(temp));
        lemma_first_not_below(points, temp, k, i + 1);
    }
}

/// Behind a breakpoint and up to the next one the curve is the straight line
/// through the two. The curve need not rise: what counts is the first breakpoint
/// that is not below the temperature. The step must be a finite number of at
/// least 2^-23, and the temperature below the last breakpoint, or at it if that
/// is the next one.
pub proof fn law_curve_is_the_line(points: Seq<(Flt, u32)>, k: int, temp: Flt)
    requires
        0 < k < points.len(),
        forall|j: int| 0 <= j < k ==> (#[trigger] points[j]).0.less(temp),
        temp.at_most(points[k].0),
        k == points.len() - 1 || temp.less(points.last().0),
        points[k - 1].0.finite(),
        points[k].0.finite(),
        points[k].0.minus(points[k - 1].0).finite(),
        (Flt { bits: EPSILON_BITS }).at_most(points[k].0.minus(points[k - 1].0).absolute()),
    ensures
        on_the_line(evaluated(points, temp), points[k - 1], points[k], temp),
{
    let n = points.len() as int;
    assert(points[0].0.less(temp));
    assert(points[k - 1].0.less(temp));
    if points[n - 1].0.at_most(temp) {
        let (lo, hi) = (points[k - 1], points[k]);
        law_whole_error(hi.1 as nat);
        let dd = hi.0.value() - lo.0.value();
        let v = whole(hi.1 as nat).value();
        let bb = hi.1 * one();
        let h = higher(lo.1, hi.1) as int;
        assert(bb <= h) by (nonlinear_arith)
            requires
                bb == hi.1 * one(),
                h == (if lo.1 < hi.1 {
                    hi.1 * one()
                } else {
                    lo.1 * one()
                }),
        ;
        assert(temp.value() - lo.0.value() == dd);
        assert((lo.1 * one()) * (dd - dd) == 0) by (nonlinear_arith);
        lemma_within_times(0x0100_0000 * (v - bb), bb, dd);
        assert((0x0100_0000 * (v - bb)) * dd == 0x0100_0000 * (v * dd) - 0x0100_0000 * (bb * dd))
            by (nonlinear_arith);
        assert(bb >= 0) by (nonlinear_arith)
            requires
                bb == hi.1 * one(),
        ;
        lemma_product_at_most(bb, dd, h, dd);
    } else {
        lemma_first_not_below(points, temp, k, 1);
        lemma_between_on_the_line(points[k - 1], points[k], temp);
    }
}

/// On a rising curve that is so between any two neighbouring breakpoints.
pub proof fn law_rising_curve_is_the_line(points: Seq<(Flt, u32)>, k: int, temp: Flt)
    requires
        rising(points),
        0 < k < points.len(),
        points[k - 1].0.less(temp),
        temp.at_most(points[k].0),
        points[k].0.minus(points[k - 1].0).finite(),
        (Flt { bits: EPSILON_BITS }).at_most(points[k].0.minus(points[k - 1].0).absolute()),
    ensures
        on_the_line(evaluated(points, temp), points[k - 1], points[k], temp),
{
    let n = points.len() as int;
    assert forall|j: int| 0 <= j < k implies (#[trigger] points[j]).0.less(temp) by {
        if j < k - 1 {
            assert(points[j].0.less(points[k - 1].0));
        }
    }
    if k < n - 1 {
        assert(points[k].0.less(points[n - 1].0));
    }
    law_curve_is_the_line(points, k, temp);
}

/// Between breakpoints that are closer than 2^-23 the speed is that of the lower
/// one, up to the last breakpoint.
pub proof fn law_narrow_steps_keep_the_speed(points: Seq<(Flt, u32)>, k: int, temp: Flt)
    requires
        0 < k < points.len(),
        forall|j: int| 0 <= j < k ==> (#[trigger] points[j]).0.less(temp),
        temp.at_most(points[k].0),
        temp.less(points.last().0),
        points[k].0.minus(points[k - 1].0).absolute().less(Flt { bits: EPSILON_BITS }),
    ensures
        within(
            0x0100_0000 * evaluated(points, temp).value(),
            0x0100_0000 * (points[k - 1].1 * one()),
            (points[k - 1].1 * one()) as nat,
        ),
{
    assert(points[0].0.less(temp));
    lemma_first_not_below(points, temp, k, 1);
    law_whole_error(points[k - 1].1 as nat);
}

/// Outside its breakpoints the curve has the speed of the nearest one: a
/// temperature at or below the first has that of the first, one above it that is
/// at or above the last, or is no number, has that of the last.
pub proof fn law_curve_ends_are_flat(points: Seq<(Flt, u32)>, temp: Flt)
    requires
        points.len() > 0,
    ensures
        ({
            let r = evaluated(points, temp).value();
            let (first, last) = (points[0].1 * one(), points.last().1 * one());
            &&& temp.at_most(points[0].0) ==> within(
                0x0100_0000 * r,
                0x0100_0000 * first,
                first as nat,
            )
            &&& points[0].0.less(temp) && points.last().0.at_most(temp) ==> within(
                0x0100_0000 * r,
                0x0100_0000 * last,
                last as nat,
            )
            &&& temp.nan() ==> within(0x0100_0000 * r, 0x0100_0000 * last, last as nat)
        }),
{
    law_whole_error(points[0].1 as nat);
    law_whole_error(points.last().1 as nat);
    if temp.nan() && points.len() > 1 {
        lemma_nan_has_no_segment(points, temp, 1);
    }
}

proof fn lemma_nan_has_no_segment(points: Seq<(Flt, u32)>, temp: Flt, i: int)
    requires
        temp.nan(),
        0 <= i <= points.len(),
    ensures
        segment(points, temp, i) == points.len(),
    decreases points.len() - i,
{
    if i < points.len() {
        lemma_nan_has_no_segment(points, temp, i + 1);
    }
}

} // verus!
