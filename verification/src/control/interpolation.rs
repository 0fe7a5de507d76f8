//! Between two breakpoints the curve stays between their speeds, up to
//! rounding.

use super::curve::{between, evaluated, rising, segment};
use crate::flt::facts::{
    law_rounding_error, law_rounding_is_monotone, law_values_round_to_themselves,
    law_whole_is_finite, lemma_one, lemma_signed,
};
use crate::flt::lemmas::{
    lemma_nearest_of_units, lemma_nearest_scaled, lemma_units_at_least, lemma_units_decoded,
    lemma_units_increasing,
};
use crate::flt::model::{nearest, one, units, INFINITY_BITS};
use crate::flt::{whole, Flt, EPSILON_BITS, ONE_BITS};
use vstd::arithmetic::power2::{lemma2_to64, lemma_pow2_adds, lemma_pow2_pos, pow2};
use vstd::prelude::*;

verus! {

/// The smaller of the speeds of two breakpoints, in units.
pub open spec fn lower(lo: (Flt, u32), hi: (Flt, u32)) -> int {
    let (a, b) = (whole(lo.1 as nat).value(), whole(hi.1 as nat).value());
    if a < b {
        a
    } else {
        b
    }
}

/// The larger of the speeds of two breakpoints, in units.
pub open spec fn upper(lo: (Flt, u32), hi: (Flt, u32)) -> int {
    let (a, b) = (whole(lo.1 as nat).value(), whole(hi.1 as nat).value());
    if a < b {
        b
    } else {
        a
    }
}

/// A value lies between the speeds of two breakpoints, but for one part in 2^21.
pub open spec fn nearly_between(r: Flt, lo: (Flt, u32), hi: (Flt, u32)) -> bool {
    &&& r.finite()
    &&& !r.negative()
    &&& 0x20_0000 * r.value() >= 0x1F_FFFF * lower(lo, hi)
    &&& 0x20_0000 * r.value() <= 0x20_0001 * upper(lo, hi)
}

/// The error that each operation adds, put together. All numbers are in units;
/// `o` is one, `t` the place between the breakpoints, `u` what is left of one,
/// `a` and `b` are the speeds, `p` and `q` their shares, `v` is their sum.
proof fn lemma_errors_above(o: int, t: int, u: int, a: int, b: int, p: int, q: int, v: int, h: int)
    requires
        o >= 0x0080_0000,
        0 <= t,
        0 <= u,
        0 <= a <= h,
        0 <= b <= h,
        o <= h,
        0x0100_0000 * (u - (o - t)) <= o,
        0x0100_0000 * (p * o - u * a) <= u * a + 0x0080_0000 * o,
        0x0100_0000 * (q * o - t * b) <= t * b + 0x0080_0000 * o,
        0x0100_0000 * (v - (p + q)) <= p + q + 0x0080_0000,
    ensures
        0x20_0000 * v <= 0x20_0001 * h,
{
    assert(u * a <= u * h) by (nonlinear_arith)
        requires
            0 <= u,
            a <= h,
    ;
    assert(t * b <= t * h) by (nonlinear_arith)
        requires
            0 <= t,
            b <= h,
    ;
    assert(p * o + q * o == (p + q) * o) by (nonlinear_arith);
    assert(u * h + t * h == (u + t) * h) by (nonlinear_arith);
    assert(0x0100_0000 * ((u + t) * h) <= 0x0100_0001 * (o * h)) by (nonlinear_arith)
        requires
            0x0100_0000 * (u + t) <= 0x0100_0001 * o,
            0 <= h,
    ;
    let s = p + q;
    assert(0x1_0000_0000_0000 * (s * o) <= 0x1_0000_0200_0001 * (o * h) + 0x1_0000_0000_0000 * o);
    assert(0x1_0000_0000_0000 * s <= 0x1_0000_0200_0001 * h + 0x1_0000_0000_0000)
        by (nonlinear_arith)
        requires
            o > 0,
            0x1_0000_0000_0000 * (s * o) <= 0x1_0000_0200_0001 * (o * h) + 0x1_0000_0000_0000 * o,
    ;
}

/// The same, from below.
proof fn lemma_errors_below(o: int, t: int, u: int, a: int, b: int, p: int, q: int, v: int, l: int)
    requires
        o >= 0x0080_0000,
        0 <= t,
        0 <= u,
        o <= l,
        l <= a,
        l <= b,
        0x0100_0000 * ((o - t) - u) <= o,
        0x0100_0000 * (u * a - p * o) <= u * a + 0x0080_0000 * o,
        0x0100_0000 * (t * b - q * o) <= t * b + 0x0080_0000 * o,
        0x0100_0000 * ((p + q) - v) <= p + q + 0x0080_0000,
    ensures
        0x20_0000 * v >= 0x1F_FFFF * l,
{
    assert(u * a >= u * l) by (nonlinear_arith)
        requires
            0 <= u,
            a >= l,
    ;
    assert(t * b >= t * l) by (nonlinear_arith)
        requires
            0 <= t,
            b >= l,
    ;
    assert(p * o + q * o == (p + q) * o) by (nonlinear_arith);
    assert(u * l + t * l == (u + t) * l) by (nonlinear_arith);
    assert(0x0100_0000 * ((u + t) * l) >= 0x00FF_FFFF * (o * l)) by (nonlinear_arith)
        requires
            0x0100_0000 * (u + t) >= 0x00FF_FFFF * o,
            0 <= l,
    ;
    let s = p + q;
    assert(0x1_0000_0000_0000 * (s * o) >= 0xFFFF_FE00_0001 * (o * l) - 0x1_0000_0000_0000 * o);
    assert(0x1_0000_0000_0000 * s >= 0xFFFF_FE00_0001 * l - 0x1_0000_0000_0000)
        by (nonlinear_arith)
        requires
            o > 0,
            0x1_0000_0000_0000 * (s * o) >= 0xFFFF_FE00_0001 * (o * l) - 0x1_0000_0000_0000 * o,
    ;
}

/// A speed is no number of units, or at least one and at most 2^32.
pub proof fn lemma_speed(n: u32)
    ensures
        whole(n as nat).finite(),
        !whole(n as nat).negative(),
        n == 0 ==> whole(n as nat).value() == 0,
        n > 0 ==> whole(n as nat).value() >= one(),
        whole(n as nat).value() <= pow2(181),
        whole(n as nat).magnitude() <= 0x4F80_0000,
        one() >= 0x0080_0000,
{
    law_whole_is_finite(n as nat);
    lemma_one();
    lemma2_to64();
    lemma_pow2_adds(23, 126);
    lemma_pow2_pos(126);
    assert(one() >= 0x0080_0000) by (nonlinear_arith)
        requires
            one() == 0x0080_0000 * pow2(126),
            pow2(126) >= 1,
    ;
    let m: nat = 0x4F80_0000;
    lemma_units_decoded(m, 0x0080_0000, 158);
    lemma_pow2_adds(23, 158);
    lemma_pow2_adds(32, 149);
    assert(n as nat * one() <= 0x1_0000_0000 * one()) by (nonlinear_arith)
        requires
            n <= 0x1_0000_0000,
    ;
    lemma_nearest_of_units(m);
    law_rounding_is_monotone(n as nat * one(), units(m), 1);
    let k = nearest(n as nat * one(), 1);
    if k < m {
        lemma_units_increasing(k, m);
    }
    if n > 0 {
        assert(one() <= n as nat * one()) by (nonlinear_arith)
            requires
                n >= 1,
        ;
        law_rounding_is_monotone(one(), n as nat * one(), 1);
        law_values_round_to_themselves(Flt { bits: ONE_BITS });
        lemma_nearest_of_units(ONE_BITS as nat);
        if (ONE_BITS as nat) < k {
            lemma_units_increasing(ONE_BITS as nat, k);
        }
    } else {
        assert(units(0) == 0);
    }
}

/// A product of a share of at most one and a speed: it is rounded, and not
/// larger than the speed.
pub proof fn lemma_share(x: Flt, a: Flt)
    requires
        x.finite(),
        !x.negative(),
        x.value() <= one(),
        a.finite(),
        !a.negative(),
    ensures
        x.times(a).finite(),
        !x.times(a).negative(),
        x.times(a).value() <= a.value(),
        x.times(a).value() == units(nearest((x.value() * a.value()) as nat, one())),
{
    lemma_pow2_pos(149);
    let (s, m) = (units(x.magnitude()), units(a.magnitude()));
    assert(s * m <= one() * m) by (nonlinear_arith)
        requires
            s <= one(),
    ;
    law_rounding_is_monotone(s * m, one() * m, one());
    lemma_nearest_scaled(one(), m, 1);
    assert(one() * 1 == one());
    lemma_nearest_of_units(a.magnitude());
    let k = nearest(s * m, one());
    assert(k <= a.magnitude());
    lemma_signed(false, k);
    if k < a.magnitude() {
        lemma_units_increasing(k, a.magnitude());
    }
}

/// The place of a temperature between two breakpoints: from 0 to 1.
pub proof fn lemma_place(x0: Flt, x1: Flt, temp: Flt)
    requires
        x0.finite(),
        x1.finite(),
        x0.less(temp),
        temp.at_most(x1),
        x1.minus(x0).finite(),
        x1.minus(x0).magnitude() > 0,
    ensures
        ({
            let t = temp.minus(x0).over(x1.minus(x0));
            t.finite() && !t.negative() && t.value() <= one()
        }),
{
    lemma_one();
    lemma_units_increasing(x1.magnitude(), INFINITY_BITS as nat);
    lemma_units_increasing(x0.magnitude(), INFINITY_BITS as nat);
    assert(temp.finite());
    let n0 = x0.negated();
    lemma_signed(!x0.negative(), x0.magnitude());
    let s = (temp.value() - x0.value()) as nat;
    let s1 = (x1.value() - x0.value()) as nat;
    assert(n0.value() == -x0.value());
    law_rounding_is_monotone(s, s1, 1);
    let (k, k1) = (nearest(s, 1), nearest(s1, 1));
    assert(x1.minus(x0).magnitude() == k1) by {
        lemma_signed(false, if k1 < INFINITY_BITS { k1 } else { INFINITY_BITS as nat });
    }
    lemma_signed(false, k);
    let num = temp.minus(x0);
    let dt = x1.minus(x0);
    assert(num.magnitude() == k && !num.negative());
    assert(!dt.negative());
    let (n, d) = (units(k), units(k1));
    if k < k1 {
        lemma_units_increasing(k, k1);
    }
    lemma_units_at_least(k1);
    assert(n * one() <= d * one()) by (nonlinear_arith)
        requires
            n <= d,
    ;
    law_rounding_is_monotone(n * one(), d * one(), d);
    lemma_nearest_scaled(d, one(), 1);
    assert(d * 1 == d);
    lemma_nearest_of_units(ONE_BITS as nat);
    let j = nearest(n * one(), d);
    assert(j <= ONE_BITS);
    lemma_signed(false, j);
    if j < ONE_BITS {
        lemma_units_increasing(j, ONE_BITS as nat);
    }
}

/// What is left of one.
pub proof fn lemma_left_of_one(t: Flt)
    requires
        t.finite(),
        !t.negative(),
        t.value() <= one(),
    ensures
        ({
            let u = (Flt { bits: ONE_BITS }).minus(t);
            &&& u.finite()
            &&& !u.negative()
            &&& u.value() <= one()
            &&& 0x0100_0000 * (u.value() - (one() - t.value())) <= one()
            &&& 0x0100_0000 * ((one() - t.value()) - u.value()) <= one()
        }),
{
    lemma_one();
    lemma_speed(1);
    lemma_signed(true, t.magnitude());
    let x = Flt { bits: ONE_BITS };
    let rest = (one() - t.value()) as nat;
    assert(t.negated().value() == -t.value());
    if rest == 0 {
        lemma_signed(false, 0);
    } else {
        law_rounding_error(rest, 1);
        law_rounding_is_monotone(rest, one(), 1);
        lemma_nearest_of_units(ONE_BITS as nat);
        let k = nearest(rest, 1);
        lemma_signed(false, k);
        if k < ONE_BITS {
            lemma_units_increasing(k, ONE_BITS as nat);
        }
        assert(x.minus(t) == crate::flt::signed(false, k));
    }
}

/// A sum of two shares.
pub proof fn lemma_sum(x: Flt, y: Flt)
    requires
        x.finite(),
        y.finite(),
        !x.negative(),
        !y.negative(),
        x.value() <= pow2(181),
        y.value() <= pow2(181),
    ensures
        x.plus(y).finite(),
        !x.plus(y).negative(),
        0x0100_0000 * (x.plus(y).value() - (x.value() + y.value())) <= x.value() + y.value()
            + 0x0080_0000,
        0x0100_0000 * ((x.value() + y.value()) - x.plus(y).value()) <= x.value() + y.value()
            + 0x0080_0000,
        x.value() + y.value() == 0 ==> x.plus(y).value() == 0,
{
    let s = (x.value() + y.value()) as nat;
    if s == 0 {
        lemma_signed(false, 0);
    } else {
        let m: nat = 0x5000_0000;
        lemma_units_decoded(m, 0x0080_0000, 159);
        lemma2_to64();
        lemma_pow2_adds(23, 159);
        lemma_pow2_adds(1, 181);
        lemma_nearest_of_units(m);
        law_rounding_is_monotone(s, units(m), 1);
        law_rounding_error(s, 1);
        lemma_signed(false, nearest(s, 1));
    }
}

proof fn lemma_between(lo: (Flt, u32), hi: (Flt, u32), temp: Flt)
    requires
        lo.0.finite(),
        hi.0.finite(),
        lo.0.less(temp),
        temp.at_most(hi.0),
        hi.0.minus(lo.0).finite(),
    ensures
        nearly_between(between(lo, hi, temp), lo, hi),
{
    let dt = hi.0.minus(lo.0);
    let (a, b) = (whole(lo.1 as nat), whole(hi.1 as nat));
    lemma_speed(lo.1);
    lemma_speed(hi.1);
    if !dt.absolute().less(Flt { bits: EPSILON_BITS }) {
        lemma_units_at_least(EPSILON_BITS as nat);
        assert(dt.magnitude() > 0) by {
            lemma_signed(false, dt.magnitude());
        }
        lemma_place(lo.0, hi.0, temp);
        let t = temp.minus(lo.0).over(dt);
        lemma_left_of_one(t);
        let u = (Flt { bits: ONE_BITS }).minus(t);
        lemma_share(u, a);
        lemma_share(t, b);
        let (p, q) = (u.times(a), t.times(b));
        lemma_sum(p, q);
        let v = p.plus(q);
        assert(u.value() * a.value() >= 0) by (nonlinear_arith)
            requires
                u.value() >= 0,
                a.value() >= 0,
        ;
        assert(t.value() * b.value() >= 0) by (nonlinear_arith)
            requires
                t.value() >= 0,
                b.value() >= 0,
        ;
        law_rounding_error((u.value() * a.value()) as nat, one());
        law_rounding_error((t.value() * b.value()) as nat, one());
        let (l, h) = (lower(lo, hi), upper(lo, hi));
        if h > 0 {
            lemma_errors_above(
                one() as int,
                t.value(),
                u.value(),
                a.value(),
                b.value(),
                p.value(),
                q.value(),
                v.value(),
                h,
            );
        }
        if l > 0 {
            lemma_errors_below(
                one() as int,
                t.value(),
                u.value(),
                a.value(),
                b.value(),
                p.value(),
                q.value(),
                v.value(),
                l,
            );
        }
    }
}

proof fn lemma_segment(points: Seq<(Flt, u32)>, temp: Flt, k: int, i: int)
    requires
        rising(points),
        0 < i <= k < points.len(),
        points[k - 1].0.less(temp),
        temp.at_most(points[k].0),
    ensures
        segment(points, temp, i) == k,
    decreases k - i,
{
    if i < k {
        if i < k - 1 {
            assert(points[i].0.less(points[k - 1].0));
        }
        lemma_segment(points, temp, k, i + 1);
    }
}

/// Between two neighbouring breakpoints the curve stays between their speeds,
/// up to rounding: it leaves them by no more than one part in 2^21. The
/// breakpoints must not be farther apart than a number can say.
pub proof fn law_curve_stays_between(points: Seq<(Flt, u32)>, k: int, temp: Flt)
    requires
        rising(points),
        0 < k < points.len(),
        points[k - 1].0.less(temp),
        temp.at_most(points[k].0),
        points[k].0.minus(points[k - 1].0).finite(),
    ensures
        nearly_between(evaluated(points, temp), points[k - 1], points[k]),
{
    let n = points.len() as int;
    if k > 1 {
        assert(points[0].0.less(points[k - 1].0));
    }
    if points[n - 1].0.at_most(temp) {
        if k < n - 1 {
            assert(points[k].0.less(points[n - 1].0));
        }
        lemma_speed(points[k - 1].1);
        lemma_speed(points[k].1);
    } else {
        lemma_segment(points, temp, k, 1);
        lemma_between(points[k - 1], points[k], temp);
    }
}

} // verus!
