//! What the plot of a curve shows, by values.

use super::curve_cmd::{picture_of, step, top_speed, HEADROOM_BITS, HUNDRED_BITS, MARGIN_BITS};
use crate::config::schema::Breakpoint;
use crate::control::curve::evaluated;
use crate::flt::errors::{
    law_minus_error, law_over_error, law_plus_error, law_times_error, law_whole_error,
    lemma_size_bounds, lemma_size_of_product, safe_size, within,
};
use crate::flt::lemmas::lemma_units_decoded;
use crate::flt::model::one;
use crate::flt::{size, whole, Flt};
use vstd::arithmetic::power2::{lemma2_to64, lemma_pow2_adds, lemma_pow2_pos, pow2};
use vstd::prelude::*;

verus! {

/// The top speed of a curve is one of its speeds, and none is higher.
pub proof fn law_top_speed_is_the_highest(points: Seq<Breakpoint>)
    ensures
        forall|i: int| 0 <= i < points.len() ==> (#[trigger] points[i]).1 <= top_speed(points),
        points.len() > 0 ==> exists|i: int|
            0 <= i < points.len() && (#[trigger] points[i]).1 == top_speed(points),
    decreases points.len(),
{
    if points.len() > 0 {
        let rest = points.drop_last();
        let n = points.len() - 1;
        law_top_speed_is_the_highest(rest);
        assert forall|i: int| 0 <= i < points.len() implies (#[trigger] points[i]).1 <= top_speed(
            points,
        ) by {
            if i < n {
                assert(rest[i] == points[i]);
            }
        }
        if points[n].1 == top_speed(points) {
            assert(points[n].1 == top_speed(points));
        } else if rest.len() > 0 {
            let i = choose|i: int|
                0 <= i < rest.len() && (#[trigger] rest[i]).1 == top_speed(rest);
            assert(points[i].1 == top_speed(points));
        } else {
            assert(points[n].1 == 0);
        }
    }
}

/// A plot shows the speed of the curve at each of its 101 temperatures, and every
/// breakpoint where it stands.
pub proof fn law_plot_shows_the_curve(points: Seq<Breakpoint>)
    ensures
        picture_of(points).line.len() == 101,
        forall|i: int|
            0 <= i < 101 ==> (#[trigger] picture_of(points).line[i]).1 == evaluated(
                points,
                picture_of(points).line[i].0,
            ),
        picture_of(points).knots.len() == points.len(),
        forall|i: int|
            0 <= i < points.len() ==> (#[trigger] picture_of(points).knots[i]).0 == points[i].0
                && within(
                0x0100_0000 * picture_of(points).knots[i].1.value(),
                0x0100_0000 * (points[i].1 * one()),
                (points[i].1 * one()) as nat,
            ),
{
    assert forall|i: int| 0 <= i < points.len() implies (#[trigger] picture_of(
        points,
    ).knots[i]).0 == points[i].0 && within(
        0x0100_0000 * picture_of(points).knots[i].1.value(),
        0x0100_0000 * (points[i].1 * one()),
        (points[i].1 * one()) as nat,
    ) by {
        law_whole_error(points[i].1 as nat);
    }
}

proof fn lemma_constants()
    ensures
        (Flt { bits: MARGIN_BITS }).value() == 5 * one(),
        (Flt { bits: HUNDRED_BITS }).value() == 100 * one(),
        (Flt { bits: HEADROOM_BITS }).value() == 200 * one(),
{
    lemma2_to64();
    lemma_units_decoded(MARGIN_BITS as nat, 0x00A0_0000, 128);
    lemma_pow2_adds(21, 128);
    assert(0x00A0_0000 * pow2(128) == 5 * (0x20_0000 * pow2(128)));
    lemma_units_decoded(HUNDRED_BITS as nat, 0x00C8_0000, 132);
    lemma_pow2_adds(17, 132);
    assert(0x00C8_0000 * pow2(132) == 100 * (0x2_0000 * pow2(132)));
    lemma_units_decoded(HEADROOM_BITS as nat, 0x00C8_0000, 133);
    lemma_pow2_adds(16, 133);
    assert(0x00C8_0000 * pow2(133) == 200 * (0x1_0000 * pow2(133)));
}

/// A plot reaches from 5 degrees below the first breakpoint to 5 degrees above the
/// last, and to 200 revolutions above the top speed, each up to rounding.
pub proof fn law_plot_edges(points: Seq<Breakpoint>)
    requires
        points.len() > 0,
        points[0].0.finite(),
        points.last().0.finite(),
        size(points[0].0.value()) <= pow2(270),
        size(points.last().0.value()) <= pow2(270),
    ensures
        ({
            let p = picture_of(points);
            let (left, right) = (
                points[0].0.value() - 5 * one(),
                points.last().0.value() + 5 * one(),
            );
            let top = (top_speed(points) + 200) * one();
            &&& within(0x0100_0000 * p.t_min.value(), 0x0100_0000 * left, size(left))
            &&& within(0x0100_0000 * p.t_max.value(), 0x0100_0000 * right, size(right))
            &&& within(0x40_0000 * p.rpm_top.value(), 0x40_0000 * top, top as nat)
        }),
{
    lemma_constants();
    lemma2_to64();
    lemma_pow2_adds(6, 270);
    lemma_pow2_adds(32, 149);
    lemma_pow2_adds(181, 89);
    lemma_pow2_pos(89);
    lemma_pow2_pos(149);
    assert(pow2(181) <= pow2(270)) by (nonlinear_arith)
        requires
            pow2(270) == pow2(181) * pow2(89),
            pow2(89) >= 1,
    ;
    let margin = Flt { bits: MARGIN_BITS };
    law_minus_error(points[0].0, margin);
    law_plus_error(points.last().0, margin);
    let n = top_speed(points) as nat;
    law_whole_error(n);
    assert(n * one() <= 0x1_0000_0000 * one()) by (nonlinear_arith)
        requires
            n <= 0x1_0000_0000,
    ;
    law_plus_error(whole(n), Flt { bits: HEADROOM_BITS });
    assert((n + 200) * one() == n * one() + 200 * one()) by (nonlinear_arith);
}

/// The errors of a step, put together. `w` is the exact range, `v` the rounded one,
/// `m` its product with `i`, `q` a hundredth of that, `l` the left edge, `r` the sum.
proof fn lemma_step_error(o: int, i: int, l: int, w: int, v: int, m: int, q: int, r: int)
    requires
        o > 0,
        0 <= i <= 100,
        within(0x0100_0000 * v, 0x0100_0000 * w, size(w)),
        within(
            0x0100_0000 * (m * o),
            0x0100_0000 * (v * (i * o)),
            (size(v * (i * o)) + 0x0080_0000 * o) as nat,
        ),
        within(
            0x0100_0000 * (q * (100 * o)),
            0x0100_0000 * (m * o),
            (size(m) * o + 0x0080_0000 * (100 * o)) as nat,
        ),
        within(0x0100_0000 * r, 0x0100_0000 * (l + q), size(l + q)),
    ensures
        within(
            0x2000 * (100 * r),
            0x2000 * (100 * l + i * w),
            size(l) + size(w) + 0x10_0000,
        ),
{
    let k: int = 0x0100_0000;
    let x = v * i;
    assert(v * (i * o) == x * o) by (nonlinear_arith)
        requires
            x == v * i,
    ;
    lemma_size_of_product(x, o);
    let mx = size(x) as int;
    let e = k * m - k * x;
    assert(-(mx + 0x0080_0000) <= e <= mx + 0x0080_0000) by (nonlinear_arith)
        requires
            o > 0,
            e == k * m - k * x,
            k * (m * o) - k * (x * o) <= mx * o + 0x0080_0000 * o,
            k * (x * o) - k * (m * o) <= mx * o + 0x0080_0000 * o,
    ;
    let mm = size(m) as int;
    assert(q * (100 * o) == (100 * q) * o) by (nonlinear_arith);
    let f = k * (100 * q) - k * m;
    assert(-(mm + 0x3200_0000) <= f <= mm + 0x3200_0000) by (nonlinear_arith)
        requires
            o > 0,
            f == k * (100 * q) - k * m,
            k * ((100 * q) * o) - k * (m * o) <= mm * o + 0x0080_0000 * (100 * o),
            k * (m * o) - k * ((100 * q) * o) <= mm * o + 0x0080_0000 * (100 * o),
    ;
    let mw = size(w) as int;
    lemma_size_bounds(v, i, (2 * mw) as nat, 100);
    lemma_size_bounds(k * v - k * w, i, mw as nat, 100);
    assert((k * v - k * w) * i == k * x - k * (i * w)) by (nonlinear_arith)
        requires
            x == v * i,
    ;
}

/// The temperatures of a plot are a hundred equal steps from its left to its right
/// edge, up to rounding.
pub proof fn law_plot_steps_are_even(left: Flt, right: Flt, i: nat)
    requires
        left.finite(),
        right.finite(),
        size(left.value()) <= pow2(260),
        size(right.value()) <= pow2(260),
        i <= 100,
    ensures
        within(
            0x2000 * (100 * step(left, right, i).value()),
            0x2000 * (100 * left.value() + i * (right.value() - left.value())),
            size(left.value()) + size(right.value() - left.value()) + 0x10_0000,
        ),
{
    lemma_constants();
    lemma2_to64();
    lemma_pow2_adds(16, 260);
    lemma_pow2_pos(260);
    lemma_pow2_pos(149);
    let o = one() as int;
    let big = pow2(260) as int;
    law_minus_error(right, left);
    let v = right.minus(left);
    assert(v.finite() && size(v.value()) <= 4 * big);
    law_whole_error(i);
    let n = whole(i);
    law_times_error(v, n);
    assert(size(n.value()) <= 100 * o) by (nonlinear_arith)
        requires
            n.value() == i * o,
            i <= 100,
            o > 0,
    ;
    lemma_size_bounds(v.value(), n.value(), (4 * big) as nat, (100 * o) as nat);
    assert((4 * big) * (100 * o) == 400 * (big * o)) by (nonlinear_arith);
    assert(safe_size() * one() == 0x1_0000 * (big * o)) by (nonlinear_arith)
        requires
            safe_size() == 0x1_0000 * big,
            o == one(),
    ;
    assert(big * o >= 0) by (nonlinear_arith)
        requires
            big >= 0,
            o > 0,
    ;
    let m = v.times(n);
    assert(m.finite());
    let hundred = Flt { bits: HUNDRED_BITS };
    law_over_error(m, hundred);
    lemma_size_of_product(m.value(), o);
    let mm = size(m.value()) as int;
    let b = big * o;
    assert(mm <= 801 * big) by (nonlinear_arith)
        requires
            o > 0,
            big >= 1,
            b == big * o,
            0x0100_0000 * (mm * o) <= 0x0100_0000 * (400 * b) + 400 * b + 0x0080_0000 * o,
    ;
    assert(mm * o <= safe_size() * (100 * o)) by (nonlinear_arith)
        requires
            mm <= 801 * big,
            safe_size() == 0x1_0000 * big,
            o > 0,
            big >= 0,
    ;
    let q = m.over(hundred);
    assert(q.finite());
    lemma_size_of_product(q.value(), 100 * o);
    let mq = size(q.value()) as int;
    assert(size(100 * o) == 100 * o);
    assert(mq <= 802 * big) by (nonlinear_arith)
        requires
            o > 0,
            big >= 1,
            mm <= 801 * big,
            0x0100_0000 * (mq * (100 * o)) <= 0x0100_0000 * (mm * o) + mm * o + 0x0080_0000 * (100
                * o),
            mq >= 0,
            mm >= 0,
    ;
    law_plus_error(left, q);
    let r = left.plus(q);
    lemma_step_error(
        o,
        i as int,
        left.value(),
        right.value() - left.value(),
        v.value(),
        m.value(),
        q.value(),
        r.value(),
    );
}

} // verus!
