//! The fan curve: straight lines between breakpoints.

use crate::flt::facts::{
    law_minus_itself, law_over_itself, law_times_one, law_whole_is_finite, law_zero_plus,
    law_zero_times, lemma_one, lemma_signed,
};
use crate::flt::lemmas::lemma_units_at_least;
use crate::flt::{whole, Flt, EPSILON_BITS, ONE_BITS};
use vstd::prelude::*;

verus! {

/// The point on the line from `lo` to `hi` at `temp`.
pub open spec fn between(lo: (Flt, u32), hi: (Flt, u32), temp: Flt) -> Flt {
    let dt = hi.0.minus(lo.0);
    let t = temp.minus(lo.0).over(dt);
    if dt.absolute().less(Flt { bits: EPSILON_BITS }) {
        whole(lo.1 as nat)
    } else {
        (Flt { bits: ONE_BITS }).minus(t).times(whole(lo.1 as nat)).plus(
            t.times(whole(hi.1 as nat)),
        )
    }
}

/// The first breakpoint from `i` on that is not below `temp`, or the end.
pub open spec fn segment(points: Seq<(Flt, u32)>, temp: Flt, i: int) -> int
    decreases points.len() - i,
{
    if i >= points.len() || temp.at_most(points[i].0) {
        i
    } else {
        segment(points, temp, i + 1)
    }
}

/// The speed at a temperature: constant below the first and above the last
/// breakpoint, on the line in between.
pub open spec fn evaluated(points: Seq<(Flt, u32)>, temp: Flt) -> Flt {
    let n = points.len();
    if n == 0 {
        Flt { bits: 0 }
    } else if n == 1 || temp.at_most(points[0].0) {
        whole(points[0].1 as nat)
    } else if points[n - 1].0.at_most(temp) {
        whole(points[n - 1].1 as nat)
    } else {
        let i = segment(points, temp, 1);
        if i < n {
            between(points[i - 1], points[i], temp)
        } else {
            whole(points[n - 1].1 as nat)
        }
    }
}

/// Evaluates the curve.
pub fn evaluate(breakpoints: &[(Flt, u32)], temp: Flt) -> (r: Flt)
    ensures
        r == evaluated(breakpoints@, temp),
{
    let len: usize = breakpoints.len();
    if len == 0 {
        return Flt { bits: 0 };
    }
    if len == 1 || temp.le(breakpoints[0].0) {
        return Flt::from_u32(breakpoints[0].1);
    }
    if breakpoints[len - 1].0.le(temp) {
        return Flt::from_u32(breakpoints[len - 1].1);
    }
    let mut i: usize = 1;
    while i < len
        invariant
            1 <= i <= len,
            len == breakpoints@.len(),
            len > 1,
            !temp.at_most(breakpoints@[0].0),
            !breakpoints@[len - 1].0.at_most(temp),
            segment(breakpoints@, temp, 1) == segment(breakpoints@, temp, i as int),
        decreases len - i,
    {
        if temp.le(breakpoints[i].0) {
            let (t_lo, rpm_lo) = breakpoints[i - 1];
            let (t_hi, rpm_hi) = breakpoints[i];
            let dt: Flt = t_hi.sub(t_lo);
            if dt.abs().lt(Flt { bits: EPSILON_BITS }) {
                return Flt::from_u32(rpm_lo);
            }
            let t: Flt = temp.sub(t_lo).div(dt);
            let a: Flt = Flt::from_u32(rpm_lo);
            let b: Flt = Flt::from_u32(rpm_hi);
            let one: Flt = Flt { bits: ONE_BITS };
            return one.sub(t).mul(a).add(t.mul(b));
        }
        i = i + 1;
    }
    Flt::from_u32(breakpoints[len - 1].1)
}

/// At and below the first breakpoint the speed is that of the first one.
pub proof fn law_constant_below(points: Seq<(Flt, u32)>, temp: Flt)
    requires
        points.len() > 0,
        temp.at_most(points[0].0),
    ensures
        evaluated(points, temp) == whole(points[0].1 as nat),
{
}

/// Above the first breakpoint, at and above the last one, the speed is that of
/// the last one.
pub proof fn law_constant_above(points: Seq<(Flt, u32)>, temp: Flt)
    requires
        points.len() > 0,
        !temp.at_most(points[0].0),
        points.last().0.at_most(temp),
    ensures
        evaluated(points, temp) == whole(points.last().1 as nat),
{
}

/// The temperatures of the breakpoints are finite and rise.
pub open spec fn rising(points: Seq<(Flt, u32)>) -> bool {
    &&& forall|i: int| 0 <= i < points.len() ==> (#[trigger] points[i]).0.finite()
    &&& forall|i: int, j: int|
        0 <= i < j < points.len() ==> (#[trigger] points[i]).0.less((#[trigger] points[j]).0)
}

proof fn lemma_segment_of_breakpoint(points: Seq<(Flt, u32)>, k: int, i: int)
    requires
        rising(points),
        0 <= i <= k < points.len(),
    ensures
        segment(points, points[k].0, i) == k,
    decreases k - i,
{
    if i < k {
        assert(points[i].0.less(points[k].0));
        lemma_segment_of_breakpoint(points, k, i + 1);
    }
}

/// The curve goes through its breakpoints: at the temperature of a breakpoint
/// the speed is exactly the one that was configured, if the step from the
/// breakpoint before it is a finite number of at least 2^-23.
pub proof fn law_curve_meets_its_breakpoints(points: Seq<(Flt, u32)>, k: int)
    requires
        rising(points),
        0 <= k < points.len(),
        k > 0 ==> {
            let dt = points[k].0.minus(points[k - 1].0);
            dt.finite() && (Flt { bits: EPSILON_BITS }).at_most(dt.absolute())
        },
    ensures
        evaluated(points, points[k].0) == whole(points[k].1 as nat),
{
    let temp = points[k].0;
    if k > 0 {
        assert(points[0].0.less(temp));
        if k < points.len() - 1 {
            assert(temp.less(points[points.len() - 1].0));
            lemma_segment_of_breakpoint(points, k, 1);
            let lo = points[k - 1];
            let hi = points[k];
            let dt = hi.0.minus(lo.0);
            let a = whole(lo.1 as nat);
            let b = whole(hi.1 as nat);
            lemma_units_at_least(EPSILON_BITS as nat);
            assert(dt.magnitude() > 0) by {
                lemma_signed(false, dt.magnitude());
            }
            law_over_itself(dt);
            law_whole_is_finite(lo.1 as nat);
            law_whole_is_finite(hi.1 as nat);
            lemma_one();
            law_minus_itself(Flt { bits: ONE_BITS });
            law_zero_times(a);
            law_times_one(b);
            law_zero_plus(false, b);
        }
    }
}

} // verus!
