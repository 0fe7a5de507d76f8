//! Limiting how fast a fan may slow down.

use crate::flt::facts::{law_minus_is_at_most, law_times_is_not_negative};
use crate::flt::errors::{
    law_minus_error, law_times_error, lemma_size_bounds, lemma_size_of_product, safe_size, within,
};
use crate::flt::model::one;
use crate::flt::{size, Flt, ONE_BITS};
use vstd::arithmetic::power2::{lemma2_to64, lemma_pow2_adds, lemma_pow2_pos, pow2};
use vstd::prelude::*;

verus! {

/// The lowest speed that the ramp allows after `dt` seconds, of which at most
/// one counts.
pub open spec fn ramp_floor(prev: Flt, ramp: Flt, dt: Flt) -> Flt {
    prev.minus(ramp.times(dt.smaller(Flt { bits: ONE_BITS })))
}

/// A speed may rise at once, and fall no faster than the ramp.
pub open spec fn limited(prev: Flt, target: Flt, ramp: Flt, dt: Flt) -> Flt {
    if prev.at_most(target) {
        target
    } else {
        target.larger(ramp_floor(prev, ramp, dt))
    }
}

/// Limits the way down to `ramp_down_rpm_per_s`.
pub fn limit(prev_rpm: Flt, target_rpm: Flt, ramp_down_rpm_per_s: Flt, actual_dt_secs: Flt) -> (r: Flt)
    ensures
        r == limited(prev_rpm, target_rpm, ramp_down_rpm_per_s, actual_dt_secs),
{
    if prev_rpm.le(target_rpm) {
        return target_rpm;
    }
    let one: Flt = Flt { bits: ONE_BITS };
    let clamped_dt: Flt = actual_dt_secs.min(one);
    let max_down: Flt = ramp_down_rpm_per_s.mul(clamped_dt);
    let floor: Flt = prev_rpm.sub(max_down);
    target_rpm.max(floor)
}

/// The limited speed is never below the target, and never below what the ramp
/// allows when it is below the previous speed.
pub proof fn law_limit_is_a_floor(prev: Flt, target: Flt, ramp: Flt, dt: Flt)
    requires
        !prev.nan(),
        !target.nan(),
    ensures
        target.at_most(limited(prev, target, ramp, dt)),
        target.less(prev) && !ramp_floor(prev, ramp, dt).nan() ==> ramp_floor(
            prev,
            ramp,
            dt,
        ).at_most(limited(prev, target, ramp, dt)),
{
}

/// A target at or above the previous speed is taken at once.
pub proof fn law_ramp_up_is_unlimited(prev: Flt, target: Flt, ramp: Flt, dt: Flt)
    requires
        prev.at_most(target),
    ensures
        limited(prev, target, ramp, dt) == target,
{
}

/// More than one second counts as one second.
pub proof fn law_dt_counts_at_most_one_second(prev: Flt, target: Flt, ramp: Flt, dt: Flt)
    requires
        (Flt { bits: ONE_BITS }).less(dt),
    ensures
        limited(prev, target, ramp, dt) == limited(prev, target, ramp, Flt { bits: ONE_BITS }),
{
}

/// On the way down the limited speed lies between the target and the previous
/// speed.
pub proof fn law_limit_never_overshoots(prev: Flt, target: Flt, ramp: Flt, dt: Flt)
    requires
        prev.finite(),
        target.less(prev),
        ramp.finite(),
        !ramp.negative(),
        dt.finite(),
        !dt.negative(),
    ensures
        target.at_most(limited(prev, target, ramp, dt)),
        limited(prev, target, ramp, dt).at_most(prev),
{
    let one = Flt { bits: ONE_BITS };
    let step = dt.smaller(one);
    law_times_is_not_negative(ramp, step);
    law_minus_is_at_most(prev, ramp.times(step));
}

/// The seconds that count, in units: at most one.
pub open spec fn counted_time(dt: Flt) -> int {
    if dt.value() < one() {
        dt.value()
    } else {
        one() as int
    }
}

/// The lowest speed that the ramp allows, exactly and times one: what the fan has,
/// less the ramp times the time that counts.
pub open spec fn exact_floor(prev: Flt, ramp: Flt, dt: Flt) -> int {
    prev.value() * one() - ramp.value() * counted_time(dt)
}

/// The errors of the floor, put together.
proof fn lemma_floor_error(o: int, v: int, r: int, t: int, m: int, f: int)
    requires
        o > 0,
        0 <= r,
        0 <= t <= o,
        within(
            0x0100_0000 * (m * o),
            0x0100_0000 * (r * t),
            (size(r * t) + 0x0080_0000 * o) as nat,
        ),
        within(0x0100_0000 * f, 0x0100_0000 * (v - m), size(v - m)),
    ensures
        within(
            0x40_0000 * (f * o),
            0x40_0000 * (v * o - r * t),
            (o * (size(v) + r + 0x40_0000)) as nat,
        ),
{
    let k: int = 0x0100_0000;
    let mv = size(v) as int;
    lemma_size_bounds(r, t, r as nat, o as nat);
    lemma_size_of_product(m, o);
    let s = size(m) as int;
    let (a, b) = (r * o, mv * o);
    assert(k * (s * o) <= k * a + a + 0x0080_0000 * o);
    assert(s <= 2 * r + 1) by (nonlinear_arith)
        requires
            o > 0,
            r >= 0,
            a == r * o,
            k == 0x0100_0000,
            k * (s * o) <= k * a + a + 0x0080_0000 * o,
    ;
    let e = k * f - k * (v - m);
    lemma_size_bounds(e, o, (mv + 2 * r + 1) as nat, o as nat);
    assert(e * o == k * (f * o) - k * (v * o) + k * (m * o)) by (nonlinear_arith)
        requires
            e == k * f - k * (v - m),
    ;
    assert((mv + 2 * r + 1) * o == b + 2 * a + o) by (nonlinear_arith)
        requires
            a == r * o,
            b == mv * o,
    ;
    assert(o * (mv + r + 0x40_0000) == b + a + 0x40_0000 * o) by (nonlinear_arith)
        requires
            a == r * o,
            b == mv * o,
    ;
    assert(a >= 0 && b >= 0) by (nonlinear_arith)
        requires
            a == r * o,
            b == mv * o,
            r >= 0,
            mv >= 0,
            o > 0,
    ;
}

/// The ramp, by values: a target at or above the speed is taken at once. Below
/// it, the limited speed is the higher one of the target and what the ramp allows
/// in the time that counts, but for one part in 2^22 of speed and ramp and a few
/// units.
pub proof fn law_limit_by_values(prev: Flt, target: Flt, ramp: Flt, dt: Flt)
    requires
        prev.finite(),
        target.finite(),
        ramp.finite(),
        dt.finite(),
        ramp.value() >= 0,
        dt.value() >= 0,
        size(prev.value()) <= pow2(270),
        ramp.value() <= pow2(270),
    ensures
        ({
            let r = limited(prev, target, ramp, dt);
            let (goal, floor) = (target.value() * one(), exact_floor(prev, ramp, dt));
            &&& prev.value() <= target.value() ==> r == target
            &&& target.value() < prev.value() ==> {
                &&& r.finite()
                &&& r.value() >= target.value()
                &&& within(
                    0x40_0000 * (r.value() * one()),
                    0x40_0000 * (if goal < floor {
                        floor
                    } else {
                        goal
                    }),
                    one() * (size(prev.value()) + ramp.value() as nat + 0x40_0000),
                )
            }
        }),
{
    crate::flt::facts::lemma_one();
    lemma_pow2_pos(149);
    let full = Flt { bits: ONE_BITS };
    let step = dt.smaller(full);
    assert(step.finite() && step.value() == counted_time(dt));
    let (o, r, t) = (one() as int, ramp.value(), counted_time(dt));
    law_times_error(ramp, step);
    lemma_size_bounds(r, t, pow2(270), one());
    lemma2_to64();
    lemma_pow2_adds(6, 270);
    lemma_pow2_pos(270);
    assert(pow2(270) * one() <= safe_size() * one()) by (nonlinear_arith)
        requires
            safe_size() == 64 * pow2(270),
    ;
    let m = ramp.times(step);
    assert(m.finite());
    lemma_size_of_product(m.value(), o);
    let s = size(m.value()) as int;
    let b = pow2(270) * o;
    assert(s <= 2 * pow2(270) + 1) by (nonlinear_arith)
        requires
            o > 0,
            pow2(270) >= 1,
            b == pow2(270) * o,
            0x0100_0000 * (s * o) <= 0x0100_0000 * b + b + 0x0080_0000 * o,
    ;
    law_minus_error(prev, m);
    let f = prev.minus(m);
    assert(f.finite());
    lemma_floor_error(o, prev.value(), r, t, m.value(), f.value());
    let (goal, floor) = (target.value() * o, exact_floor(prev, ramp, dt));
    let (tv, fv) = (target.value(), f.value());
    assert(tv <= fv ==> goal <= fv * o) by (nonlinear_arith)
        requires
            goal == tv * o,
            o > 0,
    ;
    assert(tv >= fv ==> goal >= fv * o) by (nonlinear_arith)
        requires
            goal == tv * o,
            o > 0,
    ;
    assert(o * (size(prev.value()) + r + 0x40_0000) >= 0) by (nonlinear_arith)
        requires
            o > 0,
            r >= 0,
    ;
}

} // verus!
