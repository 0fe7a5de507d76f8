//! The only kind of fan target that may be written.

use crate::flt::facts::law_to_whole_is_monotone;
use crate::flt::lemmas::lemma_units_decoded;
use crate::flt::model::{one, units};
use crate::flt::{whole, Flt};
use crate::text::{decimal, push_decimal};
use vstd::arithmetic::div_mod::{lemma_fundamental_div_mod, lemma_fundamental_div_mod_converse};
use vstd::arithmetic::power2::{
    lemma2_to64, lemma_pow2_adds, lemma_pow2_pos, lemma_pow2_unfold, pow2,
};
use vstd::prelude::*;
use vstd::string::StringExecFns;

verus! {

/// A target inside the envelope of its fan, in whole revolutions per minute.
#[derive(Debug, Clone, Copy, PartialEq, Eq)]
pub struct ClampedRpm {
    rpm: u32,
}

/// The floor: the hardware minimum, or the operator's floor where that is
/// higher.
pub open spec fn floor_of(min: Flt, safe_min: Option<Flt>) -> Flt {
    match safe_min {
        Some(safe) => if safe.finite() && min.less(safe) {
            safe
        } else {
            min
        },
        None => min,
    }
}

/// A request brought into `floor ..= max`. What is no finite number becomes
/// the floor.
pub open spec fn clamped_target(raw: Flt, floor: Flt, max: Flt) -> Flt {
    if !raw.finite() || raw.less(floor) {
        floor
    } else if max.less(raw) {
        max
    } else {
        raw
    }
}

/// The floor: the hardware minimum, or the operator's floor where that is
/// higher.
pub fn effective_safe_min(hardware_min: Flt, safe_min: Option<Flt>) -> (r: Flt)
    ensures
        r == floor_of(hardware_min, safe_min),
{
    match safe_min {
        Some(safe) => if safe.is_finite() && hardware_min.lt(safe) {
            safe
        } else {
            hardware_min
        },
        None => hardware_min,
    }
}

impl ClampedRpm {
    pub closed spec fn view(&self) -> u32 {
        self.rpm
    }

    /// The target of a given speed.
    pub closed spec fn of(rpm: u32) -> ClampedRpm {
        ClampedRpm { rpm }
    }

    /// Brings a request into the envelope. `safe_min` is the floor that the
    /// operator set, if any.
    #[must_use]
    pub fn new(raw: Flt, min: Flt, max: Flt, safe_min: Option<Flt>) -> (r: ClampedRpm)
        ensures
            r@ == clamped_target(raw, floor_of(min, safe_min), max).to_whole(),
            r == ClampedRpm::of(r@),
    {
        let floor: Flt = effective_safe_min(min, safe_min);
        let clamped: Flt = if !raw.is_finite() || raw.lt(floor) {
            floor
        } else if max.lt(raw) {
            max
        } else {
            raw
        };
        ClampedRpm { rpm: clamped.round_to_u32() }
    }

    /// The target.
    #[must_use]
    pub fn value(self) -> (r: u32)
        ensures
            r == self@,
    {
        self.rpm
    }

    /// The target as a `flt`.
    #[must_use]
    pub fn as_f32(self) -> (r: Flt)
        ensures
            r == whole(self@ as nat),
    {
        Flt::from_u32(self.rpm)
    }

    /// Would a request be changed?
    #[must_use]
    pub fn was_clamped(raw: Flt, min: Flt, max: Flt, safe_min: Option<Flt>) -> (r: bool)
        ensures
            r == (!raw.finite() || raw.less(floor_of(min, safe_min)) || max.less(raw)),
    {
        let floor: Flt = effective_safe_min(min, safe_min);
        !raw.is_finite() || raw.lt(floor) || max.lt(raw)
    }

    /// The target in words.
    pub fn message(&self) -> (r: String)
        ensures
            r@ == decimal(self@ as nat) + " RPM"@,
    {
        let mut s: String = String::new();
        push_decimal(&mut s, self.rpm as u64);
        s.append(" RPM");
        assert(s@ =~= decimal(self@ as nat) + " RPM"@);
        s
    }
}

/// 0.5
pub const HALF_BITS: u32 = 0x3F00_0000;

/// A clamped request lies between the rounded floor and the rounded maximum.
pub proof fn law_clamp_stays_in_bounds(raw: Flt, floor: Flt, max: Flt)
    requires
        floor.at_most(max),
    ensures
        floor.to_whole() <= clamped_target(raw, floor, max).to_whole() <= max.to_whole(),
{
    law_to_whole_is_monotone(floor, max);
    if raw.finite() {
        if !raw.less(floor) {
            law_to_whole_is_monotone(floor, raw);
        }
        if !max.less(raw) {
            law_to_whole_is_monotone(raw, max);
        }
    }
}

/// A request to stop the fan yields the floor.
pub proof fn law_zero_becomes_the_floor(floor: Flt, max: Flt)
    requires
        (Flt { bits: 0 }).less(floor),
    ensures
        clamped_target(Flt { bits: 0 }, floor, max) == floor,
{
}

/// No request stops a fan whose floor rounds to at least one revolution.
pub proof fn law_clamp_never_stops_the_fan(raw: Flt, floor: Flt, max: Flt)
    requires
        (Flt { bits: HALF_BITS }).at_most(floor),
        floor.at_most(max),
    ensures
        clamped_target(raw, floor, max).to_whole() > 0,
{
    let half = Flt { bits: HALF_BITS };
    lemma_units_decoded(HALF_BITS as nat, 0x0080_0000, 125);
    lemma2_to64();
    lemma_pow2_adds(23, 125);
    lemma_pow2_unfold(149);
    lemma_pow2_pos(148);
    assert(half.rounded_units() == 1) by {
        lemma_fundamental_div_mod_converse(
            (2 * pow2(148) + one()) as int,
            (2 * one()) as int,
            1,
            0,
        );
    }
    law_to_whole_is_monotone(half, floor);
    law_clamp_stays_in_bounds(raw, floor, max);
}

/// The operator's floor only ever raises the hardware minimum.
pub proof fn law_safe_floor_only_raises(min: Flt, safe: Option<Flt>)
    requires
        !min.nan(),
    ensures
        min.at_most(floor_of(min, safe)),
{
}

/// What is not clamped is what was asked for.
pub proof fn law_requests_in_range_pass(raw: Flt, floor: Flt, max: Flt)
    requires
        raw.finite(),
        floor.at_most(raw),
        raw.at_most(max),
    ensures
        clamped_target(raw, floor, max) == raw,
{
}

/// A value that is not negative is rounded to the nearest whole number, halves
/// upwards; beyond the range of 32 bits it is the largest one.
pub proof fn law_to_whole_is_nearest(x: Flt)
    requires
        x.finite(),
        x.value() >= 0,
    ensures
        ({
            let n = x.to_whole() * one();
            &&& x.value() <= u32::MAX * one() ==> 2 * n - one() <= 2 * x.value() < 2 * n + one()
            &&& x.value() > u32::MAX * one() ==> x.to_whole() == u32::MAX
        }),
{
    lemma_pow2_pos(149);
    let u = units(x.magnitude()) as int;
    let o = one() as int;
    if x.negative() {
        assert(u == 0);
        assert(x.to_whole() == 0);
        assert(0 * one() == 0);
    } else {
        let q = (2 * u + o) / (2 * o);
        lemma_fundamental_div_mod(2 * u + o, 2 * o);
        assert((2 * o) * q == 2 * (q * o)) by (nonlinear_arith);
        assert(0 <= (2 * u + o) % (2 * o) < 2 * o);
        let most = u32::MAX as int;
        if u <= most * o {
            assert(q <= most) by (nonlinear_arith)
                requires
                    o > 0,
                    2 * (q * o) <= 2 * u + o,
                    u <= most * o,
            ;
            assert(x.to_whole() as int == q);
            assert(x.to_whole() * one() == q * o);
        } else {
            assert(q >= most) by (nonlinear_arith)
                requires
                    o > 0,
                    2 * u + o < 2 * (q * o) + 2 * o,
                    u > most * o,
            ;
        }
    }
}

/// The floor is the higher one of the hardware minimum and the operator's floor,
/// if that is a finite number.
pub proof fn law_floor_is_the_higher(min: Flt, safe_min: Option<Flt>)
    requires
        min.finite(),
    ensures
        floor_of(min, safe_min).finite(),
        floor_of(min, safe_min).value() == (match safe_min {
            Some(safe) => if safe.finite() && min.value() < safe.value() {
                safe.value()
            } else {
                min.value()
            },
            None => min.value(),
        }),
{
}

/// A request, an integer of units, brought between two bounds.
pub open spec fn brought_between(x: int, low: int, high: int) -> int {
    if x < low {
        low
    } else if x > high {
        high
    } else {
        x
    }
}

/// The target of a request is the whole number nearest to what lies nearest to
/// the request between floor and maximum. What is no finite number counts as the
/// floor.
pub proof fn law_target_is_the_nearest_allowed(raw: Flt, floor: Flt, max: Flt)
    requires
        floor.finite(),
        max.finite(),
        0 <= floor.value() <= max.value() <= u32::MAX * one(),
    ensures
        ({
            let n = clamped_target(raw, floor, max).to_whole() * one();
            let goal = if raw.finite() {
                brought_between(raw.value(), floor.value(), max.value())
            } else {
                floor.value()
            };
            2 * n - one() <= 2 * goal < 2 * n + one()
        }),
{
    law_to_whole_is_nearest(clamped_target(raw, floor, max));
}

} // verus!
