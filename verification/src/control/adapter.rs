//! From a continuous target to the two modes that the hardware offers.
//!
//! A fan is either left to the firmware or forced to its minimum. Targets in
//! the lowest 5 % of the range force the minimum; only targets above 10 % give
//! it up again, so that the mode does not flicker between the two.

use crate::flt::errors::{
    law_minus_error, law_plus_error, law_times_error, lemma_size_bounds, lemma_size_of_product,
    safe_size, within,
};
use crate::flt::lemmas::lemma_units_decoded;
use crate::flt::model::one;
use crate::flt::{size, Flt};
use vstd::arithmetic::power2::{lemma2_to64, lemma_pow2_adds, lemma_pow2_pos, pow2};
use vstd::prelude::*;

verus! {

/// 0.05
pub const ENGAGE_BITS: u32 = 0x3D4C_CCCD;

/// 0.10
pub const DISENGAGE_BITS: u32 = 0x3DCC_CCCD;

/// The two modes.
#[derive(Debug, Clone, Copy, PartialEq, Eq, Structural)]
pub enum AppleSiliconDecision {
    /// The fan runs at its minimum.
    ForcedMinimum,
    /// The firmware decides.
    Auto,
}

impl AppleSiliconDecision {
    /// The value of the mode key.
    #[must_use]
    pub fn mode_byte(self) -> (r: u8)
        ensures
            r == (match self {
                AppleSiliconDecision::ForcedMinimum => 1u8,
                AppleSiliconDecision::Auto => 0u8,
            }),
    {
        match self {
            AppleSiliconDecision::ForcedMinimum => 1,
            AppleSiliconDecision::Auto => 0,
        }
    }
}

/// The adapter remembers the mode it chose last.
#[derive(Debug, Clone, Copy)]
pub struct AppleSiliconAdapter {
    pub current: AppleSiliconDecision,
}

/// `min + share * (max - min)`.
pub open spec fn threshold(share: u32, min: Flt, max: Flt) -> Flt {
    min.plus(max.minus(min).times(Flt { bits: share }))
}

/// The next mode.
pub open spec fn decided(
    current: AppleSiliconDecision,
    target: Flt,
    min: Flt,
    max: Flt,
) -> AppleSiliconDecision {
    match current {
        AppleSiliconDecision::Auto => if target.at_most(threshold(ENGAGE_BITS, min, max)) {
            AppleSiliconDecision::ForcedMinimum
        } else {
            AppleSiliconDecision::Auto
        },
        AppleSiliconDecision::ForcedMinimum => if threshold(DISENGAGE_BITS, min, max).less(
            target,
        ) {
            AppleSiliconDecision::Auto
        } else {
            AppleSiliconDecision::ForcedMinimum
        },
    }
}

impl AppleSiliconAdapter {
    /// Starts with the fan left to the firmware.
    #[must_use]
    pub fn new() -> (r: AppleSiliconAdapter)
        ensures
            r.current == AppleSiliconDecision::Auto,
    {
        AppleSiliconAdapter { current: AppleSiliconDecision::Auto }
    }

    /// Chooses the mode for a target.
    #[must_use]
    pub fn decide(&mut self, target_rpm: Flt, min_rpm: Flt, max_rpm: Flt) -> (r: AppleSiliconDecision)
        ensures
            r == decided(old(self).current, target_rpm, min_rpm, max_rpm),
            final(self).current == r,
    {
        let range: Flt = max_rpm.sub(min_rpm);
        let engage: Flt = min_rpm.add(range.mul(Flt { bits: ENGAGE_BITS }));
        let disengage: Flt = min_rpm.add(range.mul(Flt { bits: DISENGAGE_BITS }));
        self.current = match self.current {
            AppleSiliconDecision::Auto => if target_rpm.le(engage) {
                AppleSiliconDecision::ForcedMinimum
            } else {
                AppleSiliconDecision::Auto
            },
            AppleSiliconDecision::ForcedMinimum => if disengage.lt(target_rpm) {
                AppleSiliconDecision::Auto
            } else {
                AppleSiliconDecision::ForcedMinimum
            },
        };
        self.current
    }
}

/// Between the two thresholds the mode stays what it is.
pub proof fn law_deadband_keeps_the_mode(
    current: AppleSiliconDecision,
    target: Flt,
    min: Flt,
    max: Flt,
)
    requires
        threshold(ENGAGE_BITS, min, max).less(target),
        target.at_most(threshold(DISENGAGE_BITS, min, max)),
    ensures
        decided(current, target, min, max) == current,
{
}

/// The two shares are a twentieth and a tenth, but for one part in 2^24.
pub proof fn law_shares()
    ensures
        (Flt { bits: ENGAGE_BITS }).finite(),
        (Flt { bits: DISENGAGE_BITS }).finite(),
        within(
            0x0100_0000 * (20 * (Flt { bits: ENGAGE_BITS }).value()),
            (0x0100_0000 * one()) as int,
            one(),
        ),
        within(
            0x0100_0000 * (10 * (Flt { bits: DISENGAGE_BITS }).value()),
            (0x0100_0000 * one()) as int,
            one(),
        ),
{
    lemma_units_decoded(ENGAGE_BITS as nat, 0x00CC_CCCD, 121);
    lemma_units_decoded(DISENGAGE_BITS as nat, 0x00CC_CCCD, 122);
    lemma2_to64();
    lemma_pow2_adds(28, 121);
    lemma_pow2_adds(27, 122);
    lemma_pow2_pos(121);
    lemma_pow2_pos(122);
}

/// The slack of a share of an envelope, in units: one part in 2^20 of its ends and
/// a few units.
pub open spec fn share_slack(min: Flt, max: Flt) -> nat {
    size(min.value()) + size(max.value()) + 0x40_0000
}

/// The errors of a share, put together: `n` times the share `c` is nearly one, `g`
/// is the rounded range, `s` the rounded share of it.
pub proof fn lemma_share_error(o: int, n: int, c: int, w: int, g: int, s: int)
    requires
        o > 0,
        n == 10 || n == 20,
        0 <= w,
        0 <= g,
        0 <= c,
        within(0x0100_0000 * (n * c), 0x0100_0000 * o, o as nat),
        within(0x0100_0000 * g, 0x0100_0000 * w, w as nat),
        within(
            0x0100_0000 * (s * o),
            0x0100_0000 * (g * c),
            (size(g * c) + 0x0080_0000 * o) as nat,
        ),
    ensures
        within(0x20_0000 * (n * s), 0x20_0000 * w, (w + 0x140_0000) as nat),
        size(s) <= w + 1,
{
    let k: int = 0x0100_0000;
    assert(g * c >= 0) by (nonlinear_arith)
        requires
            g >= 0,
            c >= 0,
    ;
    // n * (g * c) against g * o.
    lemma_size_bounds(k * (n * c) - k * o, g, o as nat, g as nat);
    let y = n * c;
    assert((k * y - k * o) * g == k * (y * g) - k * (g * o)) by (nonlinear_arith);
    assert(y * g == n * (g * c)) by (nonlinear_arith)
        requires
            y == n * c,
    ;
    // g * o against w * o.
    lemma_size_bounds(k * g - k * w, o, w as nat, o as nat);
    assert((k * g - k * w) * o == k * (g * o) - k * (w * o)) by (nonlinear_arith);
    assert(g <= 2 * w);
    let b = w * o;
    assert(o * g <= 2 * b) by (nonlinear_arith)
        requires
            g <= 2 * w,
            b == w * o,
            o > 0,
    ;
    assert(g * o == o * g) by (nonlinear_arith);
    let x = n * (g * c);
    assert(x <= 4 * b) by {
        assert(k * x <= k * (o * g) + o * g);
    }
    assert(n * (s * o) == (n * s) * o) by (nonlinear_arith);
    let z = n * s - w;
    assert(z * o == (n * s) * o - b) by (nonlinear_arith)
        requires
            z == n * s - w,
            b == w * o,
    ;
    assert(-(7 * b + 0x0A00_0000 * o) <= k * (z * o) <= 7 * b + 0x0A00_0000 * o);
    assert(-(7 * w + 0x0A00_0000) <= k * z <= 7 * w + 0x0A00_0000) by (nonlinear_arith)
        requires
            o > 0,
            b == w * o,
            -(7 * b + 0x0A00_0000 * o) <= k * (z * o) <= 7 * b + 0x0A00_0000 * o,
    ;
    assert(10 * size(s) <= n * size(s)) by (nonlinear_arith)
        requires
            n >= 10,
    ;
    lemma_size_of_product(n, s);
}

/// A threshold lies a twentieth, or a tenth, of the range above the minimum, but
/// for one part in 2^20 of the ends of the envelope and a few units.
pub proof fn law_threshold_is_a_share(share: u32, n: int, min: Flt, max: Flt)
    requires
        (share == ENGAGE_BITS && n == 20) || (share == DISENGAGE_BITS && n == 10),
        min.finite(),
        max.finite(),
        min.value() <= max.value(),
        size(min.value()) <= pow2(270),
        size(max.value()) <= pow2(270),
    ensures
        threshold(share, min, max).finite(),
        within(
            0x10_0000 * (n * threshold(share, min, max).value()),
            0x10_0000 * (n * min.value() + (max.value() - min.value())),
            20 * share_slack(min, max),
        ),
{
    law_shares();
    lemma2_to64();
    lemma_pow2_adds(6, 270);
    lemma_pow2_pos(270);
    lemma_pow2_pos(149);
    let part = Flt { bits: share };
    let w = max.value() - min.value();
    law_minus_error(max, min);
    let g = max.minus(min);
    assert(g.finite());
    law_times_error(g, part);
    let o = one() as int;
    assert(size(part.value()) <= o);
    lemma_size_bounds(g.value(), part.value(), 4 * pow2(270), one());
    assert((4 * pow2(270)) * one() <= safe_size() * one()) by (nonlinear_arith)
        requires
            safe_size() == 64 * pow2(270),
    ;
    let s = g.times(part);
    assert(s.finite());
    lemma_share_error(o, n, part.value(), w, g.value(), s.value());
    law_plus_error(min, s);
    let t = min.plus(s);
    assert(size(min.value() + s.value()) <= safe_size());
    let e = t.value() - (min.value() + s.value());
    assert(n * t.value() == n * e + n * min.value() + n * s.value()) by (nonlinear_arith)
        requires
            e == t.value() - (min.value() + s.value()),
    ;
    assert(size(n * (0x0100_0000 * e)) <= 20 * (size(min.value()) + w + 1)) by {
        lemma_size_bounds(n, 0x0100_0000 * e, 20, (size(min.value()) + w + 1) as nat);
    }
    assert(n * (0x0100_0000 * e) == 0x0100_0000 * (n * e)) by (nonlinear_arith);
}

/// The modes, by values: a fan that is left to the firmware is forced to its
/// minimum by a target in the lowest twentieth of its range, and stays so up to
/// the lowest tenth; the thresholds hold but for the slack of the envelope.
pub proof fn law_modes_by_values(target: Flt, min: Flt, max: Flt)
    requires
        target.finite(),
        min.finite(),
        max.finite(),
        min.value() <= max.value(),
        size(min.value()) <= pow2(270),
        size(max.value()) <= pow2(270),
    ensures
        ({
            let above = target.value() - min.value();
            let range = max.value() - min.value();
            let slack = 20 * share_slack(min, max);
            let from_auto = decided(AppleSiliconDecision::Auto, target, min, max);
            let from_forced = decided(AppleSiliconDecision::ForcedMinimum, target, min, max);
            &&& 0x10_0000 * (20 * above) <= 0x10_0000 * range - slack
                ==> from_auto == AppleSiliconDecision::ForcedMinimum
            &&& 0x10_0000 * (20 * above) > 0x10_0000 * range + slack
                ==> from_auto == AppleSiliconDecision::Auto
            &&& 0x10_0000 * (10 * above) <= 0x10_0000 * range - slack
                ==> from_forced == AppleSiliconDecision::ForcedMinimum
            &&& 0x10_0000 * (10 * above) > 0x10_0000 * range + slack
                ==> from_forced == AppleSiliconDecision::Auto
        }),
{
    law_threshold_is_a_share(ENGAGE_BITS, 20, min, max);
    law_threshold_is_a_share(DISENGAGE_BITS, 10, min, max);
}

} // verus!
