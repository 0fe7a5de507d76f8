//! Which targets ask for the minimum of a fan, by their values.

use super::enumerate::Fan;
use super::write_session::asks_for_minimum;
use crate::control::adapter::{law_shares, lemma_share_error, ENGAGE_BITS};
use crate::flt::errors::{
    law_minus_error, law_times_error, law_whole_error, lemma_size_bounds, safe_size,
};
use crate::flt::facts::lemma_signed;
use crate::flt::model::one;
use crate::flt::{size, whole, Flt};
use vstd::arithmetic::power2::{lemma2_to64, lemma_pow2_adds, lemma_pow2_pos, pow2};
use vstd::prelude::*;

verus! {

/// The slack of the test, in units: one part in 2^20 of target and envelope, twenty
/// times, and a few units.
pub open spec fn minimum_slack(fan: Fan, rpm: u32) -> nat {
    20 * (size(fan.min_rpm.value()) + size(fan.max_rpm.value()) + (rpm * one()) as nat + 0x40_0000)
}

/// A target asks for the minimum of a fan if it differs from it by at most a
/// twentieth of its range, and does not if it differs by more, but for the slack.
pub proof fn law_minimum_requests_by_values(fan: Fan, rpm: u32)
    requires
        fan.min_rpm.finite(),
        fan.max_rpm.finite(),
        fan.min_rpm.value() <= fan.max_rpm.value(),
        size(fan.min_rpm.value()) <= pow2(270),
        size(fan.max_rpm.value()) <= pow2(270),
    ensures
        ({
            let away = size(rpm * one() - fan.min_rpm.value());
            let range = fan.max_rpm.value() - fan.min_rpm.value();
            let slack = minimum_slack(fan, rpm);
            &&& 0x10_0000 * (20 * away) <= 0x10_0000 * range - slack ==> asks_for_minimum(fan, rpm)
            &&& 0x10_0000 * (20 * away) > 0x10_0000 * range + slack ==> !asks_for_minimum(
                fan,
                rpm,
            )
        }),
{
    let (min, max) = (fan.min_rpm, fan.max_rpm);
    law_shares();
    lemma2_to64();
    lemma_pow2_adds(6, 270);
    lemma_pow2_adds(32, 149);
    lemma_pow2_adds(181, 89);
    lemma_pow2_pos(89);
    lemma_pow2_pos(270);
    lemma_pow2_pos(149);
    let o = one() as int;
    law_whole_error(rpm as nat);
    let exact = rpm * one();
    assert(0 <= exact <= pow2(181)) by (nonlinear_arith)
        requires
            exact == rpm * one(),
            pow2(181) == 0x1_0000_0000 * one(),
    ;
    assert(pow2(181) <= pow2(270)) by (nonlinear_arith)
        requires
            pow2(270) == pow2(181) * pow2(89),
            pow2(89) >= 1,
    ;
    let w = whole(rpm as nat);
    law_minus_error(w, min);
    let x = w.minus(min);
    assert(x.finite());
    lemma_signed(false, x.magnitude());
    assert(x.absolute().value() == size(x.value()));
    let range = max.value() - min.value();
    law_minus_error(max, min);
    let g = max.minus(min);
    assert(g.finite());
    let part = Flt { bits: ENGAGE_BITS };
    law_times_error(g, part);
    assert(size(part.value()) <= o);
    lemma_size_bounds(g.value(), part.value(), 4 * pow2(270), one());
    assert((4 * pow2(270)) * one() <= safe_size() * one()) by (nonlinear_arith)
        requires
            safe_size() == 64 * pow2(270),
    ;
    let y = g.times(part);
    assert(y.finite());
    lemma_share_error(o, 20, part.value(), range, g.value(), y.value());
}

} // verus!
