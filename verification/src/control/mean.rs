//! What fusing means for the readings: the mean is the exact mean up to
//! rounding, the maximum is the largest, and only live sensors count.

use super::fusion::{combined, fused, maximum, sum, valid, FusionMode};
use crate::flt::errors::{law_over_error, law_plus_error, law_whole_error, within};
use crate::flt::facts::{law_rounding_is_monotone, lemma_signed};
use crate::flt::lemmas::{
    lemma_nearest_of_units, lemma_nearest_scaled, lemma_units_at_least, lemma_units_increasing,
};
use crate::flt::model::{one, round_magnitude, units, INFINITY_BITS};
use crate::flt::{size, whole, Flt, NEG_INFINITY_BITS};
use vstd::arithmetic::power2::{lemma_pow2_pos, lemma_pow2_unfold, pow2};
use vstd::prelude::*;

verus! {

/// The `i`-th sensor did not drop out.
pub open spec fn live(dropouts: Seq<bool>, i: int) -> bool {
    0 <= i < dropouts.len() && !dropouts[i]
}

/// How many readings are live.
pub open spec fn live_count(values: Seq<Flt>, dropouts: Seq<bool>) -> nat
    decreases values.len(),
{
    if values.len() == 0 {
        0
    } else {
        live_count(values.drop_last(), dropouts) + (if live(dropouts, values.len() - 1) {
            1nat
        } else {
            0nat
        })
    }
}

/// The exact sum of the live readings, in units.
pub open spec fn live_total(values: Seq<Flt>, dropouts: Seq<bool>) -> int
    decreases values.len(),
{
    if values.len() == 0 {
        0
    } else {
        live_total(values.drop_last(), dropouts) + (if live(dropouts, values.len() - 1) {
            values.last().value()
        } else {
            0
        })
    }
}

/// The exact sum of the sizes of the live readings, in units.
pub open spec fn live_sizes(values: Seq<Flt>, dropouts: Seq<bool>) -> nat
    decreases values.len(),
{
    if values.len() == 0 {
        0
    } else {
        live_sizes(values.drop_last(), dropouts) + (if live(dropouts, values.len() - 1) {
            size(values.last().value())
        } else {
            0
        })
    }
}

/// Every live reading is a finite number.
pub open spec fn live_finite(values: Seq<Flt>, dropouts: Seq<bool>) -> bool {
    forall|i: int|
        0 <= i < values.len() && live(dropouts, i) ==> (#[trigger] values[i]).finite()
}

/// The sum of the live readings does not overflow: their sizes add up to at most
/// 2^126, or the sum is finite all the same.
pub open spec fn does_not_overflow(values: Seq<Flt>, dropouts: Seq<bool>) -> bool {
    live_sizes(values, dropouts) <= pow2(275) || sum(valid(values, dropouts)).finite()
}

spec fn total(vs: Seq<Flt>) -> int
    decreases vs.len(),
{
    if vs.len() == 0 {
        0
    } else {
        total(vs.drop_last()) + vs.last().value()
    }
}

spec fn sizes(vs: Seq<Flt>) -> nat
    decreases vs.len(),
{
    if vs.len() == 0 {
        0
    } else {
        sizes(vs.drop_last()) + size(vs.last().value())
    }
}

/// The live readings, as a sequence and by their indices.
proof fn lemma_valid(values: Seq<Flt>, dropouts: Seq<bool>)
    ensures
        valid(values, dropouts).len() == live_count(values, dropouts),
        total(valid(values, dropouts)) == live_total(values, dropouts),
        sizes(valid(values, dropouts)) == live_sizes(values, dropouts),
        live_finite(values, dropouts) ==> forall|k: int|
            0 <= k < valid(values, dropouts).len() ==> (#[trigger] valid(
                values,
                dropouts,
            )[k]).finite(),
    decreases values.len(),
{
    if values.len() > 0 {
        let rest = values.drop_last();
        let n = values.len() - 1;
        lemma_valid(rest, dropouts);
        let before = valid(rest, dropouts);
        let now = valid(values, dropouts);
        if live(dropouts, n) {
            assert(now == before.push(values[n]));
            assert(now.drop_last() =~= before);
            assert(now.last() == values.last());
        } else {
            assert(now == before);
        }
        if live_finite(values, dropouts) {
            assert(live_finite(rest, dropouts)) by {
                assert forall|i: int| 0 <= i < rest.len() && live(dropouts, i) implies (
                #[trigger] rest[i]).finite() by {
                    assert(rest[i] == values[i]);
                }
            }
            assert forall|k: int| 0 <= k < now.len() implies (#[trigger] now[k]).finite() by {
                if k < before.len() {
                    assert(now[k] == before[k]);
                } else {
                    assert(now[k] == values[n]);
                }
            }
        }
    }
}

/// A live reading is in the sequence, and what is in the sequence is a live
/// reading.
proof fn lemma_valid_members(values: Seq<Flt>, dropouts: Seq<bool>)
    ensures
        forall|i: int|
            0 <= i < values.len() && live(dropouts, i) ==> valid(values, dropouts).contains(
                #[trigger] values[i],
            ),
        forall|k: int|
            0 <= k < valid(values, dropouts).len() ==> exists|i: int|
                0 <= i < values.len() && live(dropouts, i) && values[i] == #[trigger] valid(
                    values,
                    dropouts,
                )[k],
    decreases values.len(),
{
    if values.len() > 0 {
        let rest = values.drop_last();
        let n = values.len() - 1;
        lemma_valid_members(rest, dropouts);
        let before = valid(rest, dropouts);
        let now = valid(values, dropouts);
        assert forall|i: int| 0 <= i < values.len() && live(dropouts, i) implies now.contains(
            #[trigger] values[i],
        ) by {
            if i < n {
                assert(rest[i] == values[i]);
                assert(before.contains(rest[i]));
                let k = choose|k: int| 0 <= k < before.len() && before[k] == values[i];
                assert(now[k] == values[i]);
            } else {
                assert(now[before.len() as int] == values[n]);
            }
        }
        assert forall|k: int| 0 <= k < now.len() implies exists|i: int|
            0 <= i < values.len() && live(dropouts, i) && values[i] == #[trigger] now[k] by {
            if k < before.len() {
                assert(now[k] == before[k]);
                let i = choose|i: int|
                    0 <= i < rest.len() && live(dropouts, i) && rest[i] == before[k];
                assert(values[i] == now[k]);
            } else {
                assert(values[n] == now[k]);
            }
        }
    }
}

/// The error of a sum from left to right.
proof fn lemma_sum_error(vs: Seq<Flt>)
    requires
        vs.len() <= 0x80_0000,
        forall|k: int| 0 <= k < vs.len() ==> (#[trigger] vs[k]).finite(),
        sizes(vs) <= pow2(275) || sum(vs).finite(),
    ensures
        sum(vs).finite(),
        within(0x0100_0000 * sum(vs).value(), 0x0100_0000 * total(vs), 2 * vs.len() * sizes(vs)),
        size(total(vs)) <= sizes(vs),
    decreases vs.len(),
{
    if vs.len() == 0 {
        assert(units(0) == 0);
        assert(sum(vs).magnitude() == 0);
        assert(2 * vs.len() * sizes(vs) == 0) by (nonlinear_arith)
            requires
                vs.len() == 0,
        ;
    } else {
        let rest = vs.drop_last();
        let x = vs.last();
        assert(x == vs[vs.len() - 1]);
        assert forall|k: int| 0 <= k < rest.len() implies (#[trigger] rest[k]).finite() by {
            assert(rest[k] == vs[k]);
        }
        lemma_sum_error(rest);
        let s = sum(rest);
        law_plus_error(s, x);
        let k = rest.len() as int;
        let (a0, a) = (sizes(rest) as int, sizes(vs) as int);
        assert(k * a0 <= 0x80_0000 * a0) by (nonlinear_arith)
            requires
                k <= 0x80_0000,
                a0 >= 0,
        ;
        assert(2 * k * a0 == 2 * (k * a0)) by (nonlinear_arith);
        assert(size(s.value() - total(rest)) <= a0);
        lemma_pow2_unfold(276);
        assert(sum(vs) == s.plus(x));
        assert(sum(vs).finite());
        assert(k * a0 <= k * a) by (nonlinear_arith)
            requires
                a0 <= a,
                k >= 0,
        ;
        assert(2 * vs.len() * a == 2 * (k * a) + 2 * a) by (nonlinear_arith)
            requires
                vs.len() == k + 1,
        ;
    }
}

/// The error of the quotient, put to that of the sum. `t` is the exact total, `s`
/// the sum, `r` the quotient, `a` the sum of the sizes, `n` the number.
proof fn lemma_mean_error(t: int, s: int, r: int, a: int, n: int, o: int)
    requires
        1 <= n <= 0x80_0000,
        o > 0,
        0 <= a,
        size(t) <= a,
        within(0x0100_0000 * s, 0x0100_0000 * t, (2 * n * a) as nat),
        within(
            0x0100_0000 * (r * (n * o)),
            0x0100_0000 * (s * o),
            (size(s) * o + 0x0080_0000 * (n * o)) as nat,
        ),
    ensures
        within(0x40_0000 * (r * n), 0x40_0000 * t, (n * (a + 0x20_0000)) as nat),
{
    let m = size(s) as int;
    assert(2 * n * a >= 0 && m * o >= 0 && n * o >= 0) by (nonlinear_arith)
        requires
            n >= 1,
            a >= 0,
            m >= 0,
            o > 0,
    ;
    assert(r * (n * o) == (r * n) * o) by (nonlinear_arith);
    let e = 0x0100_0000 * (r * n) - 0x0100_0000 * s;
    assert(e * o <= (m + 0x0080_0000 * n) * o && -e * o <= (m + 0x0080_0000 * n) * o)
        by (nonlinear_arith)
        requires
            e == 0x0100_0000 * (r * n) - 0x0100_0000 * s,
            0x0100_0000 * ((r * n) * o) - 0x0100_0000 * (s * o) <= m * o + 0x0080_0000 * (n * o),
            0x0100_0000 * (s * o) - 0x0100_0000 * ((r * n) * o) <= m * o + 0x0080_0000 * (n * o),
    ;
    assert(e <= m + 0x0080_0000 * n && -e <= m + 0x0080_0000 * n) by (nonlinear_arith)
        requires
            o > 0,
            e * o <= (m + 0x0080_0000 * n) * o,
            -e * o <= (m + 0x0080_0000 * n) * o,
    ;
    assert(2 * n * a <= 0x0100_0000 * a) by (nonlinear_arith)
        requires
            n <= 0x80_0000,
            a >= 0,
    ;
    assert(m <= 2 * a);
    assert(n * (a + 0x20_0000) == n * a + 0x20_0000 * n) by (nonlinear_arith);
    assert(a <= n * a) by (nonlinear_arith)
        requires
            n >= 1,
            a >= 0,
    ;
    assert(2 * n * a == 2 * (n * a)) by (nonlinear_arith);
}

/// A finite value over a whole number that is not zero is finite.
proof fn lemma_quotient_is_finite(s: Flt, n: nat)
    requires
        s.finite(),
        1 <= n <= 0x80_0000,
    ensures
        s.over(whole(n)).finite(),
{
    law_whole_error(n);
    lemma_pow2_pos(149);
    let w = whole(n);
    assert(n * one() > 0) by (nonlinear_arith)
        requires
            n >= 1,
            one() > 0,
    ;
    assert(w.magnitude() > 0) by {
        if w.magnitude() == 0 {
            assert(units(0) == 0);
        }
    }
    let q = n * one();
    let u = units(s.magnitude());
    assert(units(w.magnitude()) == q);
    assert(u * one() <= q * u) by (nonlinear_arith)
        requires
            q == n * one(),
            n >= 1,
    ;
    law_rounding_is_monotone(u * one(), q * u, q);
    lemma_nearest_scaled(q, u, 1);
    assert(q * 1 == q);
    lemma_nearest_of_units(s.magnitude());
    lemma_signed(s.negative(), round_magnitude(u * one(), q));
}

/// In mean mode the driver temperature, times the number of live readings, is
/// the exact sum of the live readings, but for one part in 2^22 of the sum of
/// their sizes and half a unit for each reading. More than 2^23 sensors are left
/// out.
pub proof fn law_mean_is_the_mean(values: Seq<Flt>, dropouts: Seq<bool>, last_known_good: Flt)
    requires
        0 < live_count(values, dropouts) <= 0x80_0000,
        live_finite(values, dropouts),
        does_not_overflow(values, dropouts),
    ensures
        ({
            let r = fused(values, dropouts, FusionMode::Mean, last_known_good);
            let n = live_count(values, dropouts);
            &&& r.finite()
            &&& within(
                0x40_0000 * (r.value() * n),
                0x40_0000 * live_total(values, dropouts),
                n * (live_sizes(values, dropouts) + 0x20_0000),
            )
        }),
{
    let vs = valid(values, dropouts);
    lemma_valid(values, dropouts);
    lemma_sum_error(vs);
    let n = vs.len();
    let s = sum(vs);
    law_whole_error(n);
    lemma_pow2_pos(149);
    let w = whole(n);
    assert(n * one() > 0) by (nonlinear_arith)
        requires
            n >= 1,
            one() > 0,
    ;
    lemma_quotient_is_finite(s, n);
    law_over_error(s, w);
    let r = s.over(w);
    assert(combined(vs, FusionMode::Mean) == r);
    lemma_mean_error(
        total(vs),
        s.value(),
        r.value(),
        sizes(vs) as int,
        n as int,
        one() as int,
    );
}

/// A bound for every live reading bounds their sum.
proof fn lemma_total_between(values: Seq<Flt>, dropouts: Seq<bool>, low: int, high: int)
    requires
        forall|i: int|
            0 <= i < values.len() && live(dropouts, i) ==> low <= (#[trigger] values[i]).value()
                <= high,
    ensures
        live_count(values, dropouts) * low <= live_total(values, dropouts) <= live_count(
            values,
            dropouts,
        ) * high,
    decreases values.len(),
{
    if values.len() > 0 {
        let rest = values.drop_last();
        let n = values.len() - 1;
        assert forall|i: int| 0 <= i < rest.len() && live(dropouts, i) implies low <= (
        #[trigger] rest[i]).value() <= high by {
            assert(rest[i] == values[i]);
        }
        lemma_total_between(rest, dropouts, low, high);
        let c = live_count(rest, dropouts);
        assert((c + 1) * low == c * low + low) by (nonlinear_arith);
        assert((c + 1) * high == c * high + high) by (nonlinear_arith);
        if live(dropouts, n) {
            assert(low <= values[n].value() <= high);
            assert(values.last() == values[n]);
        }
    } else {
        assert(0 * low == 0 && 0 * high == 0);
    }
}

/// In mean mode the driver temperature lies between any bounds that hold of every
/// live reading, up to the same rounding.
pub proof fn law_mean_stays_between(
    values: Seq<Flt>,
    dropouts: Seq<bool>,
    last_known_good: Flt,
    low: int,
    high: int,
)
    requires
        0 < live_count(values, dropouts) <= 0x80_0000,
        live_finite(values, dropouts),
        does_not_overflow(values, dropouts),
        forall|i: int|
            0 <= i < values.len() && live(dropouts, i) ==> low <= (#[trigger] values[i]).value()
                <= high,
    ensures
        ({
            let r = fused(values, dropouts, FusionMode::Mean, last_known_good).value();
            let slack = live_sizes(values, dropouts) + 0x20_0000;
            0x40_0000 * low - slack <= 0x40_0000 * r <= 0x40_0000 * high + slack
        }),
{
    law_mean_is_the_mean(values, dropouts, last_known_good);
    lemma_total_between(values, dropouts, low, high);
    let r = fused(values, dropouts, FusionMode::Mean, last_known_good).value();
    let n = live_count(values, dropouts) as int;
    let slack = (live_sizes(values, dropouts) + 0x20_0000) as int;
    let t = live_total(values, dropouts);
    assert(0x40_0000 * low - slack <= 0x40_0000 * r) by (nonlinear_arith)
        requires
            n > 0,
            n * low <= t,
            0x40_0000 * t - 0x40_0000 * (r * n) <= n * slack,
    ;
    assert(0x40_0000 * r <= 0x40_0000 * high + slack) by (nonlinear_arith)
        requires
            n > 0,
            t <= n * high,
            0x40_0000 * (r * n) - 0x40_0000 * t <= n * slack,
    ;
}

/// One other reading changes the sum by as much.
proof fn lemma_total_updated(values: Seq<Flt>, dropouts: Seq<bool>, i: int, x: Flt)
    requires
        0 <= i < values.len(),
        live(dropouts, i),
    ensures
        live_total(values.update(i, x), dropouts) == live_total(values, dropouts) + x.value()
            - values[i].value(),
        live_count(values.update(i, x), dropouts) == live_count(values, dropouts),
    decreases values.len(),
{
    let changed = values.update(i, x);
    let n = values.len() - 1;
    if i < n {
        assert(changed.drop_last() =~= values.drop_last().update(i, x));
        lemma_total_updated(values.drop_last(), dropouts, i, x);
        assert(changed.last() == values.last());
    } else {
        assert(changed.drop_last() =~= values.drop_last());
        lemma_same_count(changed, values, dropouts);
    }
}

proof fn lemma_same_count(a: Seq<Flt>, b: Seq<Flt>, dropouts: Seq<bool>)
    requires
        a.len() == b.len(),
    ensures
        live_count(a, dropouts) == live_count(b, dropouts),
    decreases a.len(),
{
    if a.len() > 0 {
        lemma_same_count(a.drop_last(), b.drop_last(), dropouts);
    }
}

/// Every live reading has the same weight in the mean: when one of `n` changes,
/// the driver temperature changes by an `n`-th of that, up to rounding.
pub proof fn law_every_live_reading_has_its_weight(
    values: Seq<Flt>,
    dropouts: Seq<bool>,
    last_known_good: Flt,
    i: int,
    x: Flt,
)
    requires
        0 <= i < values.len(),
        live(dropouts, i),
        live_count(values, dropouts) <= 0x80_0000,
        live_finite(values, dropouts),
        x.finite(),
        does_not_overflow(values, dropouts),
        does_not_overflow(values.update(i, x), dropouts),
    ensures
        ({
            let other = values.update(i, x);
            let before = fused(values, dropouts, FusionMode::Mean, last_known_good).value();
            let after = fused(other, dropouts, FusionMode::Mean, last_known_good).value();
            let n = live_count(values, dropouts);
            within(
                0x40_0000 * (after * n - before * n),
                0x40_0000 * (x.value() - values[i].value()),
                n * (live_sizes(values, dropouts) + 0x20_0000) + n * (live_sizes(other, dropouts)
                    + 0x20_0000),
            )
        }),
{
    let other = values.update(i, x);
    lemma_total_updated(values, dropouts, i, x);
    assert(live_finite(other, dropouts)) by {
        assert forall|k: int| 0 <= k < other.len() && live(dropouts, k) implies (
        #[trigger] other[k]).finite() by {
            if k != i {
                assert(other[k] == values[k]);
            }
        }
    }
    lemma_valid(values, dropouts);
    lemma_valid_members(values, dropouts);
    assert(valid(values, dropouts).contains(values[i]));
    law_mean_is_the_mean(values, dropouts, last_known_good);
    law_mean_is_the_mean(other, dropouts, last_known_good);
}

/// What the maximum of some readings is.
proof fn lemma_maximum(vs: Seq<Flt>)
    ensures
        !maximum(vs).nan(),
        forall|k: int|
            0 <= k < vs.len() && !(#[trigger] vs[k]).nan() ==> vs[k].value() <= maximum(vs).value(),
        vs.contains(maximum(vs)) || maximum(vs) == (Flt { bits: NEG_INFINITY_BITS }),
    decreases vs.len(),
{
    if vs.len() > 0 {
        let rest = vs.drop_last();
        lemma_maximum(rest);
        let x = vs.last();
        assert(x == vs[vs.len() - 1]);
        assert forall|k: int| 0 <= k < vs.len() && !(#[trigger] vs[k]).nan() implies vs[k].value()
            <= maximum(vs).value() by {
            if k < rest.len() {
                assert(rest[k] == vs[k]);
            }
        }
        if rest.contains(maximum(rest)) {
            let j = choose|j: int| 0 <= j < rest.len() && rest[j] == maximum(rest);
            assert(vs[j] == maximum(rest));
        }
    }
}

/// In maximum mode the driver temperature is one of the live readings, and no
/// live reading that is a number is greater. Some live reading must be finite,
/// and none infinite upwards.
pub proof fn law_maximum_is_the_largest(
    values: Seq<Flt>,
    dropouts: Seq<bool>,
    last_known_good: Flt,
)
    requires
        exists|i: int|
            0 <= i < values.len() && live(dropouts, i) && (#[trigger] values[i]).finite(),
        forall|i: int|
            0 <= i < values.len() && live(dropouts, i) && (#[trigger] values[i]).infinite()
                ==> values[i].negative(),
    ensures
        ({
            let r = fused(values, dropouts, FusionMode::Max, last_known_good);
            &&& r.finite()
            &&& exists|i: int|
                0 <= i < values.len() && live(dropouts, i) && #[trigger] values[i] == r
            &&& forall|i: int|
                0 <= i < values.len() && live(dropouts, i) && !(#[trigger] values[i]).nan()
                    ==> values[i].value() <= r.value()
        }),
{
    let vs = valid(values, dropouts);
    lemma_valid_members(values, dropouts);
    lemma_maximum(vs);
    let r = maximum(vs);
    let i = choose|i: int|
        0 <= i < values.len() && live(dropouts, i) && (#[trigger] values[i]).finite();
    assert(vs.contains(values[i]));
    let k = choose|k: int| 0 <= k < vs.len() && vs[k] == values[i];
    assert(vs[k].value() <= r.value());
    lemma_units_increasing(values[i].magnitude(), INFINITY_BITS as nat);
    lemma_units_at_least(INFINITY_BITS as nat);
    assert(vs.contains(r));
    let j = choose|j: int| 0 <= j < vs.len() && vs[j] == r;
    let from = choose|i: int| 0 <= i < values.len() && live(dropouts, i) && values[i] == vs[j];
    assert(values[from] == r);
    assert(r.finite());
    assert forall|i: int|
        0 <= i < values.len() && live(dropouts, i) && !(
        #[trigger] values[i]).nan() implies values[i].value() <= r.value() by {
        assert(vs.contains(values[i]));
        let k = choose|k: int| 0 <= k < vs.len() && vs[k] == values[i];
        assert(!vs[k].nan());
    }
}

/// Without a live reading the last good temperature stands, in either mode.
pub proof fn law_blind_fusion_keeps_the_last_good(
    values: Seq<Flt>,
    dropouts: Seq<bool>,
    mode: FusionMode,
    last_known_good: Flt,
)
    requires
        forall|i: int| 0 <= i < values.len() ==> !#[trigger] live(dropouts, i),
    ensures
        fused(values, dropouts, mode, last_known_good) == last_known_good,
{
    lemma_valid_members(values, dropouts);
    let vs = valid(values, dropouts);
    if vs.len() > 0 {
        assert(vs[0] == vs[0]);
        let i = choose|i: int| 0 <= i < values.len() && live(dropouts, i) && values[i] == vs[0];
        assert(live(dropouts, i));
    }
}

} // verus!
