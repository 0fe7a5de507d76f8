//! One driver temperature out of many sensors.

use crate::flt::lemmas::lemma_units_increasing;
use crate::flt::model::{INFINITY_BITS, SIGN_BIT};
use crate::flt::{whole, Flt, NEG_INFINITY_BITS};
use crate::text::same_text;
use vstd::prelude::*;

verus! {

/// How sensors are combined.
#[derive(Debug, Clone, Copy, PartialEq, Eq, Structural)]
pub enum FusionMode {
    Max,
    Mean,
}

impl FusionMode {
    /// `"mean"` is the mean; everything else is the maximum.
    #[must_use]
    pub fn from_str_lossy(s: &str) -> (r: FusionMode)
        ensures
            r == (if s@ == "mean"@ { FusionMode::Mean } else { FusionMode::Max }),
    {
        if same_text(s, "mean") {
            FusionMode::Mean
        } else {
            FusionMode::Max
        }
    }
}

/// The readings of the sensors that did not drop out. A sensor without both a
/// reading and a flag does not count.
pub open spec fn valid(values: Seq<Flt>, dropouts: Seq<bool>) -> Seq<Flt>
    decreases values.len(),
{
    if values.len() == 0 {
        Seq::empty()
    } else {
        let rest = valid(values.drop_last(), dropouts);
        let i = values.len() - 1;
        if i < dropouts.len() && !dropouts[i] {
            rest.push(values[i])
        } else {
            rest
        }
    }
}

/// The largest reading.
pub open spec fn maximum(values: Seq<Flt>) -> Flt
    decreases values.len(),
{
    if values.len() == 0 {
        Flt { bits: NEG_INFINITY_BITS }
    } else {
        maximum(values.drop_last()).larger(values.last())
    }
}

/// The sum of the readings, from left to right.
pub open spec fn sum(values: Seq<Flt>) -> Flt
    decreases values.len(),
{
    if values.len() == 0 {
        Flt { bits: SIGN_BIT }
    } else {
        sum(values.drop_last()).plus(values.last())
    }
}

/// The combined readings.
pub open spec fn combined(values: Seq<Flt>, mode: FusionMode) -> Flt {
    match mode {
        FusionMode::Max => maximum(values),
        FusionMode::Mean => sum(values).over(whole(values.len())),
    }
}

/// The driver temperature: the combined readings, or the last good one when
/// there is none or the result is no finite number.
pub open spec fn fused(
    values: Seq<Flt>,
    dropouts: Seq<bool>,
    mode: FusionMode,
    last_known_good: Flt,
) -> Flt {
    let live = valid(values, dropouts);
    if live.len() == 0 || !combined(live, mode).finite() {
        last_known_good
    } else {
        combined(live, mode)
    }
}

/// Combines the sensors that did not drop out.
pub fn fuse(values: &[Flt], dropouts: &[bool], mode: FusionMode, last_known_good: Flt) -> (r: Flt)
    ensures
        r == fused(values@, dropouts@, mode, last_known_good),
{
    let mut live: Vec<Flt> = Vec::new();
    let mut i: usize = 0;
    assert(values@.take(0) =~= Seq::<Flt>::empty());
    while i < values.len()
        invariant
            i <= values@.len(),
            live@ == valid(values@.take(i as int), dropouts@),
        decreases values@.len() - i,
    {
        assert(values@.take(i + 1).drop_last() =~= values@.take(i as int));
        if i < dropouts.len() && !dropouts[i] {
            live.push(values[i]);
        }
        i = i + 1;
    }
    assert(values@.take(values@.len() as int) =~= values@);
    if live.len() == 0 {
        return last_known_good;
    }
    let result: Flt = match mode {
        FusionMode::Max => max_of(&live),
        FusionMode::Mean => sum_of(&live).div(Flt::from_u64(live.len() as u64)),
    };
    if result.is_finite() {
        result
    } else {
        last_known_good
    }
}

fn max_of(values: &Vec<Flt>) -> (r: Flt)
    ensures
        r == maximum(values@),
{
    let mut r: Flt = Flt { bits: NEG_INFINITY_BITS };
    let mut i: usize = 0;
    while i < values.len()
        invariant
            i <= values@.len(),
            r == maximum(values@.take(i as int)),
        decreases values@.len() - i,
    {
        assert(values@.take(i + 1).drop_last() =~= values@.take(i as int));
        r = r.max(values[i]);
        i = i + 1;
    }
    assert(values@.take(values@.len() as int) =~= values@);
    r
}

fn sum_of(values: &Vec<Flt>) -> (r: Flt)
    ensures
        r == sum(values@),
{
    let mut r: Flt = Flt { bits: SIGN_BIT };
    let mut i: usize = 0;
    while i < values.len()
        invariant
            i <= values@.len(),
            r == sum(values@.take(i as int)),
        decreases values@.len() - i,
    {
        assert(values@.take(i + 1).drop_last() =~= values@.take(i as int));
        r = r.add(values[i]);
        i = i + 1;
    }
    assert(values@.take(values@.len() as int) =~= values@);
    r
}

/// The maximum is one of the readings and none is above it, unless a reading
/// is a NaN.
pub proof fn law_maximum_bounds(values: Seq<Flt>, i: int)
    requires
        0 <= i < values.len(),
        forall|k: int| 0 <= k < values.len() ==> !(#[trigger] values[k]).nan(),
    ensures
        !maximum(values).nan(),
        values.contains(maximum(values)),
        values[i].at_most(maximum(values)),
    decreases values.len(),
{
    let rest = values.drop_last();
    assert forall|k: int| 0 <= k < rest.len() implies !(#[trigger] rest[k]).nan() by {
        assert(rest[k] == values[k]);
    }
    if rest.len() > 0 {
        if i < rest.len() {
            law_maximum_bounds(rest, i);
        } else {
            law_maximum_bounds(rest, 0);
        }
        let j = choose|j: int| 0 <= j < rest.len() && rest[j] == maximum(rest);
        assert(values[j] == maximum(rest));
    } else {
        lemma_units_increasing(0, INFINITY_BITS as nat);
        if values[0].finite() {
            lemma_units_increasing(values[0].magnitude(), INFINITY_BITS as nat);
        }
        assert(maximum(rest) == (Flt { bits: NEG_INFINITY_BITS }));
        assert(maximum(values) == values[0]);
    }
    assert(values[values.len() - 1] == values.last());
}

/// A dropped sensor has no influence: its reading may be anything.
pub proof fn law_dropouts_do_not_count(values: Seq<Flt>, dropouts: Seq<bool>, i: int, other: Flt)
    requires
        0 <= i < values.len(),
        i >= dropouts.len() || dropouts[i],
    ensures
        valid(values.update(i, other), dropouts) == valid(values, dropouts),
    decreases values.len(),
{
    let changed = values.update(i, other);
    if i < values.len() - 1 {
        assert(changed.drop_last() =~= values.drop_last().update(i, other));
        law_dropouts_do_not_count(values.drop_last(), dropouts, i, other);
    } else {
        assert(changed.drop_last() =~= values.drop_last());
    }
}

} // verus!
