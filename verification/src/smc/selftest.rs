//! Judging a self test: medians, differences, and the verdict.

use crate::flt::errors::{law_over_error, law_plus_error, safe_size, within};
use crate::flt::lemmas::lemma_units_decoded;
use crate::flt::model::one;
use crate::flt::{size, Flt, TWO_BITS};
use vstd::arithmetic::power2::{lemma2_to64, lemma_pow2_adds, lemma_pow2_pos, pow2};
use vstd::prelude::*;

verus! {

/// Iterations per fan.
pub const DEFAULT_ITERATIONS: u8 = 5;

/// Readings per hold.
pub const SAMPLES_PER_HOLD: usize = 5;

/// Milliseconds before each reading.
pub const SAMPLE_INTERVAL_MS: u64 = 200;

/// 500.0: a fan that differs by less between its two modes shows nothing.
pub const DELTA_THRESHOLD_BITS: u32 = 0x43FA_0000;

/// The readings of one iteration.
#[derive(Debug, PartialEq, Eq)]
pub struct IterationSample {
    pub iteration: u8,
    pub auto_samples: Vec<Flt>,
    pub min_samples: Vec<Flt>,
    pub auto_median: Flt,
    pub min_median: Flt,
    pub delta_rpm: Flt,
}

/// The verdict on one fan.
#[derive(Debug, PartialEq, Eq)]
pub struct SelftestFanReport {
    pub fan_index: u8,
    pub iterations_completed: u8,
    pub iterations_requested: u8,
    pub round_trip_count: u64,
    pub mismatch_count: u64,
    pub samples: Vec<IterationSample>,
    pub median_actual_at_min: Flt,
    pub median_actual_at_auto: Flt,
    pub delta_rpm: Flt,
    pub result: SelftestResult,
}

/// The verdict.
#[derive(Debug, Clone, Copy, PartialEq, Eq, Structural)]
pub enum SelftestResult {
    /// Every write read back, and the modes differ.
    Pass,
    /// Every write read back, but the modes do not differ enough.
    Inconclusive,
    /// A write read back differently.
    Fail,
    /// The watchdog fired.
    WatchdogTimeout,
    /// Another instance holds the lock.
    ConflictDetected,
}

impl SelftestResult {
    /// The exit code of the process.
    #[must_use]
    pub fn exit_code(self) -> (r: i32)
        ensures
            r == (match self {
                SelftestResult::Pass => 0i32,
                SelftestResult::Inconclusive => 3,
                SelftestResult::Fail => 1,
                SelftestResult::WatchdogTimeout => 4,
                SelftestResult::ConflictDetected => 5,
            }),
    {
        match self {
            SelftestResult::Pass => 0,
            SelftestResult::Inconclusive => 3,
            SelftestResult::Fail => 1,
            SelftestResult::WatchdogTimeout => 4,
            SelftestResult::ConflictDetected => 5,
        }
    }

    /// The verdict as a word.
    pub open spec fn word(self) -> Seq<char> {
        match self {
            SelftestResult::Pass => "pass"@,
            SelftestResult::Inconclusive => "inconclusive"@,
            SelftestResult::Fail => "fail"@,
            SelftestResult::WatchdogTimeout => "watchdog_timeout"@,
            SelftestResult::ConflictDetected => "conflict"@,
        }
    }

    /// The verdict as a word.
    #[must_use]
    pub fn as_str(self) -> (r: &'static str)
        ensures
            r@ == self.word(),
    {
        match self {
            SelftestResult::Pass => "pass",
            SelftestResult::Inconclusive => "inconclusive",
            SelftestResult::Fail => "fail",
            SelftestResult::WatchdogTimeout => "watchdog_timeout",
            SelftestResult::ConflictDetected => "conflict",
        }
    }
}

/// The report on all fans.
#[derive(Debug, PartialEq, Eq)]
pub struct SelftestReport {
    pub per_fan: Vec<SelftestFanReport>,
    pub total_iterations: u32,
    pub total_round_trips: u64,
    pub total_mismatches: u64,
    pub wall_clock_ms: u64,
    pub overall_result: SelftestResult,
}

/// All values are numbers.
pub open spec fn all_numbers(s: Seq<Flt>) -> bool {
    forall|i: int| 0 <= i < s.len() ==> !(#[trigger] s[i]).nan()
}

/// Where a value belongs in a sorted sequence: behind every value that is not
/// above it.
pub open spec fn place(s: Seq<Flt>, x: Flt) -> int
    decreases s.len(),
{
    if s.len() == 0 || s.last().at_most(x) {
        s.len() as int
    } else {
        place(s.drop_last(), x)
    }
}

/// The values in rising order; equal values keep their order.
pub open spec fn sorted(s: Seq<Flt>) -> Seq<Flt>
    decreases s.len(),
{
    if s.len() == 0 {
        s
    } else {
        let rest = sorted(s.drop_last());
        rest.insert(place(rest, s.last()), s.last())
    }
}

/// The middle of the sorted values, or the mean of the two in the middle; zero
/// if there are none.
pub open spec fn median(s: Seq<Flt>) -> Flt {
    let t = sorted(s);
    let n = t.len();
    if n == 0 {
        Flt { bits: 0 }
    } else if n % 2 == 1 {
        t[n as int / 2]
    } else {
        t[n as int / 2 - 1].plus(t[n as int / 2]).over(Flt { bits: TWO_BITS })
    }
}

proof fn lemma_place_bounds(s: Seq<Flt>, x: Flt)
    ensures
        0 <= place(s, x) <= s.len(),
    decreases s.len(),
{
    if s.len() > 0 && !s.last().at_most(x) {
        lemma_place_bounds(s.drop_last(), x);
    }
}

proof fn lemma_sorted_len(s: Seq<Flt>)
    ensures
        sorted(s).len() == s.len(),
    decreases s.len(),
{
    if s.len() > 0 {
        lemma_sorted_len(s.drop_last());
        lemma_place_bounds(sorted(s.drop_last()), s.last());
    }
}

fn place_of(s: &Vec<Flt>, x: Flt) -> (r: usize)
    ensures
        r == place(s@, x),
        r <= s@.len(),
{
    let mut i: usize = s.len();
    assert(s@.take(s@.len() as int) =~= s@);
    while i > 0
        invariant
            i <= s@.len(),
            place(s@.take(i as int), x) == place(s@, x),
        decreases i,
    {
        assert(s@.take(i as int).last() == s@[i - 1]);
        assert(s@.take(i as int).drop_last() =~= s@.take(i - 1));
        if s[i - 1].le(x) {
            return i;
        }
        i = i - 1;
    }
    i
}

/// The median.
#[must_use]
pub fn median_f32(values: &[Flt]) -> (r: Flt)
    ensures
        r == median(values@),
{
    let mut t: Vec<Flt> = Vec::new();
    let mut i: usize = 0;
    assert(values@.take(0) =~= Seq::<Flt>::empty());
    while i < values.len()
        invariant
            i <= values@.len(),
            t@ == sorted(values@.take(i as int)),
        decreases values@.len() - i,
    {
        assert(values@.take(i + 1).drop_last() =~= values@.take(i as int));
        let at: usize = place_of(&t, values[i]);
        t.insert(at, values[i]);
        i = i + 1;
    }
    assert(values@.take(values@.len() as int) =~= values@);
    let n: usize = t.len();
    if n == 0 {
        return Flt { bits: 0 };
    }
    if n % 2 == 1 {
        t[n / 2]
    } else {
        t[n / 2 - 1].add(t[n / 2]).div(Flt { bits: TWO_BITS })
    }
}

/// Summarises the readings of an iteration.
#[must_use]
pub fn classify_iteration(iteration: u8, auto_samples: Vec<Flt>, min_samples: Vec<Flt>) -> (r:
    IterationSample)
    ensures
        r.iteration == iteration,
        r.auto_samples == auto_samples,
        r.min_samples == min_samples,
        r.auto_median == median(auto_samples@),
        r.min_median == median(min_samples@),
        r.delta_rpm == median(auto_samples@).minus(median(min_samples@)),
{
    let auto_median: Flt = median_f32(auto_samples.as_slice());
    let min_median: Flt = median_f32(min_samples.as_slice());
    let delta_rpm: Flt = auto_median.sub(min_median);
    IterationSample { iteration, auto_samples, min_samples, auto_median, min_median, delta_rpm }
}

/// All readings at the forced minimum, in order.
pub open spec fn all_min(s: Seq<IterationSample>) -> Seq<Flt>
    decreases s.len(),
{
    if s.len() == 0 {
        Seq::empty()
    } else {
        all_min(s.drop_last()) + s.last().min_samples@
    }
}

/// All readings in automatic mode, in order.
pub open spec fn all_auto(s: Seq<IterationSample>) -> Seq<Flt>
    decreases s.len(),
{
    if s.len() == 0 {
        Seq::empty()
    } else {
        all_auto(s.drop_last()) + s.last().auto_samples@
    }
}

/// The verdict on a fan: a mismatch or a missing iteration fails it, a large
/// enough difference passes it.
pub open spec fn fan_verdict(
    completed: u8,
    requested: u8,
    mismatches: u64,
    delta: Flt,
) -> SelftestResult {
    if mismatches > 0 || completed < requested {
        SelftestResult::Fail
    } else if (Flt { bits: DELTA_THRESHOLD_BITS }).at_most(delta) {
        SelftestResult::Pass
    } else {
        SelftestResult::Inconclusive
    }
}

fn push_all(to: &mut Vec<Flt>, from: &Vec<Flt>)
    ensures
        final(to)@ == old(to)@ + from@,
{
    let mut i: usize = 0;
    assert(to@ =~= old(to)@ + from@.take(0));
    while i < from.len()
        invariant
            i <= from@.len(),
            to@ == old(to)@ + from@.take(i as int),
        decreases from@.len() - i,
    {
        to.push(from[i]);
        assert(to@ =~= old(to)@ + from@.take(i + 1));
        i = i + 1;
    }
    assert(from@.take(from@.len() as int) =~= from@);
}

/// Judges a fan by its readings.
#[must_use]
pub fn classify_fan(
    fan_index: u8,
    iterations_completed: u8,
    iterations_requested: u8,
    round_trip_count: u64,
    mismatch_count: u64,
    samples: Vec<IterationSample>,
) -> (r: SelftestFanReport)
    ensures
        r.fan_index == fan_index,
        r.iterations_completed == iterations_completed,
        r.iterations_requested == iterations_requested,
        r.round_trip_count == round_trip_count,
        r.mismatch_count == mismatch_count,
        r.samples == samples,
        r.median_actual_at_min == median(all_min(samples@)),
        r.median_actual_at_auto == median(all_auto(samples@)),
        r.delta_rpm == median(all_auto(samples@)).minus(median(all_min(samples@))),
        r.result == fan_verdict(
            iterations_completed,
            iterations_requested,
            mismatch_count,
            r.delta_rpm,
        ),
{
    let mut mins: Vec<Flt> = Vec::new();
    let mut autos: Vec<Flt> = Vec::new();
    let mut i: usize = 0;
    assert(samples@.take(0) =~= Seq::<IterationSample>::empty());
    while i < samples.len()
        invariant
            i <= samples@.len(),
            mins@ == all_min(samples@.take(i as int)),
            autos@ == all_auto(samples@.take(i as int)),
        decreases samples@.len() - i,
    {
        assert(samples@.take(i + 1).drop_last() =~= samples@.take(i as int));
        push_all(&mut mins, &samples[i].min_samples);
        push_all(&mut autos, &samples[i].auto_samples);
        i = i + 1;
    }
    assert(samples@.take(samples@.len() as int) =~= samples@);
    let median_actual_at_min: Flt = median_f32(mins.as_slice());
    let median_actual_at_auto: Flt = median_f32(autos.as_slice());
    let delta_rpm: Flt = median_actual_at_auto.sub(median_actual_at_min);
    let threshold: Flt = Flt { bits: DELTA_THRESHOLD_BITS };
    let result: SelftestResult = if mismatch_count > 0 {
        SelftestResult::Fail
    } else if iterations_completed < iterations_requested {
        SelftestResult::Fail
    } else if threshold.le(delta_rpm) {
        SelftestResult::Pass
    } else {
        SelftestResult::Inconclusive
    };
    SelftestFanReport {
        fan_index,
        iterations_completed,
        iterations_requested,
        round_trip_count,
        mismatch_count,
        samples,
        median_actual_at_min,
        median_actual_at_auto,
        delta_rpm,
        result,
    }
}

/// Iterations of all fans.
pub open spec fn iterations_of(s: Seq<SelftestFanReport>) -> nat
    decreases s.len(),
{
    if s.len() == 0 {
        0
    } else {
        iterations_of(s.drop_last()) + s.last().iterations_completed as nat
    }
}

/// Round trips of all fans.
pub open spec fn round_trips_of(s: Seq<SelftestFanReport>) -> nat
    decreases s.len(),
{
    if s.len() == 0 {
        0
    } else {
        round_trips_of(s.drop_last()) + s.last().round_trip_count as nat
    }
}

/// Mismatches of all fans.
pub open spec fn mismatches_of(s: Seq<SelftestFanReport>) -> nat
    decreases s.len(),
{
    if s.len() == 0 {
        0
    } else {
        mismatches_of(s.drop_last()) + s.last().mismatch_count as nat
    }
}

/// The verdict on all fans: a mismatch fails, then one inconclusive fan makes
/// the whole inconclusive; what is left passes if every fan passed.
pub open spec fn overall_verdict(s: Seq<SelftestFanReport>) -> SelftestResult {
    if mismatches_of(s) > 0 {
        SelftestResult::Fail
    } else if exists|i: int|
        0 <= i < s.len() && (#[trigger] s[i]).result == SelftestResult::Inconclusive {
        SelftestResult::Inconclusive
    } else if forall|i: int|
        0 <= i < s.len() ==> (#[trigger] s[i]).result == SelftestResult::Pass {
        SelftestResult::Pass
    } else {
        SelftestResult::Fail
    }
}

proof fn lemma_sums_grow(s: Seq<SelftestFanReport>, i: int)
    requires
        0 <= i <= s.len(),
    ensures
        iterations_of(s.take(i)) <= iterations_of(s),
        round_trips_of(s.take(i)) <= round_trips_of(s),
        mismatches_of(s.take(i)) <= mismatches_of(s),
    decreases s.len() - i,
{
    if i < s.len() {
        assert(s.take(i + 1).drop_last() =~= s.take(i));
        lemma_sums_grow(s, i + 1);
    } else {
        assert(s.take(i) =~= s);
    }
}

impl SelftestReport {
    /// Judges all fans. The sums must fit.
    #[must_use]
    pub fn classify(per_fan: Vec<SelftestFanReport>, wall_clock_ms: u64) -> (r: SelftestReport)
        requires
            iterations_of(per_fan@) <= u32::MAX,
            round_trips_of(per_fan@) <= u64::MAX,
            mismatches_of(per_fan@) <= u64::MAX,
        ensures
            r.per_fan == per_fan,
            r.total_iterations == iterations_of(per_fan@),
            r.total_round_trips == round_trips_of(per_fan@),
            r.total_mismatches == mismatches_of(per_fan@),
            r.wall_clock_ms == wall_clock_ms,
            r.overall_result == overall_verdict(per_fan@),
    {
        let mut total_iterations: u32 = 0;
        let mut total_round_trips: u64 = 0;
        let mut total_mismatches: u64 = 0;
        let mut inconclusive: bool = false;
        let mut passed: bool = true;
        let mut i: usize = 0;
        assert(per_fan@.take(0) =~= Seq::<SelftestFanReport>::empty());
        while i < per_fan.len()
            invariant
                i <= per_fan@.len(),
                iterations_of(per_fan@) <= u32::MAX,
                round_trips_of(per_fan@) <= u64::MAX,
                mismatches_of(per_fan@) <= u64::MAX,
                total_iterations == iterations_of(per_fan@.take(i as int)),
                total_round_trips == round_trips_of(per_fan@.take(i as int)),
                total_mismatches == mismatches_of(per_fan@.take(i as int)),
                inconclusive <==> exists|k: int|
                    0 <= k < i && (#[trigger] per_fan@[k]).result == SelftestResult::Inconclusive,
                passed <==> forall|k: int|
                    0 <= k < i ==> (#[trigger] per_fan@[k]).result == SelftestResult::Pass,
            decreases per_fan@.len() - i,
        {
            proof {
                assert(per_fan@.take(i + 1).drop_last() =~= per_fan@.take(i as int));
                assert(per_fan@.take(i + 1).last() == per_fan@[i as int]);
                lemma_sums_grow(per_fan@, i + 1);
            }
            total_iterations = total_iterations + per_fan[i].iterations_completed as u32;
            total_round_trips = total_round_trips + per_fan[i].round_trip_count;
            total_mismatches = total_mismatches + per_fan[i].mismatch_count;
            if per_fan[i].result == SelftestResult::Inconclusive {
                inconclusive = true;
            }
            if per_fan[i].result != SelftestResult::Pass {
                passed = false;
            }
            i = i + 1;
        }
        assert(per_fan@.take(per_fan@.len() as int) =~= per_fan@);
        let overall_result: SelftestResult = if total_mismatches > 0 {
            SelftestResult::Fail
        } else if inconclusive {
            SelftestResult::Inconclusive
        } else if passed {
            SelftestResult::Pass
        } else {
            SelftestResult::Fail
        };
        SelftestReport {
            per_fan,
            total_iterations,
            total_round_trips,
            total_mismatches,
            wall_clock_ms,
            overall_result,
        }
    }
}

/// The reports on one fan.
pub open spec fn those_of(s: Seq<SelftestFanReport>, fan: u8) -> Seq<SelftestFanReport>
    decreases s.len(),
{
    if s.len() == 0 {
        Seq::empty()
    } else if s.last().fan_index == fan {
        those_of(s.drop_last(), fan).push(s.last())
    } else {
        those_of(s.drop_last(), fan)
    }
}

/// The reports that were asked for: on one fan, or on all of them.
pub open spec fn asked_for(s: Seq<SelftestFanReport>, target: Option<u8>) -> Seq<
    SelftestFanReport,
> {
    match target {
        Some(fan) => those_of(s, fan),
        None => s,
    }
}

proof fn lemma_part_sums(s: Seq<SelftestFanReport>, fan: u8)
    ensures
        iterations_of(those_of(s, fan)) <= iterations_of(s),
        round_trips_of(those_of(s, fan)) <= round_trips_of(s),
        mismatches_of(those_of(s, fan)) <= mismatches_of(s),
    decreases s.len(),
{
    if s.len() > 0 {
        let t = s.drop_last();
        lemma_part_sums(t, fan);
        assert(those_of(t, fan).push(s.last()).drop_last() =~= those_of(t, fan));
    }
}

impl SelftestReport {
    /// The sums and the verdict are those of the reports.
    pub open spec fn consistent(self) -> bool {
        &&& self.total_iterations == iterations_of(self.per_fan@)
        &&& self.total_round_trips == round_trips_of(self.per_fan@)
        &&& self.total_mismatches == mismatches_of(self.per_fan@)
        &&& self.overall_result == overall_verdict(self.per_fan@)
    }

    /// The report on one fan, or on all of them: sums and verdict are those of
    /// the fans that it is on.
    #[must_use]
    pub fn narrowed(self, target: Option<u8>) -> (r: SelftestReport)
        requires
            self.consistent(),
        ensures
            r.consistent(),
            r.per_fan@ == asked_for(self.per_fan@, target),
            r.wall_clock_ms == self.wall_clock_ms,
    {
        let fan: u8 = match target {
            Some(f) => f,
            None => {
                return self;
            },
        };
        let wall_clock_ms: u64 = self.wall_clock_ms;
        let mut rest: Vec<SelftestFanReport> = self.per_fan;
        let ghost all = rest@;
        let mut kept: Vec<SelftestFanReport> = Vec::new();
        assert(those_of(all, fan) + kept@ =~= those_of(all, fan));
        while rest.len() > 0
            invariant
                those_of(rest@, fan) + kept@ == those_of(all, fan),
            decreases rest@.len(),
        {
            let ghost before = rest@;
            let ghost late = kept@;
            if let Some(report) = rest.pop() {
                assert(rest@ =~= before.drop_last());
                if report.fan_index == fan {
                    kept.insert(0, report);
                    assert(those_of(rest@, fan) + kept@ =~= those_of(before, fan) + late);
                }
            }
        }
        assert(kept@ =~= those_of(all, fan));
        proof {
            lemma_part_sums(all, fan);
        }
        SelftestReport::classify(kept, wall_clock_ms)
    }
}

/// The values are in rising order.
pub open spec fn ordered(s: Seq<Flt>) -> bool {
    forall|i: int, j: int|
        0 <= i < j < s.len() ==> (#[trigger] s[i]).at_most(#[trigger] s[j])
}

proof fn lemma_place_splits(s: Seq<Flt>, x: Flt)
    requires
        ordered(s),
        all_numbers(s),
        !x.nan(),
    ensures
        forall|i: int| 0 <= i < place(s, x) ==> (#[trigger] s[i]).at_most(x),
        forall|i: int| place(s, x) <= i < s.len() ==> x.at_most(#[trigger] s[i]),
    decreases s.len(),
{
    lemma_place_bounds(s, x);
    if s.len() > 0 {
        let t = s.drop_last();
        assert(forall|i: int| 0 <= i < t.len() ==> t[i] == s[i]);
        if s.last().at_most(x) {
            assert forall|i: int| 0 <= i < s.len() implies (#[trigger] s[i]).at_most(x) by {
                if i < s.len() - 1 {
                    assert(s[i].at_most(s[s.len() - 1]));
                }
            }
        } else {
            lemma_place_splits(t, x);
            lemma_place_bounds(t, x);
            assert forall|i: int| 0 <= i < place(s, x) implies (#[trigger] s[i]).at_most(x) by {
                assert(t[i] == s[i]);
            }
            assert forall|i: int| place(s, x) <= i < s.len() implies x.at_most(
                #[trigger] s[i],
            ) by {
                if i < t.len() {
                    assert(t[i] == s[i]);
                }
            }
        }
    }
}

/// Sorting numbers puts them in rising order, and neither loses nor invents
/// any.
pub proof fn law_sorting(s: Seq<Flt>)
    requires
        all_numbers(s),
    ensures
        ordered(sorted(s)),
        all_numbers(sorted(s)),
        sorted(s).to_multiset() == s.to_multiset(),
    decreases s.len(),
{
    if s.len() > 0 {
        let t = s.drop_last();
        let x = s.last();
        assert(all_numbers(t)) by {
            assert forall|i: int| 0 <= i < t.len() implies !(#[trigger] t[i]).nan() by {
                assert(t[i] == s[i]);
            }
        }
        law_sorting(t);
        let r = sorted(t);
        let k = place(r, x);
        lemma_place_bounds(r, x);
        lemma_place_splits(r, x);
        let out = r.insert(k, x);
        assert forall|i: int, j: int| 0 <= i < j < out.len() implies (
        #[trigger] out[i]).at_most(#[trigger] out[j]) by {
            let a = if i < k { i } else { i - 1 };
            let b = if j < k { j } else { j - 1 };
            if i == k {
                assert(out[j] == r[b]);
            } else if j == k {
                assert(out[i] == r[a]);
            } else {
                assert(out[i] == r[a] && out[j] == r[b]);
            }
        }
        assert forall|i: int| 0 <= i < out.len() implies !(#[trigger] out[i]).nan() by {
            if i != k {
                assert(out[i] == r[if i < k { i } else { i - 1 }]);
            }
        }
        assert(s =~= t.push(x));
        broadcast use vstd::seq_lib::group_to_multiset_ensures;

        vstd::seq_lib::to_multiset_insert(r, k, x);
    } else {
        assert(sorted(s) =~= s);
    }
}

/// The whole passes only if every fan passed, and does not pass after a
/// mismatch.
pub proof fn law_overall_pass_means_every_fan(s: Seq<SelftestFanReport>, i: int)
    requires
        overall_verdict(s) == SelftestResult::Pass,
        0 <= i < s.len(),
    ensures
        s[i].result == SelftestResult::Pass,
        s[i].mismatch_count == 0,
    decreases s.len(),
{
    lemma_no_mismatch(s, i);
}

proof fn lemma_no_mismatch(s: Seq<SelftestFanReport>, i: int)
    requires
        mismatches_of(s) == 0,
        0 <= i < s.len(),
    ensures
        s[i].mismatch_count == 0,
    decreases s.len(),
{
    if i < s.len() - 1 {
        lemma_no_mismatch(s.drop_last(), i);
    }
}

/// A fan passes only if every write read back, every iteration was completed,
/// and the modes differ by at least 500 revolutions per minute.
pub proof fn law_pass_means_everything(
    completed: u8,
    requested: u8,
    mismatches: u64,
    delta: Flt,
)
    requires
        fan_verdict(completed, requested, mismatches, delta) == SelftestResult::Pass,
    ensures
        mismatches == 0,
        completed >= requested,
        (Flt { bits: DELTA_THRESHOLD_BITS }).at_most(delta),
{
}

/// A value is the middle of an ordered sequence: the value in the middle, or, up
/// to rounding, the mean of the two in the middle.
pub open spec fn middle_of(m: Flt, t: Seq<Flt>) -> bool {
    let h = t.len() as int / 2;
    let both = t[h - 1].value() + t[h].value();
    &&& t.len() % 2 == 1 ==> m == t[h]
    &&& t.len() % 2 == 0 ==> m.finite() && within(
        0x40_0000 * (2 * m.value()),
        0x40_0000 * both,
        size(both) + 0x40_0000,
    )
}

/// The median of some speeds is the middle of them, put in order.
pub proof fn law_median_is_the_middle(s: Seq<Flt>)
    requires
        s.len() > 0,
        forall|i: int|
            0 <= i < s.len() ==> (#[trigger] s[i]).finite() && size(s[i].value()) <= pow2(270),
    ensures
        exists|t: Seq<Flt>|
            #![trigger ordered(t)]
            ordered(t) && t.to_multiset() == s.to_multiset() && middle_of(median(s), t),
{
    assert(all_numbers(s));
    law_sorting(s);
    lemma_sorted_len(s);
    let t = sorted(s);
    assert forall|i: int| 0 <= i < t.len() implies (#[trigger] t[i]).finite() && size(
        t[i].value(),
    ) <= pow2(270) by {
        broadcast use vstd::seq_lib::group_to_multiset_ensures;

        assert(t.contains(t[i]));
        assert(t.to_multiset().count(t[i]) > 0);
        assert(s.to_multiset().count(t[i]) > 0);
        assert(s.contains(t[i]));
        let j = choose|j: int| 0 <= j < s.len() && s[j] == t[i];
        assert(s[j].finite());
    }
    if t.len() % 2 == 0 {
        let h = t.len() as int / 2;
        let (a, b) = (t[h - 1], t[h]);
        assert(a.finite() && b.finite());
        let both = a.value() + b.value();
        lemma2_to64();
        lemma_pow2_adds(6, 270);
        lemma_pow2_pos(270);
        lemma_pow2_pos(149);
        law_plus_error(a, b);
        let x = a.plus(b);
        let two = Flt { bits: TWO_BITS };
        lemma_units_decoded(TWO_BITS as nat, 0x0080_0000, 127);
        lemma_pow2_adds(23, 127);
        lemma_pow2_adds(1, 149);
        let o = one() as int;
        assert(two.value() == 2 * o);
        law_over_error(x, two);
        let (v, r) = (x.value(), x.over(two).value());
        let mv = size(v) as int;
        assert(mv * o <= safe_size() * (2 * o)) by (nonlinear_arith)
            requires
                mv <= 2 * safe_size(),
                o > 0,
        ;
        assert(r * (2 * o) == (2 * r) * o) by (nonlinear_arith);
        let e = 0x0100_0000 * (2 * r) - 0x0100_0000 * v;
        assert(-(mv + 0x0100_0000) <= e <= mv + 0x0100_0000) by (nonlinear_arith)
            requires
                o > 0,
                e == 0x0100_0000 * (2 * r) - 0x0100_0000 * v,
                0x0100_0000 * ((2 * r) * o) - 0x0100_0000 * (v * o) <= mv * o + 0x0080_0000 * (2
                    * o),
                0x0100_0000 * (v * o) - 0x0100_0000 * ((2 * r) * o) <= mv * o + 0x0080_0000 * (2
                    * o),
        ;
    }
    assert(ordered(t));
}

/// The verdict on a fan, by values: a mismatch or a missing iteration fails it;
/// else it passes exactly if the modes differ by at least 500 revolutions per
/// minute, and shows nothing if not.
pub proof fn law_verdict_by_values(completed: u8, requested: u8, mismatches: u64, delta: Flt)
    ensures
        fan_verdict(completed, requested, mismatches, delta) == (if mismatches > 0 || completed
            < requested {
            SelftestResult::Fail
        } else if !delta.nan() && delta.value() >= 500 * one() {
            SelftestResult::Pass
        } else {
            SelftestResult::Inconclusive
        }),
{
    lemma_units_decoded(DELTA_THRESHOLD_BITS as nat, 0x00FA_0000, 134);
    lemma2_to64();
    lemma_pow2_adds(15, 134);
    assert(0x00FA_0000 * pow2(134) == 500 * (0x8000 * pow2(134)));
}

/// Fans that all passed without a mismatch make the whole pass.
pub proof fn law_every_fan_passing_means_overall_pass(s: Seq<SelftestFanReport>)
    requires
        forall|i: int|
            0 <= i < s.len() ==> (#[trigger] s[i]).result == SelftestResult::Pass
                && s[i].mismatch_count == 0,
    ensures
        overall_verdict(s) == SelftestResult::Pass,
{
    lemma_none_mismatch(s);
}

proof fn lemma_none_mismatch(s: Seq<SelftestFanReport>)
    requires
        forall|i: int| 0 <= i < s.len() ==> (#[trigger] s[i]).mismatch_count == 0,
    ensures
        mismatches_of(s) == 0,
    decreases s.len(),
{
    if s.len() > 0 {
        let t = s.drop_last();
        assert forall|i: int| 0 <= i < t.len() implies (#[trigger] t[i]).mismatch_count == 0 by {
            assert(t[i] == s[i]);
        }
        lemma_none_mismatch(t);
        assert(s.last() == s[s.len() - 1]);
    }
}

} // verus!
