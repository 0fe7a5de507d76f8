//! The emergency latch: full speed when the machine is too hot.

use crate::flt::Flt;
use vstd::prelude::*;

verus! {

/// What the latch demands.
#[derive(Debug, Clone, Copy, PartialEq, Eq, Structural)]
pub enum PanicAction {
    /// Run the fan at its maximum.
    ForceFxMx,
    /// Let the pipeline decide.
    Passthrough,
}

/// The latch. Times are nanoseconds on a clock that never goes back.
#[derive(Debug, Clone, Copy, PartialEq, Eq)]
pub struct PanicState {
    pub latched: bool,
    pub consecutive_above: u8,
    pub entered_at: Option<u64>,
}

impl PanicState {
    #[must_use]
    pub fn new() -> (r: PanicState)
        ensures
            r == (PanicState { latched: false, consecutive_above: 0, entered_at: None }),
    {
        PanicState { latched: false, consecutive_above: 0, entered_at: None }
    }
}

impl Default for PanicState {
    fn default() -> (r: PanicState)
        ensures
            r == (PanicState { latched: false, consecutive_above: 0, entered_at: None }),
    {
        PanicState::new()
    }
}

/// Whole seconds between two times.
pub open spec fn seconds_between(from: u64, to: u64) -> nat {
    (if to < from {
        0
    } else {
        (to - from) / 1_000_000_000
    }) as nat
}

/// Ticks in a row above the threshold, up to 255.
pub open spec fn counted(state: PanicState, hot: bool) -> u8 {
    if !hot {
        0
    } else if state.consecutive_above < 255 {
        (state.consecutive_above + 1) as u8
    } else {
        255
    }
}

/// The latch after the count: two hot ticks in a row set it.
pub open spec fn latching(state: PanicState, hot: bool, now: u64) -> PanicState {
    let n = counted(state, hot);
    if !state.latched && n >= 2 {
        PanicState { latched: true, consecutive_above: n, entered_at: Some(now) }
    } else {
        PanicState { consecutive_above: n, ..state }
    }
}

/// The latch lets go: it is cool again, and the hold time is over.
pub open spec fn releases(state: PanicState, hot: bool, hold_secs: u32, now: u64) -> bool {
    &&& state.latched
    &&& !hot
    &&& state.entered_at matches Some(entered) && seconds_between(entered, now) >= hold_secs
}

/// The latch after a tick, and what it demands.
pub open spec fn checked(state: PanicState, hot: bool, hold_secs: u32, now: u64) -> (
    PanicState,
    PanicAction,
) {
    let s = latching(state, hot, now);
    if releases(s, hot, hold_secs, now) {
        (
            PanicState { latched: false, consecutive_above: 0, entered_at: None },
            PanicAction::Passthrough,
        )
    } else if s.latched {
        (s, PanicAction::ForceFxMx)
    } else {
        (s, PanicAction::Passthrough)
    }
}

/// The latch after a reading, and what it demands. A reading that is no number
/// is neither above the threshold nor at or below it: it breaks the count, and
/// does not release.
pub open spec fn stepped(state: PanicState, raw: Flt, threshold: Flt, hold: u32, now: u64) -> (
    PanicState,
    PanicAction,
) {
    let hot = threshold.less(raw);
    let s = latching(state, hot, now);
    if hot || raw.at_most(threshold) {
        checked(state, hot, hold, now)
    } else if s.latched {
        (s, PanicAction::ForceFxMx)
    } else {
        (s, PanicAction::Passthrough)
    }
}

/// One tick of the latch.
pub fn check(
    state: &mut PanicState,
    raw_temp: Flt,
    threshold: Flt,
    hold_secs: u32,
    now: u64,
) -> (r: PanicAction)
    ensures
        (*final(state), r) == stepped(*old(state), raw_temp, threshold, hold_secs, now),
{
    if threshold.lt(raw_temp) {
        state.consecutive_above = state.consecutive_above.saturating_add(1);
    } else {
        state.consecutive_above = 0;
    }
    if !state.latched && state.consecutive_above >= 2 {
        state.latched = true;
        state.entered_at = Some(now);
    }
    if state.latched {
        if raw_temp.le(threshold) {
            if let Some(entered) = state.entered_at {
                let elapsed: u64 = if now < entered {
                    0
                } else {
                    (now - entered) / 1_000_000_000
                };
                if elapsed >= hold_secs as u64 {
                    state.latched = false;
                    state.entered_at = None;
                    state.consecutive_above = 0;
                    return PanicAction::Passthrough;
                }
            }
        }
        return PanicAction::ForceFxMx;
    }
    PanicAction::Passthrough
}

/// One hot tick after a cool one does not set the latch.
pub proof fn law_one_hot_tick_does_not_latch(state: PanicState, hold: u32, now: u64)
    requires
        !state.latched,
        state.consecutive_above == 0,
    ensures
        !checked(state, true, hold, now).0.latched,
        checked(state, true, hold, now).1 == PanicAction::Passthrough,
{
}

/// Two hot ticks in a row demand full speed.
pub proof fn law_two_hot_ticks_latch(state: PanicState, hold: u32, first: u64, second: u64)
    ensures
        checked(checked(state, true, hold, first).0, true, hold, second).0.latched,
        checked(checked(state, true, hold, first).0, true, hold, second).1
            == PanicAction::ForceFxMx,
{
}

/// Until the hold time is over, a set latch demands full speed at any
/// temperature and keeps the time at which it was set.
pub proof fn law_hold_keeps_full_speed(
    state: PanicState,
    hot: bool,
    hold: u32,
    entered: u64,
    now: u64,
)
    requires
        state.latched,
        state.entered_at == Some(entered),
        seconds_between(entered, now) < hold,
    ensures
        checked(state, hot, hold, now).1 == PanicAction::ForceFxMx,
        checked(state, hot, hold, now).0.latched,
        checked(state, hot, hold, now).0.entered_at == Some(entered),
{
}

/// A hot tick never releases the latch.
pub proof fn law_hot_ticks_never_release(state: PanicState, hold: u32, now: u64)
    requires
        state.latched,
    ensures
        checked(state, true, hold, now).0.latched,
        checked(state, true, hold, now).1 == PanicAction::ForceFxMx,
{
}

/// Once it is cool and the hold time is over, the latch is as new.
pub proof fn law_release_after_hold(state: PanicState, hold: u32, entered: u64, now: u64)
    requires
        state.latched,
        state.entered_at == Some(entered),
        seconds_between(entered, now) >= hold,
    ensures
        checked(state, false, hold, now).1 == PanicAction::Passthrough,
        checked(state, false, hold, now).0 == (PanicState {
            latched: false,
            consecutive_above: 0,
            entered_at: None,
        }),
{
}

/// The reading is a number greater than the threshold.
pub open spec fn above(raw: Flt, threshold: Flt) -> bool {
    !raw.nan() && !threshold.nan() && raw.value() > threshold.value()
}

/// The reading is a number that is not greater than the threshold.
pub open spec fn not_above(raw: Flt, threshold: Flt) -> bool {
    !raw.nan() && !threshold.nan() && raw.value() <= threshold.value()
}

/// The nanoseconds of whole seconds.
pub open spec fn nanoseconds(seconds: u32) -> int {
    seconds * 1_000_000_000
}

/// Two readings in a row that are greater than the threshold leave the latch set
/// and demand full speed, whatever was before. The second one sets it, and its
/// time is kept, if nothing hot came before.
pub proof fn law_two_readings_above_set_the_latch(
    state: PanicState,
    threshold: Flt,
    first: Flt,
    second: Flt,
    hold: u32,
    t1: u64,
    t2: u64,
)
    requires
        above(first, threshold),
        above(second, threshold),
    ensures
        ({
            let (s1, a1) = stepped(state, first, threshold, hold, t1);
            let (s2, a2) = stepped(s1, second, threshold, hold, t2);
            &&& s2.latched
            &&& a2 == PanicAction::ForceFxMx
            &&& !state.latched && state.consecutive_above == 0 ==> {
                &&& !s1.latched
                &&& a1 == PanicAction::Passthrough
                &&& s2.entered_at == Some(t2)
            }
        }),
{
}

/// A reading at or below the threshold, or one that is no number, is not hot: it
/// ends the row of hot ones and sets no latch.
pub proof fn law_other_readings_are_not_hot(
    state: PanicState,
    threshold: Flt,
    raw: Flt,
    hold: u32,
    now: u64,
)
    requires
        !above(raw, threshold),
    ensures
        ({
            let (s, a) = stepped(state, raw, threshold, hold, now);
            &&& s.consecutive_above == 0
            &&& !state.latched ==> !s.latched && a == PanicAction::Passthrough
        }),
{
}

/// Full speed is demanded exactly while the latch is set.
pub proof fn law_full_speed_means_latched(
    state: PanicState,
    threshold: Flt,
    raw: Flt,
    hold: u32,
    now: u64,
)
    ensures
        stepped(state, raw, threshold, hold, now).1 == PanicAction::ForceFxMx <==> stepped(
            state,
            raw,
            threshold,
            hold,
            now,
        ).0.latched,
{
}

/// A set latch opens exactly when a reading is at or below the threshold and the
/// hold time has passed since it was set. It is then as new; until then it keeps
/// the time at which it was set.
pub proof fn law_latch_opens_when_cool_and_held(
    state: PanicState,
    threshold: Flt,
    raw: Flt,
    hold: u32,
    entered: u64,
    now: u64,
)
    requires
        state.latched,
        state.entered_at == Some(entered),
        entered <= now,
    ensures
        ({
            let (s, a) = stepped(state, raw, threshold, hold, now);
            let opens = not_above(raw, threshold) && now - entered >= nanoseconds(hold);
            &&& s.latched == !opens
            &&& opens ==> s == (PanicState {
                latched: false,
                consecutive_above: 0,
                entered_at: None,
            })
            &&& !opens ==> s.entered_at == Some(entered)
        }),
{
    let elapsed = (now - entered) as int;
    assert(elapsed / 1_000_000_000 >= hold <==> elapsed >= hold * 1_000_000_000);
}

/// The latch after a row of readings, each with its time.
pub open spec fn stepping(
    state: PanicState,
    readings: Seq<(Flt, u64)>,
    threshold: Flt,
    hold: u32,
) -> PanicState
    decreases readings.len(),
{
    if readings.len() == 0 {
        state
    } else {
        let (raw, now) = readings.last();
        stepped(stepping(state, readings.drop_last(), threshold, hold), raw, threshold, hold, now).0
    }
}

/// As long as no two neighbours in a row of readings are greater than the
/// threshold, the latch stays open.
pub proof fn law_lone_hot_readings_never_latch(
    readings: Seq<(Flt, u64)>,
    threshold: Flt,
    hold: u32,
)
    requires
        forall|i: int|
            0 < i < readings.len() ==> !(above(readings[i - 1].0, threshold) && above(
                (#[trigger] readings[i]).0,
                threshold,
            )),
    ensures
        ({
            let new = PanicState { latched: false, consecutive_above: 0, entered_at: None };
            let s = stepping(new, readings, threshold, hold);
            &&& !s.latched
            &&& s.consecutive_above == (if readings.len() > 0 && above(
                readings.last().0,
                threshold,
            ) {
                1int
            } else {
                0int
            })
        }),
    decreases readings.len(),
{
    if readings.len() > 0 {
        let rest = readings.drop_last();
        assert forall|i: int| 0 < i < rest.len() implies !(above(rest[i - 1].0, threshold)
            && above((#[trigger] rest[i]).0, threshold)) by {
            assert(rest[i] == readings[i]);
        }
        law_lone_hot_readings_never_latch(rest, threshold, hold);
        if rest.len() > 0 {
            assert(rest.last() == readings[readings.len() - 2]);
            assert(readings.last() == readings[readings.len() - 1]);
        }
    }
}

} // verus!
