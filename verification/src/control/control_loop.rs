//! The tick of a fan, and the counters of the daemon.

use super::curve::{evaluate, evaluated};
use super::ema::{smooth, smoothed};
use super::fusion::{fuse, fused, FusionMode};
use super::hysteresis::{applied, apply, HysteresisState};
use super::panic::{check, stepped, PanicAction, PanicState};
use super::slew::{limit, limited};
use super::state::{clamped_target, floor_of, ClampedRpm};
use crate::flt::{whole, Flt};
use vstd::prelude::*;

verus! {

/// Counters of the daemon, and the requests that it has received.
#[derive(Debug, Clone, PartialEq, Eq)]
pub struct DaemonState {
    pub tick_count: u64,
    pub tick_latency_us: [u64; 6],
    pub total_panic_entries: u32,
    pub total_sensor_dropouts: u32,
    pub total_reclaim_events: u32,
    pub last_reload_at: Option<u64>,
    pub last_tick_completed_at: u64,
    pub shutdown: bool,
    pub reload: bool,
    pub sleep_pending: bool,
    pub wake_pending: bool,
    pub shutdown_count: u8,
}

/// The latency class of a duration in microseconds.
pub open spec fn latency_bucket(us: u64) -> int {
    if us < 100 {
        0
    } else if us < 1_000 {
        1
    } else if us < 10_000 {
        2
    } else if us < 100_000 {
        3
    } else if us < 500_000 {
        4
    } else {
        5
    }
}

/// One more, up to the largest number.
pub open spec fn one_more(n: u64) -> u64 {
    if n < u64::MAX {
        (n + 1) as u64
    } else {
        u64::MAX
    }
}

impl DaemonState {
    #[must_use]
    pub fn new(
        last_tick: u64,
        shutdown: bool,
        reload: bool,
        sleep_pending: bool,
        wake_pending: bool,
        shutdown_count: u8,
    ) -> (r: DaemonState)
        ensures
            r.tick_count == 0,
            r.tick_latency_us@ == seq![0u64, 0, 0, 0, 0, 0],
            r.total_panic_entries == 0,
            r.total_sensor_dropouts == 0,
            r.total_reclaim_events == 0,
            r.last_reload_at is None,
            r.last_tick_completed_at == last_tick,
            r.shutdown == shutdown,
            r.reload == reload,
            r.sleep_pending == sleep_pending,
            r.wake_pending == wake_pending,
            r.shutdown_count == shutdown_count,
    {
        let tick_latency_us: [u64; 6] = [0; 6];
        assert(tick_latency_us@ =~= seq![0u64, 0, 0, 0, 0, 0]);
        DaemonState {
            tick_count: 0,
            tick_latency_us,
            total_panic_entries: 0,
            total_sensor_dropouts: 0,
            total_reclaim_events: 0,
            last_reload_at: None,
            last_tick_completed_at: last_tick,
            shutdown,
            reload,
            sleep_pending,
            wake_pending,
            shutdown_count,
        }
    }

    /// Counts a tick in its latency class.
    pub fn record_latency(&mut self, us: u64)
        ensures
            final(self).tick_latency_us@ == old(self).tick_latency_us@.update(
                latency_bucket(us),
                one_more(old(self).tick_latency_us@[latency_bucket(us)]),
            ),
            *final(self) == (DaemonState {
                tick_latency_us: final(self).tick_latency_us,
                ..*old(self)
            }),
    {
        let bucket: usize = if us < 100 {
            0
        } else if us < 1_000 {
            1
        } else if us < 10_000 {
            2
        } else if us < 100_000 {
            3
        } else if us < 500_000 {
            4
        } else {
            5
        };
        let n: u64 = self.tick_latency_us[bucket];
        self.tick_latency_us[bucket] = n.saturating_add(1);
    }
}

/// The state of one fan.
#[derive(Debug, Clone, Copy, PartialEq, Eq)]
pub struct FanControlState {
    pub fan_index: u8,
    pub active: bool,
    pub min_rpm: Flt,
    pub max_rpm: Flt,
    pub driver_temp_raw: Flt,
    pub driver_temp_smoothed: Flt,
    pub hysteresis: HysteresisState,
    pub slew_limited_rpm: Flt,
    pub final_target: Option<ClampedRpm>,
    pub panic_state: PanicState,
    pub consecutive_write_errors: u16,
    pub last_known_good_temp: Flt,
    pub last_known_good_age_ticks: u32,
}

/// The settings of a fan that a tick goes by.
pub struct TickSettings {
    pub alpha: Flt,
    pub hyst_up: Flt,
    pub hyst_down: Flt,
    pub ramp_down_rpm_per_s: Flt,
    pub panic_temp_c: Flt,
    pub panic_hold_s: u32,
}

/// After this many ticks without a reading the fan runs at its maximum.
pub const STALE_TICKS: u32 = 60;

/// Some sensor did not drop out.
pub open spec fn any_live(dropouts: Seq<bool>) -> bool {
    exists|i: int| 0 <= i < dropouts.len() && !#[trigger] dropouts[i]
}

/// The first part of a tick: the driver temperature, and how old it is.
pub open spec fn sensed(
    s: FanControlState,
    values: Seq<Flt>,
    dropouts: Seq<bool>,
    mode: FusionMode,
) -> FanControlState {
    let raw = fused(values, dropouts, mode, s.last_known_good_temp);
    if any_live(dropouts) {
        FanControlState {
            driver_temp_raw: raw,
            last_known_good_temp: raw,
            last_known_good_age_ticks: 0,
            ..s
        }
    } else {
        FanControlState {
            driver_temp_raw: raw,
            last_known_good_age_ticks: (if s.last_known_good_age_ticks < u32::MAX {
                s.last_known_good_age_ticks + 1
            } else {
                u32::MAX as int
            }) as u32,
            ..s
        }
    }
}

/// The second part of a tick: smoothing, curve, hysteresis, slew, latch.
pub open spec fn steered(
    s: FanControlState,
    points: Seq<(Flt, u32)>,
    set: TickSettings,
    dt: Flt,
    now: u64,
) -> (FanControlState, PanicAction) {
    let temp = smoothed(s.driver_temp_smoothed, s.driver_temp_raw, set.alpha);
    let hyst = applied(s.hysteresis, evaluated(points, temp), temp, set.hyst_up, set.hyst_down);
    let slewed = limited(s.slew_limited_rpm, hyst.hold_rpm, set.ramp_down_rpm_per_s, dt);
    let (latch, action) = stepped(
        s.panic_state,
        s.driver_temp_raw,
        set.panic_temp_c,
        set.panic_hold_s,
        now,
    );
    (
        FanControlState {
            driver_temp_smoothed: temp,
            hysteresis: hyst,
            slew_limited_rpm: slewed,
            panic_state: latch,
            ..s
        },
        action,
    )
}

/// A fan that runs at a speed, with nothing commanded yet.
pub open spec fn initial(
    fan_index: u8,
    min_rpm: Flt,
    max_rpm: Flt,
    actual_rpm: Flt,
    temp: Flt,
) -> FanControlState {
    FanControlState {
        fan_index,
        active: false,
        min_rpm,
        max_rpm,
        driver_temp_raw: temp,
        driver_temp_smoothed: temp,
        hysteresis: HysteresisState {
            hold_rpm: actual_rpm,
            direction: super::hysteresis::Direction::Held,
            last_temp: temp,
        },
        slew_limited_rpm: actual_rpm,
        final_target: None,
        panic_state: PanicState { latched: false, consecutive_above: 0, entered_at: None },
        consecutive_write_errors: 0,
        last_known_good_temp: temp,
        last_known_good_age_ticks: 0,
    }
}

/// A fan that is taken over from what it does now. The latch is kept.
pub open spec fn taken_over(s: FanControlState, actual_rpm: Flt, temp: Flt) -> FanControlState {
    FanControlState {
        slew_limited_rpm: actual_rpm,
        driver_temp_smoothed: temp,
        hysteresis: HysteresisState {
            hold_rpm: actual_rpm,
            direction: super::hysteresis::Direction::Held,
            last_temp: temp,
        },
        ..s
    }
}

/// A tick has had no reading for too long.
pub open spec fn stale(s: FanControlState, dropouts: Seq<bool>) -> bool {
    !any_live(dropouts) && s.last_known_good_age_ticks > STALE_TICKS
}

/// The speed that a tick asks for, before it is brought into the envelope.
pub open spec fn wanted(s: FanControlState, t: FanControlState, action: PanicAction) -> Flt {
    if action == PanicAction::ForceFxMx {
        s.max_rpm
    } else {
        t.slew_limited_rpm
    }
}

/// A tick: the next state, and the target. A fan without a reading for too long
/// runs at its maximum, and the rest of the state waits.
pub open spec fn ticked(
    before: FanControlState,
    values: Seq<Flt>,
    dropouts: Seq<bool>,
    mode: FusionMode,
    points: Seq<(Flt, u32)>,
    set: TickSettings,
    dt: Flt,
    now: u64,
    safe_min: Option<Flt>,
) -> (FanControlState, Flt) {
    let s = sensed(before, values, dropouts, mode);
    let (t, action) = steered(s, points, set, dt, now);
    let target = clamped_target(
        wanted(s, t, action),
        floor_of(s.min_rpm, safe_min),
        s.max_rpm,
    ).to_whole();
    if stale(s, dropouts) {
        (s, s.max_rpm)
    } else {
        (
            FanControlState { final_target: Some(ClampedRpm::of(target)), ..t },
            whole(target as nat),
        )
    }
}

impl FanControlState {
    /// A fan that runs at `initial_actual_rpm`, with nothing commanded yet.
    #[must_use]
    pub fn new(
        fan_index: u8,
        min_rpm: Flt,
        max_rpm: Flt,
        initial_actual_rpm: Flt,
        initial_temp: Flt,
    ) -> (r: FanControlState)
        ensures
            r == initial(fan_index, min_rpm, max_rpm, initial_actual_rpm, initial_temp),
    {
        FanControlState {
            fan_index,
            active: false,
            min_rpm,
            max_rpm,
            driver_temp_raw: initial_temp,
            driver_temp_smoothed: initial_temp,
            hysteresis: HysteresisState::new(initial_actual_rpm, initial_temp),
            slew_limited_rpm: initial_actual_rpm,
            final_target: None,
            panic_state: PanicState::new(),
            consecutive_write_errors: 0,
            last_known_good_temp: initial_temp,
            last_known_good_age_ticks: 0,
        }
    }

    /// Takes over from what the fan does now. The latch is kept.
    pub fn reinit_bumpless(&mut self, actual_rpm: Flt, raw_temp: Flt)
        ensures
            *final(self) == taken_over(*old(self), actual_rpm, raw_temp),
    {
        self.slew_limited_rpm = actual_rpm;
        self.driver_temp_smoothed = raw_temp;
        self.hysteresis.reinit(actual_rpm, raw_temp);
    }

    #[allow(clippy::too_many_arguments)]
    /// One tick: fuse the sensors, smooth, evaluate the curve, hold, limit,
    /// check the latch, clamp. Returns the target. A fan without a reading for
    /// more than 60 ticks runs at its maximum, and the rest of the state waits.
    pub fn tick(
        &mut self,
        sensor_values: &[Flt],
        sensor_dropouts: &[bool],
        fusion_mode: FusionMode,
        breakpoints: &[(Flt, u32)],
        alpha: Flt,
        hyst_up: Flt,
        hyst_down: Flt,
        ramp_down_rpm_per_s: Flt,
        panic_temp_c: Flt,
        panic_hold_s: u32,
        actual_dt_secs: Flt,
        now: u64,
        safe_min: Option<Flt>,
    ) -> (r: Flt)
        ensures
            (*final(self), r) == ticked(
                *old(self),
                sensor_values@,
                sensor_dropouts@,
                fusion_mode,
                breakpoints@,
                (TickSettings {
                    alpha,
                    hyst_up,
                    hyst_down,
                    ramp_down_rpm_per_s,
                    panic_temp_c,
                    panic_hold_s,
                }),
                actual_dt_secs,
                now,
                safe_min,
            ),
    {
        self.driver_temp_raw =
        fuse(sensor_values, sensor_dropouts, fusion_mode, self.last_known_good_temp);
        let any_valid: bool = has_live(sensor_dropouts);
        if any_valid {
            self.last_known_good_temp = self.driver_temp_raw;
            self.last_known_good_age_ticks = 0;
        } else {
            self.last_known_good_age_ticks = self.last_known_good_age_ticks.saturating_add(1);
            if self.last_known_good_age_ticks > STALE_TICKS {
                return self.max_rpm;
            }
        }
        self.driver_temp_smoothed =
        smooth(self.driver_temp_smoothed, self.driver_temp_raw, alpha);
        let curve_rpm: Flt = evaluate(breakpoints, self.driver_temp_smoothed);
        let hyst_rpm: Flt = apply(
            &mut self.hysteresis,
            curve_rpm,
            self.driver_temp_smoothed,
            hyst_up,
            hyst_down,
        );
        self.slew_limited_rpm =
        limit(self.slew_limited_rpm, hyst_rpm, ramp_down_rpm_per_s, actual_dt_secs);
        let action: PanicAction = check(
            &mut self.panic_state,
            self.driver_temp_raw,
            panic_temp_c,
            panic_hold_s,
            now,
        );
        let rpm: Flt = match action {
            PanicAction::ForceFxMx => self.max_rpm,
            PanicAction::Passthrough => self.slew_limited_rpm,
        };
        let clamped: ClampedRpm = ClampedRpm::new(
            rpm,
            self.min_rpm,
            self.max_rpm,
            safe_min,
        );
        self.final_target = Some(clamped);
        Flt::from_u32(clamped.value())
    }
}

fn has_live(dropouts: &[bool]) -> (r: bool)
    ensures
        r == any_live(dropouts@),
{
    let mut i: usize = 0;
    while i < dropouts.len()
        invariant
            i <= dropouts@.len(),
            forall|j: int| 0 <= j < i ==> dropouts@[j],
        decreases dropouts@.len() - i,
    {
        if !dropouts[i] {
            return true;
        }
        i = i + 1;
    }
    false
}

/// Whatever the sensors say, a tick commands a speed inside the envelope of the
/// fan.
pub proof fn law_target_stays_in_the_envelope(
    before: FanControlState,
    values: Seq<Flt>,
    dropouts: Seq<bool>,
    mode: FusionMode,
    points: Seq<(Flt, u32)>,
    set: TickSettings,
    dt: Flt,
    now: u64,
    safe_min: Option<Flt>,
)
    requires
        floor_of(before.min_rpm, safe_min).at_most(before.max_rpm),
    ensures
        ({
            let (after, target) = ticked(
                before,
                values,
                dropouts,
                mode,
                points,
                set,
                dt,
                now,
                safe_min,
            );
            &&& after.min_rpm == before.min_rpm && after.max_rpm == before.max_rpm
            &&& target == before.max_rpm || exists|n: u32|
                #![trigger whole(n as nat)]
                target == whole(n as nat) && floor_of(before.min_rpm, safe_min).to_whole() <= n
                    <= before.max_rpm.to_whole()
        }),
{
    let s = sensed(before, values, dropouts, mode);
    let (t, action) = steered(s, points, set, dt, now);
    let w = wanted(s, t, action);
    let floor = floor_of(before.min_rpm, safe_min);
    super::state::law_clamp_stays_in_bounds(w, floor, before.max_rpm);
    let n = clamped_target(w, floor, before.max_rpm).to_whole();
    assert(whole(n as nat) == whole(n as nat));
}

/// While the latch demands it, the commanded speed is the maximum of the fan.
pub proof fn law_panic_commands_the_maximum(
    before: FanControlState,
    values: Seq<Flt>,
    dropouts: Seq<bool>,
    mode: FusionMode,
    points: Seq<(Flt, u32)>,
    set: TickSettings,
    dt: Flt,
    now: u64,
    safe_min: Option<Flt>,
)
    requires
        before.max_rpm.finite(),
        floor_of(before.min_rpm, safe_min).at_most(before.max_rpm),
        any_live(dropouts),
        stepped(
            before.panic_state,
            sensed(before, values, dropouts, mode).driver_temp_raw,
            set.panic_temp_c,
            set.panic_hold_s,
            now,
        ).1 == PanicAction::ForceFxMx,
    ensures
        ticked(before, values, dropouts, mode, points, set, dt, now, safe_min).1 == whole(
            before.max_rpm.to_whole() as nat,
        ),
{
}

/// A fan that had no reading for more than 60 ticks runs at its maximum, and
/// keeps what it would otherwise go by.
pub proof fn law_blind_fans_run_at_the_maximum(
    before: FanControlState,
    values: Seq<Flt>,
    dropouts: Seq<bool>,
    mode: FusionMode,
    points: Seq<(Flt, u32)>,
    set: TickSettings,
    dt: Flt,
    now: u64,
    safe_min: Option<Flt>,
)
    requires
        !any_live(dropouts),
        before.last_known_good_age_ticks >= STALE_TICKS,
    ensures
        ({
            let (after, target) = ticked(
                before,
                values,
                dropouts,
                mode,
                points,
                set,
                dt,
                now,
                safe_min,
            );
            &&& target == before.max_rpm
            &&& after.hysteresis == before.hysteresis
            &&& after.slew_limited_rpm == before.slew_limited_rpm
            &&& after.panic_state == before.panic_state
            &&& after.driver_temp_smoothed == before.driver_temp_smoothed
        }),
{
}

/// After a takeover the fan keeps the speed that it has, for as long as the
/// temperature stays where it is, whatever the curve says.
pub proof fn law_takeover_is_bumpless(
    before: FanControlState,
    rpm: Flt,
    temp: Flt,
    curve_rpm: Flt,
    up: Flt,
    down: Flt,
)
    requires
        temp.finite(),
        !up.negative(),
        !down.negative(),
        !up.nan(),
        !down.nan(),
    ensures
        taken_over(before, rpm, temp).slew_limited_rpm == rpm,
        taken_over(before, rpm, temp).panic_state == before.panic_state,
        applied(taken_over(before, rpm, temp).hysteresis, curve_rpm, temp, up, down).hold_rpm
            == rpm,
{
    crate::flt::facts::law_minus_itself(temp);
    crate::flt::facts::lemma_signed(true, down.magnitude());
}

} // verus!
