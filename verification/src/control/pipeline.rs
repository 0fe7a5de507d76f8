//! What a tick does with its inputs, step by step: which temperature it goes by,
//! which speed it takes up, and what it asks for.

use super::control_loop::{any_live, sensed, stale, steered, ticked, FanControlState, TickSettings};
use super::curve::evaluated;
use super::ema::law_smoothing_is_the_weighted_mean;
use super::fusion::{fused, FusionMode};
use super::hysteresis::{law_band_by_values, Direction};
use super::line::{law_curve_is_the_line, on_the_line};
use super::mean::{law_maximum_is_the_largest, live, live_finite};
use super::panic::{
    above, law_full_speed_means_latched, law_other_readings_are_not_hot,
    law_two_readings_above_set_the_latch, stepped, };
use super::slew::{counted_time, exact_floor, law_limit_by_values};
use super::state::{
    brought_between, floor_of, law_floor_is_the_higher, law_target_is_the_nearest_allowed,
    ClampedRpm,
};
use crate::flt::errors::within;
use crate::flt::model::one;
use crate::flt::{size, whole, Flt, EPSILON_BITS};
use vstd::arithmetic::power2::pow2;
use vstd::prelude::*;

verus! {

/// The inputs of a tick besides the state of the fan.
pub struct TickInput {
    pub values: Seq<Flt>,
    pub dropouts: Seq<bool>,
    pub mode: FusionMode,
    pub points: Seq<(Flt, u32)>,
    pub set: TickSettings,
    pub dt: Flt,
    pub now: u64,
    pub safe_min: Option<Flt>,
}

/// The state after a tick.
pub open spec fn state_after(s: FanControlState, i: TickInput) -> FanControlState {
    ticked(s, i.values, i.dropouts, i.mode, i.points, i.set, i.dt, i.now, i.safe_min).0
}

/// What a tick asks for.
pub open spec fn target_of(s: FanControlState, i: TickInput) -> Flt {
    ticked(s, i.values, i.dropouts, i.mode, i.points, i.set, i.dt, i.now, i.safe_min).1
}

/// Some sensor is live, or the last good reading is not older than 60 ticks.
pub open spec fn has_temperature(s: FanControlState, i: TickInput) -> bool {
    any_live(i.dropouts) || s.last_known_good_age_ticks < 60
}

/// The envelope of the fan is sound: finite, not negative, and its floor is not
/// above its maximum.
pub open spec fn sound_envelope(s: FanControlState, i: TickInput) -> bool {
    &&& s.min_rpm.finite()
    &&& s.max_rpm.finite()
    &&& 0 <= floor_of(s.min_rpm, i.safe_min).value() <= s.max_rpm.value() <= u32::MAX * one()
}

/// A whole number of revolutions is the one nearest to a speed in units.
pub open spec fn nearest_speed(n: u32, speed: int) -> bool {
    2 * (n * one()) - one() <= 2 * speed < 2 * (n * one()) + one()
}

/// A tick goes by the fused reading of its live sensors, and by the last good one
/// if there is none. It keeps the envelope and the index of the fan.
pub proof fn law_tick_reads_the_sensors(s: FanControlState, i: TickInput)
    ensures
        ({
            let t = state_after(s, i);
            &&& t.driver_temp_raw == fused(i.values, i.dropouts, i.mode, s.last_known_good_temp)
            &&& any_live(i.dropouts) ==> t.last_known_good_temp == t.driver_temp_raw
                && t.last_known_good_age_ticks == 0
            &&& !any_live(i.dropouts) ==> t.last_known_good_temp == s.last_known_good_temp
            &&& !any_live(i.dropouts) && s.last_known_good_age_ticks < u32::MAX
                ==> t.last_known_good_age_ticks == s.last_known_good_age_ticks + 1
            &&& t.fan_index == s.fan_index
            &&& t.min_rpm == s.min_rpm
            &&& t.max_rpm == s.max_rpm
        }),
{
}

/// A tick smooths: its temperature is the mean of the reading and of the
/// temperature before, with the weights `alpha` and `1 - alpha`, up to rounding.
pub proof fn law_tick_smooths(s: FanControlState, i: TickInput)
    requires
        has_temperature(s, i),
        s.driver_temp_smoothed.finite(),
        state_after(s, i).driver_temp_raw.finite(),
        i.set.alpha.finite(),
        0 <= i.set.alpha.value() <= one(),
        size(s.driver_temp_smoothed.value()) <= pow2(270),
        size(state_after(s, i).driver_temp_raw.value()) <= pow2(270),
    ensures
        ({
            let t = state_after(s, i);
            let (raw, before) = (t.driver_temp_raw.value(), s.driver_temp_smoothed.value());
            let alpha = i.set.alpha.value();
            &&& t.driver_temp_smoothed.finite()
            &&& within(
                0x20_0000 * (t.driver_temp_smoothed.value() * one()),
                0x20_0000 * (alpha * raw + (one() - alpha) * before),
                one() * (size(raw) + size(before) + 0x40_0000),
            )
        }),
{
    law_smoothing_is_the_weighted_mean(
        s.driver_temp_smoothed,
        state_after(s, i).driver_temp_raw,
        i.set.alpha,
    );
}

/// The way from the temperature at which the speed was last chosen to the
/// smoothed temperature of a tick, in units.
pub open spec fn way(s: FanControlState, i: TickInput) -> int {
    state_after(s, i).driver_temp_smoothed.value() - s.hysteresis.last_temp.value()
}

/// The smoothed temperature is clearly out of the band: above it, or below it,
/// even without one part in 2^24 of the way.
pub open spec fn clearly_out(s: FanControlState, i: TickInput) -> bool {
    ||| way(s, i) > 0 && 0x00FF_FFFF * way(s, i) > 0x0100_0000 * i.set.hyst_up.value()
    ||| way(s, i) < 0 && 0x00FF_FFFF * -way(s, i) > 0x0100_0000 * i.set.hyst_down.value()
}

/// The numbers of the band are finite, and so is the way.
pub open spec fn sound_band(s: FanControlState, i: TickInput) -> bool {
    &&& state_after(s, i).driver_temp_smoothed.finite()
    &&& s.hysteresis.last_temp.finite()
    &&& i.set.hyst_up.finite()
    &&& i.set.hyst_down.finite()
    &&& state_after(s, i).driver_temp_smoothed.minus(s.hysteresis.last_temp).finite()
}

/// A tick follows the curve at the smoothed temperature: out of the band it takes
/// up the speed of the curve there, in the band it holds what it has.
pub proof fn law_tick_follows_the_curve(s: FanControlState, i: TickInput)
    requires
        has_temperature(s, i),
        sound_band(s, i),
    ensures
        ({
            let t = state_after(s, i);
            &&& clearly_out(s, i) ==> {
                &&& t.hysteresis.hold_rpm == evaluated(i.points, t.driver_temp_smoothed)
                &&& t.hysteresis.last_temp == t.driver_temp_smoothed
                &&& t.hysteresis.direction == (if way(s, i) > 0 {
                    Direction::Rising
                } else {
                    Direction::Falling
                })
            }
            &&& -i.set.hyst_down.value() <= way(s, i) <= i.set.hyst_up.value() ==> t.hysteresis
                == s.hysteresis
        }),
{
    let t = state_after(s, i);
    law_band_by_values(
        s.hysteresis,
        evaluated(i.points, t.driver_temp_smoothed),
        t.driver_temp_smoothed,
        i.set.hyst_up,
        i.set.hyst_down,
    );
}

/// Two ticks with the same smoothed temperature, of fans in the same hold, take
/// up the same speed, whatever their sensors say; and if they also run at the same
/// speed and have the same ramp and time, they go on at the same speed.
pub proof fn law_equal_temperatures_equal_speeds(
    s1: FanControlState,
    i1: TickInput,
    s2: FanControlState,
    i2: TickInput,
)
    requires
        has_temperature(s1, i1),
        has_temperature(s2, i2),
        i1.points == i2.points,
        i1.set.hyst_up == i2.set.hyst_up,
        i1.set.hyst_down == i2.set.hyst_down,
        s1.hysteresis == s2.hysteresis,
        state_after(s1, i1).driver_temp_smoothed == state_after(s2, i2).driver_temp_smoothed,
    ensures
        state_after(s1, i1).hysteresis == state_after(s2, i2).hysteresis,
        s1.slew_limited_rpm == s2.slew_limited_rpm && i1.set.ramp_down_rpm_per_s
            == i2.set.ramp_down_rpm_per_s && i1.dt == i2.dt ==> state_after(
            s1,
            i1,
        ).slew_limited_rpm == state_after(s2, i2).slew_limited_rpm,
{
}

/// A tick limits the ramp: it goes up to the speed that is held at once, and down
/// to the higher one of that speed and what the ramp allows in the time that
/// counts, up to rounding.
pub proof fn law_tick_limits_the_ramp(s: FanControlState, i: TickInput)
    requires
        has_temperature(s, i),
        s.slew_limited_rpm.finite(),
        state_after(s, i).hysteresis.hold_rpm.finite(),
        i.set.ramp_down_rpm_per_s.finite(),
        i.dt.finite(),
        i.set.ramp_down_rpm_per_s.value() >= 0,
        i.dt.value() >= 0,
        size(s.slew_limited_rpm.value()) <= pow2(270),
        i.set.ramp_down_rpm_per_s.value() <= pow2(270),
    ensures
        ({
            let t = state_after(s, i);
            let (speed, hold) = (s.slew_limited_rpm, t.hysteresis.hold_rpm);
            let ramp = i.set.ramp_down_rpm_per_s;
            let floor = speed.value() * one() - ramp.value() * counted_time(i.dt);
            let goal = hold.value() * one();
            &&& speed.value() <= hold.value() ==> t.slew_limited_rpm == hold
            &&& hold.value() < speed.value() ==> {
                &&& t.slew_limited_rpm.finite()
                &&& t.slew_limited_rpm.value() >= hold.value()
                &&& within(
                    0x40_0000 * (t.slew_limited_rpm.value() * one()),
                    0x40_0000 * (if goal < floor {
                        floor
                    } else {
                        goal
                    }),
                    one() * (size(speed.value()) + ramp.value() as nat + 0x40_0000),
                )
            }
        }),
{
    let t = state_after(s, i);
    law_limit_by_values(
        s.slew_limited_rpm,
        t.hysteresis.hold_rpm,
        i.set.ramp_down_rpm_per_s,
        i.dt,
    );
    assert(exact_floor(s.slew_limited_rpm, i.set.ramp_down_rpm_per_s, i.dt)
        == s.slew_limited_rpm.value() * one() - i.set.ramp_down_rpm_per_s.value() * counted_time(
        i.dt,
    ));
}

proof fn lemma_latch(s: FanControlState, i: TickInput)
    requires
        has_temperature(s, i),
    ensures
        state_after(s, i).panic_state == stepped(
            s.panic_state,
            state_after(s, i).driver_temp_raw,
            i.set.panic_temp_c,
            i.set.panic_hold_s,
            i.now,
        ).0,
{
    let read = sensed(s, i.values, i.dropouts, i.mode);
    assert(!stale(read, i.dropouts));
    let t = steered(read, i.points, i.set, i.dt, i.now).0;
    assert(state_after(s, i).panic_state == t.panic_state);
    assert(state_after(s, i).driver_temp_raw == read.driver_temp_raw);
}

/// The latch of a tick sees the reading itself, not the smoothed temperature.
pub proof fn law_latch_sees_the_reading(s: FanControlState, i: TickInput)
    requires
        has_temperature(s, i),
    ensures
        state_after(s, i).panic_state == stepped(
            s.panic_state,
            state_after(s, i).driver_temp_raw,
            i.set.panic_temp_c,
            i.set.panic_hold_s,
            i.now,
        ).0,
        !above(state_after(s, i).driver_temp_raw, i.set.panic_temp_c) ==> state_after(
            s,
            i,
        ).panic_state.consecutive_above == 0,
{
    lemma_latch(s, i);
    let raw = state_after(s, i).driver_temp_raw;
    if !above(raw, i.set.panic_temp_c) {
        law_other_readings_are_not_hot(
            s.panic_state,
            i.set.panic_temp_c,
            raw,
            i.set.panic_hold_s,
            i.now,
        );
    }
}

/// A tick asks for a whole number of revolutions: with the latch open the one
/// nearest to its limited speed brought into the envelope, with the latch set the
/// one nearest to the maximum.
pub proof fn law_tick_asks_for_its_speed(s: FanControlState, i: TickInput) -> (n: u32)
    requires
        has_temperature(s, i),
        sound_envelope(s, i),
        state_after(s, i).slew_limited_rpm.finite(),
    ensures
        target_of(s, i) == whole(n as nat),
        state_after(s, i).final_target == Some(ClampedRpm::of(n)),
        nearest_speed(
            n,
            if state_after(s, i).panic_state.latched {
                s.max_rpm.value()
            } else {
                brought_between(
                    state_after(s, i).slew_limited_rpm.value(),
                    floor_of(s.min_rpm, i.safe_min).value(),
                    s.max_rpm.value(),
                )
            },
        ),
{
    let t = state_after(s, i);
    law_full_speed_means_latched(
        s.panic_state,
        i.set.panic_temp_c,
        t.driver_temp_raw,
        i.set.panic_hold_s,
        i.now,
    );
    let floor = floor_of(s.min_rpm, i.safe_min);
    law_floor_is_the_higher(s.min_rpm, i.safe_min);
    let wanted = if t.panic_state.latched {
        s.max_rpm
    } else {
        t.slew_limited_rpm
    };
    law_target_is_the_nearest_allowed(wanted, floor, s.max_rpm);
    super::state::clamped_target(wanted, floor, s.max_rpm).to_whole()
}

/// The tick as a whole, on the way up: out of the band, with the latch open, a
/// speed on the curve that is not below the one before is asked for as it stands
/// on the straight line through the two breakpoints around the smoothed
/// temperature, rounded and brought into the envelope.
pub proof fn law_tick_asks_for_the_line(s: FanControlState, i: TickInput, k: int) -> (n: u32)
    requires
        has_temperature(s, i),
        sound_envelope(s, i),
        sound_band(s, i),
        clearly_out(s, i),
        !state_after(s, i).panic_state.latched,
        ({
            let temp = state_after(s, i).driver_temp_smoothed;
            &&& 0 < k < i.points.len()
            &&& forall|j: int| 0 <= j < k ==> (#[trigger] i.points[j]).0.less(temp)
            &&& temp.at_most(i.points[k].0)
            &&& k == i.points.len() - 1 || temp.less(i.points.last().0)
            &&& i.points[k - 1].0.finite()
            &&& i.points[k].0.finite()
            &&& i.points[k].0.minus(i.points[k - 1].0).finite()
            &&& (Flt { bits: EPSILON_BITS }).at_most(
                i.points[k].0.minus(i.points[k - 1].0).absolute(),
            )
            &&& s.slew_limited_rpm.at_most(evaluated(i.points, temp))
        }),
    ensures
        ({
            let t = state_after(s, i);
            &&& target_of(s, i) == whole(n as nat)
            &&& on_the_line(
                t.slew_limited_rpm,
                i.points[k - 1],
                i.points[k],
                t.driver_temp_smoothed,
            )
            &&& nearest_speed(
                n,
                brought_between(
                    t.slew_limited_rpm.value(),
                    floor_of(s.min_rpm, i.safe_min).value(),
                    s.max_rpm.value(),
                ),
            )
        }),
{
    let t = state_after(s, i);
    law_tick_follows_the_curve(s, i);
    law_curve_is_the_line(i.points, k, t.driver_temp_smoothed);
    assert(t.slew_limited_rpm == t.hysteresis.hold_rpm);
    law_tick_asks_for_its_speed(s, i)
}

/// Two ticks in a row with readings above the panic temperature: the second one
/// asks for the maximum of the fan.
pub proof fn law_two_hot_ticks_ask_for_the_maximum(
    s: FanControlState,
    i1: TickInput,
    i2: TickInput,
) -> (n: u32)
    requires
        has_temperature(s, i1),
        has_temperature(state_after(s, i1), i2),
        i1.set.panic_temp_c == i2.set.panic_temp_c,
        i1.set.panic_hold_s == i2.set.panic_hold_s,
        above(state_after(s, i1).driver_temp_raw, i1.set.panic_temp_c),
        above(state_after(state_after(s, i1), i2).driver_temp_raw, i2.set.panic_temp_c),
        sound_envelope(state_after(s, i1), i2),
        state_after(state_after(s, i1), i2).slew_limited_rpm.finite(),
    ensures
        state_after(state_after(s, i1), i2).panic_state.latched,
        target_of(state_after(s, i1), i2) == whole(n as nat),
        nearest_speed(n, s.max_rpm.value()),
{
    let s1 = state_after(s, i1);
    law_two_readings_above_set_the_latch(
        s.panic_state,
        i1.set.panic_temp_c,
        s1.driver_temp_raw,
        state_after(s1, i2).driver_temp_raw,
        i1.set.panic_hold_s,
        i1.now,
        i2.now,
    );
    law_latch_sees_the_reading(s, i1);
    law_latch_sees_the_reading(s1, i2);
    law_tick_asks_for_its_speed(s1, i2)
}

/// In maximum mode one live sensor above the panic temperature is enough for the
/// reading of a tick to be above it.
pub proof fn law_one_hot_sensor_counts(s: FanControlState, i: TickInput, k: int)
    requires
        i.mode == FusionMode::Max,
        0 <= k < i.values.len(),
        live(i.dropouts, k),
        live_finite(i.values, i.dropouts),
        above(i.values[k], i.set.panic_temp_c),
    ensures
        above(state_after(s, i).driver_temp_raw, i.set.panic_temp_c),
{
    assert(i.values[k].finite());
    law_maximum_is_the_largest(i.values, i.dropouts, s.last_known_good_temp);
}

/// A fan that had no reading for 60 ticks and has none again runs at its maximum,
/// whatever else it is told; its temperature, hold, speed and latch wait.
pub proof fn law_blind_for_sixty_ticks(s: FanControlState, i: TickInput)
    requires
        forall|k: int| 0 <= k < i.dropouts.len() ==> #[trigger] i.dropouts[k],
        s.last_known_good_age_ticks >= 60,
    ensures
        target_of(s, i) == s.max_rpm,
        state_after(s, i).driver_temp_smoothed == s.driver_temp_smoothed,
        state_after(s, i).hysteresis == s.hysteresis,
        state_after(s, i).slew_limited_rpm == s.slew_limited_rpm,
        state_after(s, i).panic_state == s.panic_state,
{
}

} // verus!
