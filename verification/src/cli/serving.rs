//! Whom the commands serve: every fan goes by its own sensors and its own keys,
//! and what is said to have been done was done to that fan.

use super::daemon::{
    carrying_out, dropouts, fusion_of, looking, reading_or, reading_sensors, resuming, settings_of,
    starting, ticking, ticking_fan, time_step, Beat, Tick,
};
use super::keyspace::key_of;
use super::run::{plausible, reading_max_temp, MAX_TEMP_BITS, PLACEHOLDER_BITS};
use super::set::{setting, target_of, CliSetArgs, Mode};
use crate::config::schema::{FanBinding, SensorRef};
use crate::control::adapter::{decided, AppleSiliconDecision};
use crate::control::control_loop::{FanControlState, TickSettings};
use crate::control::fusion::FusionMode;
use crate::control::pipeline::{state_after, TickInput};
use crate::control::state::{clamped_target, floor_of};
use crate::flt::lemmas::{lemma_units_at_least, lemma_units_decoded};
use crate::flt::model::{one, INFINITY_BITS};
use crate::flt::{whole, Flt, NAN_BITS, NEG_INFINITY_BITS};
use crate::smc::connection::{reading_f32, writing_u8, Conn};
use crate::smc::enumerate::Fan;
use crate::smc::exchange::{Action, Dialog};
use crate::smc::forcing::{
    law_forcing_reaches_that_fan, law_forcing_touches_no_other_fan, law_returning_reaches_that_fan,
    law_returning_touches_no_other_fan, lemma_still_read_back, lemma_unlocking_keeps_port,
    mode_key, writes_only, written_and_read_back,
};
use crate::smc::keys::{fan_fourcc, Target, LOWER_C, UPPER_A};
use crate::smc::reading::{
    fan_key_of, float_was_read, law_floats_are_what_was_read, lemma_float_still_read,
};
use crate::smc::release::lemma_continues_join;
use crate::smc::safety::{continues, lemma_tame_none, lemma_tame_step};
use crate::smc::write_session::{committing, first_with_index, session_write, unlocking, Session};
use vstd::arithmetic::power2::{lemma2_to64, lemma_pow2_adds, pow2};
use vstd::prelude::*;
use vstd::utf8::encode_utf8;

verus! {

/// The key that a name of four bytes spells.
pub open spec fn spelled(name: Seq<u8>) -> int {
    name[0] * 0x100_0000 + name[1] * 0x1_0000 + name[2] * 0x100 + name[3]
}

/// A reading that is believed: a number from 0 to 150 degrees.
pub open spec fn believed(v: Flt) -> bool {
    v.finite() && 0 <= v.value() <= 150 * one()
}

/// Readings that are believed are those from 0 to 150 degrees.
pub proof fn law_believed_by_values(v: Flt)
    ensures
        plausible(v) == believed(v),
{
    lemma_units_decoded(MAX_TEMP_BITS as nat, 0x0096_0000, 133);
    lemma2_to64();
    lemma_pow2_adds(16, 133);
    assert(0x0096_0000 * pow2(133) == 150 * (0x1_0000 * pow2(133)));
    assert((Flt { bits: 0 }).value() == 0) by {
        assert(crate::flt::model::units(0) == 0);
    }
}

/// A reading of one sensor: no number, or what the SMC replied for its key.
pub open spec fn of_sensor(d0: Dialog, d1: Dialog, port: u32, sensor: SensorRef, v: Flt) -> bool {
    let name = encode_utf8(sensor.key());
    v.bits == NAN_BITS || (name.len() == 4 && float_was_read(d0, d1, port, spelled(name), v))
}

/// The readings of some sensors, in their order.
pub open spec fn of_sensors(
    d0: Dialog,
    d1: Dialog,
    port: u32,
    sensors: Seq<SensorRef>,
    values: Seq<Flt>,
) -> bool {
    values.len() == sensors.len() && forall|j: int|
        0 <= j < values.len() ==> of_sensor(d0, d1, port, sensors[j], #[trigger] values[j])
}

proof fn lemma_of_sensor_later(
    a: Dialog,
    b: Dialog,
    c: Dialog,
    e: Dialog,
    port: u32,
    sensor: SensorRef,
    v: Flt,
)
    requires
        a.asked.len() <= b.asked.len(),
        continues(c, e),
        of_sensor(b, c, port, sensor, v),
    ensures
        of_sensor(a, e, port, sensor, v),
{
    if v.bits != NAN_BITS {
        lemma_float_still_read(a, b, c, e, port, spelled(encode_utf8(sensor.key())), v);
    }
}

proof fn lemma_sensors(
    c: Conn,
    sensors: Seq<SensorRef>,
    j: int,
    values: Seq<Flt>,
    d0: Dialog,
    d: Dialog,
)
    requires
        0 <= j <= sensors.len(),
        values.len() == j,
        continues(d0, d),
        forall|k: int|
            0 <= k < j ==> of_sensor(d0, d, c.port, sensors[k], #[trigger] values[k]),
    ensures
        ({
            let (v, c1, d1) = reading_sensors(c, sensors, j, values, d);
            &&& continues(d, d1)
            &&& c1.port == c.port
            &&& of_sensors(d0, d1, c.port, sensors, v)
        }),
    decreases sensors.len() - j,
{
    lemma_tame_none(d);
    if j < sensors.len() {
        let name = encode_utf8(sensors[j].key());
        let nan = Flt { bits: NAN_BITS };
        if name.len() != 4 {
            let more = values.push(nan);
            assert forall|k: int| 0 <= k < j + 1 implies of_sensor(
                d0,
                d,
                c.port,
                sensors[k],
                #[trigger] more[k],
            ) by {
                if k < j {
                    assert(more[k] == values[k]);
                }
            }
            lemma_sensors(c, sensors, j + 1, more, d0, d);
        } else {
            let key = key_of(name);
            assert(key == spelled(name));
            law_floats_are_what_was_read(c, key, d);
            let (r, c1, d1) = reading_f32(c, key, d);
            let more = values.push(reading_or(r, nan));
            lemma_continues_join(d0, d, d1);
            lemma_tame_none(d1);
            assert forall|k: int| 0 <= k < j + 1 implies of_sensor(
                d0,
                d1,
                c1.port,
                sensors[k],
                #[trigger] more[k],
            ) by {
                if k < j {
                    assert(more[k] == values[k]);
                    lemma_of_sensor_later(d0, d0, d, d1, c.port, sensors[k], values[k]);
                } else if let Ok(v) = r {
                    lemma_float_still_read(d0, d, d1, d1, c.port, key as int, v);
                }
            }
            lemma_sensors(c1, sensors, j + 1, more, d0, d1);
            lemma_continues_join(d, d1, reading_sensors(c1, sensors, j + 1, more, d1).2);
        }
    }
}

/// The readings of a tick are those of the sensors of the fan, one for each and in
/// their order: what the SMC replied for the key that the sensor spells, or no
/// number.
pub proof fn law_sensors_are_read_by_their_keys(c: Conn, sensors: Seq<SensorRef>, d: Dialog)
    ensures
        ({
            let (v, c1, d1) = reading_sensors(c, sensors, 0, Seq::empty(), d);
            &&& continues(d, d1)
            &&& c1.port == c.port
            &&& of_sensors(d, d1, c.port, sensors, v)
        }),
{
    lemma_tame_none(d);
    lemma_sensors(c, sensors, 0, Seq::empty(), d, d);
}

/// A temperature is the highest believed one of some readings, or 65 degrees if none
/// is believed.
pub open spec fn highest_believed(v: Seq<Flt>, temp: Flt) -> bool {
    &&& forall|j: int|
        0 <= j < v.len() && believed(#[trigger] v[j]) ==> v[j].value() <= temp.value()
    &&& (exists|j: int| 0 <= j < v.len() && believed(#[trigger] v[j])) ==> exists|j: int|
        0 <= j < v.len() && believed(#[trigger] v[j]) && v[j] == temp
    &&& (forall|j: int| 0 <= j < v.len() ==> !believed(#[trigger] v[j])) ==> temp.bits
        == 0x4282_0000
}

/// The temperature from which a fan is taken over is the highest believed one of
/// the readings that a tick would take, or 65 degrees if none is believed.
pub proof fn law_takeover_temperature_is_the_highest(c: Conn, sensors: Seq<SensorRef>, d: Dialog)
    ensures
        ({
            let (v, c1, d1) = reading_sensors(c, sensors, 0, Seq::empty(), d);
            let (temp, c2, d2) = reading_max_temp(
                c,
                sensors,
                0,
                Flt { bits: NEG_INFINITY_BITS },
                d,
            );
            &&& c2 == c1 && d2 == d1
            &&& highest_believed(v, temp)
        }),
{
    lemma_highest(c, sensors, 0, Seq::empty(), Flt { bits: NEG_INFINITY_BITS }, d);
}

/// The highest believed reading so far, or negative infinity.
spec fn highest(values: Seq<Flt>, max: Flt) -> bool {
    &&& forall|j: int| 0 <= j < values.len() && believed(#[trigger] values[j]) ==> values[j].value()
        <= max.value() && max.bits != NEG_INFINITY_BITS
    &&& max.bits != NEG_INFINITY_BITS ==> believed(max) && exists|j: int|
        0 <= j < values.len() && #[trigger] values[j] == max
}

proof fn lemma_highest(
    c: Conn,
    sensors: Seq<SensorRef>,
    i: int,
    values: Seq<Flt>,
    max: Flt,
    d: Dialog,
)
    requires
        0 <= i <= sensors.len(),
        highest(values, max),
    ensures
        ({
            let (v, c1, d1) = reading_sensors(c, sensors, i, values, d);
            let (temp, c2, d2) = reading_max_temp(c, sensors, i, max, d);
            &&& c2 == c1 && d2 == d1
            &&& highest_believed(v, temp)
        }),
    decreases sensors.len() - i,
{
    if i >= sensors.len() {
        lemma_highest_is_believed(values, max);
    } else {
        let name = encode_utf8(sensors[i].key());
        let nan = Flt { bits: NAN_BITS };
        assert(!believed(nan));
        law_believed_by_values(nan);
        if name.len() != 4 {
            let more = values.push(nan);
            lemma_highest_more(values, nan, max);
            lemma_highest(c, sensors, i + 1, more, max, d);
        } else {
            let (r, c1, d1) = reading_f32(c, key_of(name), d);
            let x = reading_or(r, nan);
            law_believed_by_values(x);
            lemma_highest_more(values, x, max);
            let next = if plausible(x) && max.less(x) {
                x
            } else {
                max
            };
            lemma_highest(c1, sensors, i + 1, values.push(x), next, d1);
        }
    }
}

proof fn lemma_highest_is_believed(values: Seq<Flt>, max: Flt)
    requires
        highest(values, max),
    ensures
        highest_believed(
            values,
            if max.bits == NEG_INFINITY_BITS {
                Flt { bits: PLACEHOLDER_BITS }
            } else {
                max
            },
        ),
{
    if max.bits != NEG_INFINITY_BITS {
        let j = choose|j: int| 0 <= j < values.len() && #[trigger] values[j] == max;
        assert(believed(values[j]) && values[j] == max);
    }
}

proof fn lemma_highest_more(values: Seq<Flt>, x: Flt, max: Flt)
    requires
        highest(values, max),
    ensures
        highest(
            values.push(x),
            if plausible(x) && max.less(x) {
                x
            } else {
                max
            },
        ),
{
    law_believed_by_values(x);
    let more = values.push(x);
    let next = if plausible(x) && max.less(x) {
        x
    } else {
        max
    };
    let none = Flt { bits: NEG_INFINITY_BITS };
    lemma_units_at_least(INFINITY_BITS as nat);
    assert(none.value() < 0);
    assert(more[values.len() as int] == x);
    if max.bits != NEG_INFINITY_BITS {
        let j = choose|j: int| 0 <= j < values.len() && #[trigger] values[j] == max;
        assert(more[j] == max);
    }
    assert forall|j: int| 0 <= j < more.len() && believed(
        #[trigger] more[j],
    ) implies more[j].value() <= next.value() && next.bits != NEG_INFINITY_BITS by {
        if j < values.len() {
            assert(more[j] == values[j]);
        }
    }
}

/// The readings, the flags, the settings and the curve that a tick of a fan goes
/// by.
pub open spec fn input_of(fan: FanBinding, values: Seq<Flt>, dt: Flt, b: Beat) -> TickInput {
    TickInput {
        values,
        dropouts: Seq::new(values.len(), |i: int| !believed(values[i])),
        mode: if fan.fusion@ == "mean"@ {
            FusionMode::Mean
        } else {
            FusionMode::Max
        },
        points: fan.curve@,
        set: TickSettings {
            alpha: fan.smoothing_alpha,
            hyst_up: fan.hysteresis_up,
            hyst_down: fan.hysteresis_down,
            ramp_down_rpm_per_s: whole(fan.ramp_down_rpm_per_s as nat),
            panic_temp_c: fan.panic_temp_c,
            panic_hold_s: fan.panic_hold_s,
        },
        dt,
        now: b.start,
        safe_min: b.safe_min,
    }
}

/// The tick of a fan steps the state of that fan, and of no other, by the readings
/// of its own sensors and by its own settings; and its mode is chosen for what
/// came out, within its own envelope.
pub proof fn law_daemon_ticks_that_fan(fan: FanBinding, i: int, b: Beat, t: Tick)
    requires
        0 <= i < t.states.len(),
    ensures
        ({
            let after = ticking_fan(fan, i, b, t);
            exists|values: Seq<Flt>, dt: Flt| #![trigger input_of(fan, values, dt, b)]
                {
                    let input = input_of(fan, values, dt, b);
                    let s = state_after(t.states[i], input);
                    let target = crate::control::pipeline::target_of(t.states[i], input);
                    &&& of_sensors(t.dialog, after.dialog, t.session.conn.port, fan.sensors@, values)
                    &&& after.states == t.states.update(i, s)
                    &&& i < t.modes.len() ==> after.modes == t.modes.update(
                        i,
                        decided(t.modes[i], target, s.min_rpm, s.max_rpm),
                    )
                    &&& i >= t.modes.len() ==> after.modes == t.modes
                }
        }),
{
    let c = t.session.conn;
    law_sensors_are_read_by_their_keys(c, fan.sensors@, t.dialog);
    let (values, c1, d1) = reading_sensors(c, fan.sensors@, 0, Seq::empty(), t.dialog);
    let dt = time_step(b.start, d1.answer().value);
    let input = input_of(fan, values, dt, b);
    assert(input.dropouts =~= dropouts(values)) by {
        assert forall|j: int| 0 <= j < values.len() implies input.dropouts[j] == dropouts(
            values,
        )[j] by {
            law_believed_by_values(values[j]);
        }
    }
    assert(input.mode == fusion_of(fan));
    assert(input.set == settings_of(fan));
    let after = ticking_fan(fan, i, b, t);
    let d2 = d1.after(Action::Timer);
    super::safety::lemma_ticking_fan(fan, i, b, t);
    lemma_tame_step(d1, Action::Timer);
    lemma_goes_on_behind_sensors(fan, i, b, t);
    assert forall|j: int| 0 <= j < values.len() implies of_sensor(
        t.dialog,
        after.dialog,
        c.port,
        fan.sensors@[j],
        #[trigger] values[j],
    ) by {
        lemma_of_sensor_later(
            t.dialog,
            t.dialog,
            d1,
            after.dialog,
            c.port,
            fan.sensors@[j],
            values[j],
        );
    }
}

/// The byte of a mode.
pub open spec fn byte_of(mode: AppleSiliconDecision) -> u8 {
    match mode {
        AppleSiliconDecision::ForcedMinimum => 1,
        AppleSiliconDecision::Auto => 0,
    }
}

proof fn lemma_session_write_keeps_port(
    s: Session,
    t: Target,
    v: u8,
    x: &'static str,
    d: Dialog,
)
    ensures
        session_write(s, t, v, x, d).1.conn.port == s.conn.port,
        session_write(s, t, v, x, d).1.fans == s.fans,
{
    let d0 = d.after(Action::Clock);
    let (_, c1, d1) = writing_u8(s.conn, t, v, d0);
    assert(c1.port == s.conn.port);
    crate::smc::reading::law_bytes_are_what_was_read(c1, t.fourcc(), d1);
}

proof fn lemma_carrying_keeps_port(
    mode: AppleSiliconDecision,
    fan: u8,
    minimum: u32,
    s: Session,
    d: Dialog,
)
    ensures
        carrying_out(mode, fan, minimum, s, d).1.conn.port == s.conn.port,
        carrying_out(mode, fan, minimum, s, d).1.fans == s.fans,
{
    lemma_unlocking_keeps_port(s, d);
    let (_, s1, d1) = unlocking(s, d);
    let ac = fan_fourcc(fan, UPPER_A, LOWER_C);
    law_floats_are_what_was_read(s1.conn, ac, d1);
    let (_, c2, d2) = reading_f32(s1.conn, ac, d1);
    let s2 = Session { conn: c2, ..s1 };
    lemma_session_write_keeps_port(s2, Target::FanMode(fan), 1, "fan_mode_force_min", d2);
    lemma_session_write_keeps_port(s, Target::FanMode(fan), 0, "fan_mode_auto", d);
}

/// Behind its sensors the tick of a fan goes on.
proof fn lemma_goes_on_behind_sensors(fan: FanBinding, i: int, b: Beat, t: Tick)
    ensures
        ({
            let (_, _, d1) = reading_sensors(
                t.session.conn,
                fan.sensors@,
                0,
                Seq::empty(),
                t.dialog,
            );
            continues(d1, ticking_fan(fan, i, b, t).dialog)
        }),
        ticking_fan(fan, i, b, t).session.conn.port == t.session.conn.port,
        ticking_fan(fan, i, b, t).session.fans == t.session.fans,
{
    let c = t.session.conn;
    law_sensors_are_read_by_their_keys(c, fan.sensors@, t.dialog);
    let (values, c1, d1) = reading_sensors(c, fan.sensors@, 0, Seq::empty(), t.dialog);
    let d2 = d1.after(Action::Timer);
    lemma_tame_step(d1, Action::Timer);
    let s1 = Session { conn: c1, ..t.session };
    let (state, target) = crate::control::control_loop::ticked(
        t.states[i],
        values,
        dropouts(values),
        fusion_of(fan),
        fan.curve@,
        settings_of(fan),
        time_step(b.start, d1.answer().value),
        b.start,
        b.safe_min,
    );
    if i < t.modes.len() {
        let mode = decided(t.modes[i], target, state.min_rpm, state.max_rpm);
        let rpm = clamped_target(
            state.min_rpm,
            floor_of(state.min_rpm, b.safe_min),
            state.max_rpm,
        ).to_whole();
        super::safety::lemma_carrying_out(mode, fan.index, rpm, s1, d2);
        lemma_carrying_keeps_port(mode, fan.index, rpm, s1, d2);
        lemma_continues_join(d1, d2, carrying_out(mode, fan.index, rpm, s1, d2).2);
    }
}

/// The mode that the tick of a fan chose is carried out on that very fan: unless a
/// failure is logged, the byte of the mode was written to its own mode key and read
/// back. At most one line is logged.
pub proof fn law_daemon_switches_that_fan(fan: FanBinding, i: int, b: Beat, t: Tick)
    requires
        0 <= i < t.states.len(),
        i < t.modes.len(),
    ensures
        ({
            let after = ticking_fan(fan, i, b, t);
            &&& after.log == t.log || (after.log.len() == t.log.len() + 1 && after.log.drop_last()
                == t.log)
            &&& after.log == t.log ==> written_and_read_back(
                t.dialog,
                after.dialog,
                t.session.conn.port,
                mode_key(fan.index),
                byte_of(after.modes[i]),
            )
        }),
{
    let c = t.session.conn;
    law_sensors_are_read_by_their_keys(c, fan.sensors@, t.dialog);
    let (values, c1, d1) = reading_sensors(c, fan.sensors@, 0, Seq::empty(), t.dialog);
    let d2 = d1.after(Action::Timer);
    lemma_tame_step(d1, Action::Timer);
    let s1 = Session { conn: c1, ..t.session };
    let (state, target) = crate::control::control_loop::ticked(
        t.states[i],
        values,
        dropouts(values),
        fusion_of(fan),
        fan.curve@,
        settings_of(fan),
        time_step(b.start, d1.answer().value),
        b.start,
        b.safe_min,
    );
    let mode = decided(t.modes[i], target, state.min_rpm, state.max_rpm);
    let rpm = clamped_target(
        state.min_rpm,
        floor_of(state.min_rpm, b.safe_min),
        state.max_rpm,
    ).to_whole();
    let (r, s2, d3) = carrying_out(mode, fan.index, rpm, s1, d2);
    let after = ticking_fan(fan, i, b, t);
    assert(after.modes[i] == mode);
    assert(after.dialog == d3);
    if let Err(e) = r {
        let line = super::daemon::failure_entry(b.number, fan.index, e);
        assert(after.log == t.log.push(line));
        assert(t.log.push(line).drop_last() =~= t.log);
        assert(t.log.push(line).len() != t.log.len());
    } else {
        match mode {
            AppleSiliconDecision::ForcedMinimum => {
                law_forcing_reaches_that_fan(s1, fan.index, rpm, d2);
            },
            AppleSiliconDecision::Auto => {
                law_returning_reaches_that_fan(s1, fan.index, d2);
            },
        }
        lemma_tame_none(d3);
        lemma_still_read_back(
            t.dialog,
            d2,
            d3,
            d3,
            c.port,
            mode_key(fan.index),
            byte_of(mode),
        );
    }
}

/// Carrying a mode out writes the byte of the mode, to the mode key of that fan and
/// to `Ftst` only.
pub proof fn law_modes_touch_no_other_fan(
    mode: AppleSiliconDecision,
    fan: u8,
    minimum: u32,
    s: Session,
    d: Dialog,
)
    ensures
        writes_only(
            d,
            carrying_out(mode, fan, minimum, s, d).2,
            mode_key(fan),
            0x4674_7374,
            byte_of(mode),
        ),
{
    match mode {
        AppleSiliconDecision::ForcedMinimum => {
            law_forcing_touches_no_other_fan(s, fan, minimum, d);
        },
        AppleSiliconDecision::Auto => {
            law_returning_touches_no_other_fan(s, fan, d);
        },
    }
}

proof fn lemma_tick_from(fans: Seq<FanBinding>, i: int, b: Beat, t: Tick)
    requires
        0 <= i,
    ensures
        ({
            let after = ticking(fans, i, b, t);
            &&& continues(t.dialog, after.dialog)
            &&& after.log.len() >= t.log.len()
            &&& after.modes.len() == t.modes.len()
            &&& after.states.len() == t.states.len()
            &&& forall|j: int| 0 <= j < i && j < t.modes.len() ==> after.modes[j] == #[trigger] t.modes[j]
            &&& after.log.len() == t.log.len() ==> forall|j: int|
                i <= j < fans.len() && j < t.states.len() && j < t.modes.len()
                    ==> written_and_read_back(
                    t.dialog,
                    after.dialog,
                    t.session.conn.port,
                    mode_key((#[trigger] fans[j]).index),
                    byte_of(after.modes[j]),
                )
        }),
    decreases fans.len() - i,
{
    lemma_tame_none(t.dialog);
    let after = ticking(fans, i, b, t);
    if i < fans.len() {
        if i >= t.states.len() {
            lemma_tick_from(fans, i + 1, b, t);
        } else {
            let t1 = ticking_fan(fans[i], i, b, t);
            super::safety::lemma_ticking_fan(fans[i], i, b, t);
            lemma_goes_on_behind_sensors(fans[i], i, b, t);
            lemma_tick_from(fans, i + 1, b, t1);
            lemma_continues_join(t.dialog, t1.dialog, after.dialog);
            if i < t.modes.len() {
                law_daemon_switches_that_fan(fans[i], i, b, t);
                assert(t1.modes.len() == t.modes.len());
                assert(after.modes[i] == t1.modes[i]);
            }
            assert forall|j: int| 0 <= j < i && j < t.modes.len() implies after.modes[j]
                == #[trigger] t.modes[j] by {
                assert(t1.modes[j] == t.modes[j]);
            }
            if after.log.len() == t.log.len() {
                assert forall|j: int|
                    i <= j < fans.len() && j < t.states.len() && j
                        < t.modes.len() implies written_and_read_back(
                    t.dialog,
                    after.dialog,
                    t.session.conn.port,
                    mode_key((#[trigger] fans[j]).index),
                    byte_of(after.modes[j]),
                ) by {
                    let (p, k) = (t.session.conn.port, mode_key(fans[j].index));
                    if j == i {
                        assert(t1.log == t.log);
                        lemma_still_read_back(
                            t.dialog,
                            t.dialog,
                            t1.dialog,
                            after.dialog,
                            p,
                            k,
                            byte_of(after.modes[j]),
                        );
                    } else {
                        lemma_tame_none(after.dialog);
                        lemma_still_read_back(
                            t.dialog,
                            t1.dialog,
                            after.dialog,
                            after.dialog,
                            p,
                            k,
                            byte_of(after.modes[j]),
                        );
                    }
                }
            }
        }
    }
}

/// A tick serves every fan that was taken over: unless a failure is logged, the
/// byte of the mode that each fan has afterwards was written to the mode key of
/// that very fan, and read back.
pub proof fn law_daemon_tick_serves_every_fan(fans: Seq<FanBinding>, b: Beat, t: Tick, j: int)
    requires
        0 <= j < fans.len(),
        j < t.states.len(),
        j < t.modes.len(),
        ticking(fans, 0, b, t).log.len() == t.log.len(),
    ensures
        written_and_read_back(
            t.dialog,
            ticking(fans, 0, b, t).dialog,
            t.session.conn.port,
            mode_key(fans[j].index),
            byte_of(ticking(fans, 0, b, t).modes[j]),
        ),
{
    lemma_tick_from(fans, 0, b, t);
    assert(fans[j].index == fans[j].index);
}

proof fn lemma_first_with_index(fans: Seq<Fan>, index: u8, i: nat)
    ensures
        first_with_index(fans, index, i) matches Some(e) ==> e.index == index && fans.contains(e),
    decreases fans.len() - i,
{
    if i < fans.len() {
        if fans[i as int].index != index {
            lemma_first_with_index(fans, index, i + 1);
        }
    }
}

/// A fan that was taken over: it has the index and the envelope of a fan of the
/// machine, and starts from the speed that was read of that very fan, or from its
/// minimum if none could be read.
pub open spec fn taken(
    d0: Dialog,
    d1: Dialog,
    port: u32,
    known: Seq<Fan>,
    fan: FanBinding,
    s: FanControlState,
) -> bool {
    &&& s.fan_index == fan.index
    &&& exists|e: Fan| #[trigger]
        known.contains(e) && e.index == fan.index && s.min_rpm == e.min_rpm && s.max_rpm
            == e.max_rpm
    &&& s.slew_limited_rpm == s.min_rpm || float_was_read(
        d0,
        d1,
        port,
        fan_key_of(fan.index as int, 0x41, 0x63),
        s.slew_limited_rpm,
    )
    &&& s.hysteresis.hold_rpm == s.slew_limited_rpm
    &&& s.hysteresis.last_temp == s.driver_temp_smoothed
    &&& !s.panic_state.latched
}

proof fn lemma_looking(fan: FanBinding, min: Flt, s: Session, d: Dialog)
    ensures
        ({
            let ((actual, _), s1, d1) = looking(fan, min, s, d);
            &&& continues(d, d1)
            &&& s1.conn.port == s.conn.port
            &&& s1.fans == s.fans
            &&& actual == min || float_was_read(
                d,
                d1,
                s.conn.port,
                fan_key_of(fan.index as int, 0x41, 0x63),
                actual,
            )
        }),
{
    let key = fan_fourcc(fan.index, UPPER_A, LOWER_C);
    assert(key == fan_key_of(fan.index as int, 0x41, 0x63));
    law_floats_are_what_was_read(s.conn, key, d);
    let (r, c1, d1) = reading_f32(s.conn, key, d);
    law_takeover_temperature_is_the_highest(c1, fan.sensors@, d1);
    law_sensors_are_read_by_their_keys(c1, fan.sensors@, d1);
    let d2 = looking(fan, min, s, d).2;
    lemma_continues_join(d, d1, d2);
    if let Ok(v) = r {
        lemma_float_still_read(d, d, d1, d2, s.conn.port, key as int, v);
    }
}

proof fn lemma_taken_later(
    a: Dialog,
    b: Dialog,
    c: Dialog,
    e: Dialog,
    port: u32,
    known: Seq<Fan>,
    fan: FanBinding,
    s: FanControlState,
)
    requires
        a.asked.len() <= b.asked.len(),
        continues(c, e),
        taken(b, c, port, known, fan, s),
    ensures
        taken(a, e, port, known, fan, s),
{
    if s.slew_limited_rpm != s.min_rpm {
        lemma_float_still_read(
            a,
            b,
            c,
            e,
            port,
            fan_key_of(fan.index as int, 0x41, 0x63),
            s.slew_limited_rpm,
        );
    }
}

proof fn lemma_starting(
    fans: Seq<FanBinding>,
    i: int,
    states: Seq<FanControlState>,
    s: Session,
    d0: Dialog,
    d: Dialog,
)
    requires
        0 <= i <= fans.len(),
        states.len() == i,
        continues(d0, d),
        forall|j: int|
            0 <= j < fans.len() ==> first_with_index(s.fans, (#[trigger] fans[j]).index, 0) is Some,
        forall|j: int|
            0 <= j < i ==> taken(d0, d, s.conn.port, s.fans, fans[j], #[trigger] states[j]),
    ensures
        ({
            let (v, _, d1) = starting(fans, i, states, s, d);
            &&& v.len() == fans.len()
            &&& forall|j: int|
                0 <= j < fans.len() ==> taken(d0, d1, s.conn.port, s.fans, fans[j], #[trigger] v[j])
        }),
    decreases fans.len() - i,
{
    if i < fans.len() {
        assert(first_with_index(s.fans, fans[i].index, 0) is Some);
        let e = first_with_index(s.fans, fans[i].index, 0)->0;
        lemma_first_with_index(s.fans, fans[i].index, 0);
        lemma_looking(fans[i], e.min_rpm, s, d);
        let ((actual, temp), s1, d1) = looking(fans[i], e.min_rpm, s, d);
        let x = crate::control::control_loop::initial(
            fans[i].index,
            e.min_rpm,
            e.max_rpm,
            actual,
            temp,
        );
        assert(s.fans.contains(e));
        assert(taken(d, d1, s.conn.port, s.fans, fans[i], x));
        let more = states.push(x);
        lemma_continues_join(d0, d, d1);
        lemma_tame_none(d1);
        assert forall|j: int| 0 <= j < i + 1 implies taken(
            d0,
            d1,
            s1.conn.port,
            s1.fans,
            fans[j],
            #[trigger] more[j],
        ) by {
            if j < i {
                assert(more[j] == states[j]);
                lemma_taken_later(d0, d0, d, d1, s.conn.port, s.fans, fans[j], states[j]);
            } else {
                lemma_taken_later(d0, d, d1, d1, s.conn.port, s.fans, fans[i], x);
            }
        }
        lemma_starting(fans, i + 1, more, s1, d0, d1);
    }
}

/// Taking over yields a state for every configured fan, each of that very fan.
pub proof fn law_every_fan_is_taken_over_as_itself(fans: Seq<FanBinding>, s: Session, d: Dialog)
    requires
        forall|j: int|
            0 <= j < fans.len() ==> first_with_index(s.fans, (#[trigger] fans[j]).index, 0) is Some,
    ensures
        ({
            let (v, _, d1) = starting(fans, 0, Seq::empty(), s, d);
            &&& v.len() == fans.len()
            &&& forall|j: int|
                0 <= j < fans.len() ==> taken(d, d1, s.conn.port, s.fans, fans[j], #[trigger] v[j])
        }),
{
    lemma_tame_none(d);
    lemma_starting(fans, 0, Seq::empty(), s, d, d);
}

/// `fand set --commit` holds a fan, and exits with 0, exactly if that very fan was
/// forced: then 1 was written to its mode key and read back. Whatever comes of it,
/// no other fan is touched.
pub proof fn law_set_forces_that_fan(
    a: CliSetArgs,
    s: Session,
    safe_min: Option<Flt>,
    version: Seq<char>,
    d: Dialog,
)
    requires
        a.mode == Mode::Commit,
    ensures
        ({
            let (r, _, d1) = setting(a, s, safe_min, version, d);
            &&& writes_only(d, d1, mode_key(a.fan_index), 0x4674_7374, 1)
            &&& r.1 ==> r.0.0 == 0 && a.fan_index < s.fans.len() && written_and_read_back(
                d,
                d1,
                s.conn.port,
                mode_key(a.fan_index),
                1,
            )
            &&& a.fan_index < s.fans.len() ==> r.1 == (committing(
                s,
                a.fan_index,
                clamped_target(
                    a.raw_rpm,
                    floor_of(s.fans[a.fan_index as int].min_rpm, safe_min),
                    s.fans[a.fan_index as int].max_rpm,
                ).to_whole(),
                d,
            ).0 is Ok)
        }),
{
    assert(d.asked.take(d.asked.len() as int) =~= d.asked);
    if a.fan_index < s.fans.len() {
        let fan = s.fans[a.fan_index as int];
        let target = target_of(a.raw_rpm, fan, safe_min);
        law_forcing_touches_no_other_fan(s, a.fan_index, target, d);
        if committing(s, a.fan_index, target, d).0 is Ok {
            law_forcing_reaches_that_fan(s, a.fan_index, target, d);
        }
    }
}

/// A fan that was taken over anew: it starts from the speed that was read of that
/// very fan, or from its minimum if none could be read. Latch and envelope are
/// kept.
pub open spec fn retaken(
    d0: Dialog,
    d1: Dialog,
    port: u32,
    fan: FanBinding,
    before: FanControlState,
    s: FanControlState,
) -> bool {
    &&& s.fan_index == before.fan_index
    &&& s.min_rpm == before.min_rpm
    &&& s.max_rpm == before.max_rpm
    &&& s.panic_state == before.panic_state
    &&& s.slew_limited_rpm == s.min_rpm || float_was_read(
        d0,
        d1,
        port,
        fan_key_of(fan.index as int, 0x41, 0x63),
        s.slew_limited_rpm,
    )
    &&& s.hysteresis.hold_rpm == s.slew_limited_rpm
    &&& s.hysteresis.last_temp == s.driver_temp_smoothed
}

proof fn lemma_resuming(
    fans: Seq<FanBinding>,
    i: int,
    before: Seq<FanControlState>,
    states: Seq<FanControlState>,
    s: Session,
    d0: Dialog,
    d: Dialog,
)
    requires
        0 <= i,
        states.len() == before.len(),
        continues(d0, d),
        forall|j: int|
            0 <= j < i && j < fans.len() && j < states.len() ==> retaken(
                d0,
                d,
                s.conn.port,
                fans[j],
                before[j],
                #[trigger] states[j],
            ),
        forall|j: int| i <= j < states.len() ==> #[trigger] states[j] == before[j],
    ensures
        ({
            let (v, _, d1) = resuming(fans, i, states, s, d);
            &&& v.len() == before.len()
            &&& forall|j: int|
                0 <= j < fans.len() && j < v.len() ==> retaken(
                    d0,
                    d1,
                    s.conn.port,
                    fans[j],
                    before[j],
                    #[trigger] v[j],
                )
        }),
    decreases fans.len() - i,
{
    if i < fans.len() {
        if i >= states.len() {
            lemma_resuming(fans, i + 1, before, states, s, d0, d);
        } else {
            let min = states[i].min_rpm;
            lemma_looking(fans[i], min, s, d);
            let ((actual, temp), s1, d1) = looking(fans[i], min, s, d);
            let x = crate::control::control_loop::taken_over(states[i], actual, temp);
            let more = states.update(i, x);
            lemma_continues_join(d0, d, d1);
            lemma_tame_none(d1);
            let port = s.conn.port;
            assert forall|j: int|
                0 <= j < i + 1 && j < fans.len() && j < more.len() implies retaken(
                d0,
                d1,
                s1.conn.port,
                fans[j],
                before[j],
                #[trigger] more[j],
            ) by {
                let key = fan_key_of(fans[j].index as int, 0x41, 0x63);
                if j < i {
                    assert(more[j] == states[j]);
                    if states[j].slew_limited_rpm != states[j].min_rpm {
                        lemma_float_still_read(
                            d0,
                            d0,
                            d,
                            d1,
                            port,
                            key,
                            states[j].slew_limited_rpm,
                        );
                    }
                } else {
                    assert(states[i] == before[i]);
                    if actual != min {
                        lemma_float_still_read(d0, d, d1, d1, port, key, actual);
                    }
                }
            }
            assert forall|j: int| i + 1 <= j < more.len() implies #[trigger] more[j] == before[j] by {
                assert(more[j] == states[j]);
            }
            lemma_resuming(fans, i + 1, before, more, s1, d0, d1);
        }
    }
}

/// After a sleep every fan is taken over anew as itself.
pub proof fn law_every_fan_resumes_as_itself(
    fans: Seq<FanBinding>,
    states: Seq<FanControlState>,
    s: Session,
    d: Dialog,
)
    ensures
        ({
            let (v, _, d1) = resuming(fans, 0, states, s, d);
            &&& v.len() == states.len()
            &&& forall|j: int|
                0 <= j < fans.len() && j < v.len() ==> retaken(
                    d,
                    d1,
                    s.conn.port,
                    fans[j],
                    states[j],
                    #[trigger] v[j],
                )
        }),
{
    lemma_tame_none(d);
    lemma_resuming(fans, 0, states, states, s, d, d);
}

} // verus!
