//! The command `run`, for real: taking the fans over, and the tick of the
//! daemon.

use super::keyspace::key_of;
use super::run::{
    is_plausible, modes_of, one_warning, plausible, read_max_sensor_temp, reading_max_temp,
};
use super::say::{
    decimal_text, err, put_error, said, silent, start, warn, warn_text, Line, Outcome, Said,
};
use crate::config::reload::ReloadError;
use crate::config::schema::{Config, FanBinding, SensorRef};
use crate::control::adapter::{decided, AppleSiliconAdapter, AppleSiliconDecision};
use crate::control::control_loop::{initial, taken_over, ticked, FanControlState, TickSettings};
use crate::control::fusion::FusionMode;
use crate::control::state::{clamped_target, floor_of, ClampedRpm};
use crate::flt::{whole, Flt, NAN_BITS, NEG_INFINITY_BITS};
use crate::glyph::{plain, put_number, put_text, Glyph};
use crate::log::LogLevel;
use crate::smc::connection::{reading_f32, Conn, SmcConnection};
use crate::smc::enumerate::Fan;
use crate::smc::error::SmcError;
use crate::smc::exchange::{Action, Dialog, Exchange, Request};
use crate::smc::keys::{fan_fourcc, fourcc_from, LOWER_C, UPPER_A};
use crate::smc::write_session::{
    beating, committing, first_with_index, returning, Session, WriteSession,
};
use crate::text::decimal;
use vstd::prelude::*;
use vstd::string::StringExecFns;
use vstd::utf8::encode_utf8;

verus! {

/// A line for the log.
#[derive(Debug, Clone, PartialEq, Eq)]
pub struct Entry {
    pub level: LogLevel,
    pub text: String,
}

/// A line for the log, with its text as a sequence.
pub struct Logged {
    pub level: LogLevel,
    pub text: Seq<char>,
}

/// Lines for the log, with their texts as sequences.
pub open spec fn logged(entries: Seq<Entry>) -> Seq<Logged> {
    Seq::new(entries.len(), |i: int| Logged { level: entries[i].level, text: entries[i].text@ })
}

fn log(entries: &mut Vec<Entry>, level: LogLevel, text: String)
    ensures
        logged(final(entries)@) == logged(old(entries)@).push(Logged { level, text: text@ }),
{
    entries.push(Entry { level, text });
    assert(logged(entries@) =~= logged(old(entries)@).push(Logged { level, text: text@ }));
}

/// What a session that cannot be had comes to.
pub open spec fn acquire_failure(e: SmcError) -> (u8, Seq<Said>) {
    let line = err(plain("fand run: "@) + plain(e.text()));
    match e {
        SmcError::ConflictDetected { .. } => (5, seq![line]),
        SmcError::OpenFailed(_) | SmcError::ServiceNotFound => (
            2,
            seq![line, err(plain("  hint: run as root (sudo fand run ...)"@))],
        ),
        _ => (1, seq![line]),
    }
}

/// What a session that cannot be had comes to.
pub fn code_from_acquire_error(e: &SmcError) -> (r: Outcome)
    ensures
        r@ == acquire_failure(*e),
{
    let mut lines: Vec<Line> = silent();
    let mut m: Vec<Glyph> = start("fand run: ");
    put_error(&mut m, e);
    warn(&mut lines, m);
    let code: u8 = match e {
        SmcError::ConflictDetected { .. } => 5,
        SmcError::OpenFailed(_) | SmcError::ServiceNotFound => {
            warn_text(&mut lines, "  hint: run as root (sudo fand run ...)");
            2
        },
        _ => 1,
    };
    assert(said(lines@) =~= acquire_failure(*e).1);
    Outcome { code, lines }
}

/// The first fan of the configuration, from the `i`-th on, that the machine does
/// not have.
pub open spec fn first_missing(fans: Seq<FanBinding>, i: int, known: Seq<Fan>) -> Option<u8>
    decreases fans.len() - i,
{
    if i >= fans.len() {
        None
    } else if first_with_index(known, fans[i].index, 0) is None {
        Some(fans[i].index)
    } else {
        first_missing(fans, i + 1, known)
    }
}

/// A reading, or something else where there is none.
pub open spec fn reading_or(r: Result<Flt, SmcError>, other: Flt) -> Flt {
    match r {
        Ok(v) => v,
        Err(_) => other,
    }
}

/// Looking at a fan before it is taken over: its speed, and the temperature of
/// its sensors.
pub open spec fn looking(fan: FanBinding, min: Flt, s: Session, d: Dialog) -> (
    (Flt, Flt),
    Session,
    Dialog,
) {
    let (r, c1, d1) = reading_f32(s.conn, fan_fourcc(fan.index, UPPER_A, LOWER_C), d);
    let (temp, c2, d2) = reading_max_temp(
        c1,
        fan.sensors@,
        0,
        Flt { bits: NEG_INFINITY_BITS },
        d1,
    );
    ((reading_or(r, min), temp), Session { conn: c2, ..s }, d2)
}

/// Taking the fans over, from the `i`-th on: each starts from the speed that it
/// has.
pub open spec fn starting(
    fans: Seq<FanBinding>,
    i: int,
    states: Seq<FanControlState>,
    s: Session,
    d: Dialog,
) -> (Seq<FanControlState>, Session, Dialog)
    decreases fans.len() - i,
{
    if i >= fans.len() {
        (states, s, d)
    } else {
        let e = first_with_index(s.fans, fans[i].index, 0)->0;
        let ((actual, temp), s1, d1) = looking(fans[i], e.min_rpm, s, d);
        starting(
            fans,
            i + 1,
            states.push(initial(fans[i].index, e.min_rpm, e.max_rpm, actual, temp)),
            s1,
            d1,
        )
    }
}

/// What is said of a fan that the machine does not have.
pub open spec fn missing_lines(index: u8) -> Seq<Said> {
    seq![
        err(
            plain("fand run: fan index "@) + plain(decimal(index as nat)) + plain(
                " not found on this machine"@,
            ),
        ),
    ]
}

fn look(fan: &FanBinding, min: Flt, session: &mut WriteSession, io: &mut Exchange) -> (r: (Flt, Flt))
    requires
        old(session).wf(),
    ensures
        final(session).wf(),
        (r, final(session)@, final(io)@) == looking(*fan, min, old(session)@, old(io)@),
{
    let actual: Flt = match session.read_actual_rpm(fan.index, io) {
        Ok(v) => v,
        Err(_) => min,
    };
    let conn: &mut SmcConnection = session.connection_mut();
    let temp: Flt = read_max_sensor_temp(conn, fan, io);
    (actual, temp)
}

/// Takes the fans of the configuration over, if the machine has them all.
pub fn begin(fans: &Vec<FanBinding>, session: &mut WriteSession, io: &mut Exchange) -> (r: Result<
    Vec<FanControlState>,
    Outcome,
>)
    requires
        old(session).wf(),
    ensures
        final(session).wf(),
        match first_missing(fans@, 0, old(session)@.fans) {
            Some(index) => {
                &&& r is Err && r->Err_0@ == (1u8, missing_lines(index))
                &&& final(session)@ == old(session)@
                &&& final(io)@ == old(io)@
            },
            None => {
                &&& r is Ok
                &&& (r->Ok_0@, final(session)@, final(io)@) == starting(
                    fans@,
                    0,
                    Seq::empty(),
                    old(session)@,
                    old(io)@,
                )
            },
        },
{
    let mut k: usize = 0;
    let mut envelopes: Vec<Fan> = Vec::new();
    while k < fans.len()
        invariant
            k <= fans@.len(),
            session.wf(),
            session@ == old(session)@,
            io@ == old(io)@,
            envelopes@.len() == k,
            forall|j: int|
                0 <= j < k ==> first_with_index(
                    old(session)@.fans,
                    (#[trigger] fans@[j]).index,
                    0,
                ) == Some(envelopes@[j]),
            first_missing(fans@, 0, old(session)@.fans) == first_missing(
                fans@,
                k as int,
                old(session)@.fans,
            ),
        decreases fans@.len() - k,
    {
        match session.fan_envelope(fans[k].index) {
            Some(e) => {
                envelopes.push(e);
            },
            None => {
                let mut m: Vec<Glyph> = start("fand run: fan index ");
                put_number(&mut m, fans[k].index as u64);
                put_text(&mut m, " not found on this machine");
                return Err(one_warning(1, m));
            },
        }
        k = k + 1;
    }
    let mut states: Vec<FanControlState> = Vec::new();
    let mut i: usize = 0;
    while i < fans.len()
        invariant
            i <= fans@.len(),
            session.wf(),
            session@.fans == old(session)@.fans,
            envelopes@.len() == fans@.len(),
            forall|j: int|
                0 <= j < fans@.len() ==> first_with_index(
                    old(session)@.fans,
                    (#[trigger] fans@[j]).index,
                    0,
                ) == Some(envelopes@[j]),
            starting(fans@, i as int, states@, session@, io@) == starting(
                fans@,
                0,
                Seq::empty(),
                old(session)@,
                old(io)@,
            ),
        decreases fans@.len() - i,
    {
        let e: Fan = envelopes[i];
        let ghost before = session@;
        assert(first_with_index(before.fans, fans@[i as int].index, 0) == Some(e));
        let (actual, temp) = look(&fans[i], e.min_rpm, session, io);
        states.push(FanControlState::new(fans[i].index, e.min_rpm, e.max_rpm, actual, temp));
        i = i + 1;
    }
    Ok(states)
}

/// Reading the sensors of a fan, from the `j`-th on. One that cannot be read
/// gives no number.
pub open spec fn reading_sensors(
    c: Conn,
    sensors: Seq<SensorRef>,
    j: int,
    values: Seq<Flt>,
    d: Dialog,
) -> (Seq<Flt>, Conn, Dialog)
    decreases sensors.len() - j,
{
    if j >= sensors.len() {
        (values, c, d)
    } else {
        let name = encode_utf8(sensors[j].key());
        if name.len() != 4 {
            reading_sensors(c, sensors, j + 1, values.push(Flt { bits: NAN_BITS }), d)
        } else {
            let (r, c1, d1) = reading_f32(c, key_of(name), d);
            reading_sensors(
                c1,
                sensors,
                j + 1,
                values.push(reading_or(r, Flt { bits: NAN_BITS })),
                d1,
            )
        }
    }
}

/// Which readings are not believed.
pub open spec fn dropouts(values: Seq<Flt>) -> Seq<bool> {
    Seq::new(values.len(), |i: int| !plausible(values[i]))
}

fn read_sensors(conn: &mut SmcConnection, sensors: &Vec<SensorRef>, io: &mut Exchange) -> (r: Vec<
    Flt,
>)
    requires
        old(conn).wf(),
    ensures
        final(conn).wf(),
        (r@, final(conn)@, final(io)@) == reading_sensors(
            old(conn)@,
            sensors@,
            0,
            Seq::empty(),
            old(io)@,
        ),
{
    let mut values: Vec<Flt> = Vec::new();
    let mut j: usize = 0;
    while j < sensors.len()
        invariant
            j <= sensors@.len(),
            conn.wf(),
            reading_sensors(conn@, sensors@, j as int, values@, io@) == reading_sensors(
                old(conn)@,
                sensors@,
                0,
                Seq::empty(),
                old(io)@,
            ),
        decreases sensors@.len() - j,
    {
        let bytes: &[u8] = sensors[j].as_str().as_bytes();
        let v: Flt = if bytes.len() != 4 {
            Flt { bits: NAN_BITS }
        } else {
            match conn.read_f32(fourcc_from(bytes[0], bytes[1], bytes[2], bytes[3]), io) {
                Ok(x) => x,
                Err(_) => Flt { bits: NAN_BITS },
            }
        };
        values.push(v);
        j = j + 1;
    }
    values
}

fn find_dropouts(values: &Vec<Flt>) -> (r: Vec<bool>)
    ensures
        r@ == dropouts(values@),
{
    let mut r: Vec<bool> = Vec::new();
    let mut i: usize = 0;
    while i < values.len()
        invariant
            i <= values@.len(),
            r@.len() == i,
            forall|j: int| 0 <= j < i ==> r@[j] == !plausible(values@[j]),
        decreases values@.len() - i,
    {
        r.push(!is_plausible(values[i]));
        i = i + 1;
    }
    assert(r@ =~= dropouts(values@));
    r
}

/// 10^9
pub const NANOS_BITS: u32 = 0x4E6E_6B28;

/// 0.001
pub const MIN_DT_BITS: u32 = 0x3A83_126F;

/// A number of nanoseconds, as seconds.
pub open spec fn seconds(ns: u64) -> Flt {
    whole((ns / 1_000_000_000) as nat).plus(
        whole((ns % 1_000_000_000) as nat).over(Flt { bits: NANOS_BITS }),
    )
}

/// The time since the tick began, in seconds, but at least a millisecond.
pub open spec fn time_step(start: u64, now: u64) -> Flt {
    seconds(
        (if now < start {
            0
        } else {
            now - start
        }) as u64,
    ).larger(Flt { bits: MIN_DT_BITS })
}

fn step_between(begun: u64, now: u64) -> (r: Flt)
    ensures
        r == time_step(begun, now),
{
    let ns: u64 = if now < begun {
        0
    } else {
        now - begun
    };
    let whole_part: Flt = Flt::from_u64(ns / 1_000_000_000);
    let nanos: Flt = Flt::from_u64(ns % 1_000_000_000);
    whole_part.add(nanos.div(Flt { bits: NANOS_BITS })).max(Flt { bits: MIN_DT_BITS })
}

/// The settings that a tick goes by.
pub open spec fn settings_of(fan: FanBinding) -> TickSettings {
    TickSettings {
        alpha: fan.smoothing_alpha,
        hyst_up: fan.hysteresis_up,
        hyst_down: fan.hysteresis_down,
        ramp_down_rpm_per_s: whole(fan.ramp_down_rpm_per_s as nat),
        panic_temp_c: fan.panic_temp_c,
        panic_hold_s: fan.panic_hold_s,
    }
}

/// How readings are combined.
pub open spec fn fusion_of(fan: FanBinding) -> FusionMode {
    if fan.fusion@ == "mean"@ {
        FusionMode::Mean
    } else {
        FusionMode::Max
    }
}

/// The state of the daemon during a tick.
pub struct Tick {
    pub session: Session,
    pub states: Seq<FanControlState>,
    pub modes: Seq<AppleSiliconDecision>,
    pub log: Seq<Logged>,
    pub dialog: Dialog,
}

/// What stays the same during a tick.
pub struct Beat {
    pub number: u64,
    pub start: u64,
    pub safe_min: Option<Flt>,
}

/// Carrying a mode out: a fan is forced to its minimum, or left to the
/// firmware.
pub open spec fn carrying_out(
    mode: AppleSiliconDecision,
    fan_index: u8,
    minimum: u32,
    s: Session,
    d: Dialog,
) -> (Result<(), SmcError>, Session, Dialog) {
    match mode {
        AppleSiliconDecision::ForcedMinimum => committing(s, fan_index, minimum, d),
        AppleSiliconDecision::Auto => returning(s, fan_index, d),
    }
}

/// What is logged of a write that failed.
pub open spec fn failure_entry(number: u64, fan_index: u8, e: SmcError) -> Logged {
    Logged {
        level: LogLevel::Error,
        text: "tick "@ + decimal(number as nat) + " fan "@ + decimal(fan_index as nat)
            + ": write failed: "@ + e.text(),
    }
}

/// The tick of one fan: read its sensors, choose a speed and with it a mode,
/// and carry the mode out. What is asked of a forced fan is its minimum, also
/// where the speed lies in the deadband above it.
pub open spec fn ticking_fan(fan: FanBinding, i: int, b: Beat, t: Tick) -> Tick {
    let (values, c1, d1) = reading_sensors(t.session.conn, fan.sensors@, 0, Seq::empty(), t.dialog);
    let s1 = Session { conn: c1, ..t.session };
    let dt = time_step(b.start, d1.answer().value);
    let d2 = d1.after(Action::Timer);
    let (state, target) = ticked(
        t.states[i],
        values,
        dropouts(values),
        fusion_of(fan),
        fan.curve@,
        settings_of(fan),
        dt,
        b.start,
        b.safe_min,
    );
    let states = t.states.update(i, state);
    if i >= t.modes.len() {
        Tick { session: s1, states, dialog: d2, ..t }
    } else {
        let mode = decided(t.modes[i], target, state.min_rpm, state.max_rpm);
        let rpm = clamped_target(
            state.min_rpm,
            floor_of(state.min_rpm, b.safe_min),
            state.max_rpm,
        ).to_whole();
        let (r, s2, d3) = carrying_out(mode, fan.index, rpm, s1, d2);
        Tick {
            session: s2,
            states,
            modes: t.modes.update(i, mode),
            log: match r {
                Ok(_) => t.log,
                Err(e) => t.log.push(failure_entry(b.number, fan.index, e)),
            },
            dialog: d3,
        }
    }
}

/// The tick of the fans from the `i`-th on. A fan that was not taken over is
/// left out.
pub open spec fn ticking(fans: Seq<FanBinding>, i: int, b: Beat, t: Tick) -> Tick
    decreases fans.len() - i,
{
    if i >= fans.len() {
        t
    } else if i >= t.states.len() {
        ticking(fans, i + 1, b, t)
    } else {
        ticking(fans, i + 1, b, ticking_fan(fans[i], i, b, t))
    }
}

/// A tick: every fan, and a heartbeat behind them.
pub open spec fn beating_tick(fans: Seq<FanBinding>, b: Beat, t: Tick) -> Tick {
    let after = ticking(fans, 0, b, t);
    let (s, d) = beating(after.session, after.dialog);
    Tick { session: s, dialog: d, ..after }
}

fn failure_text(number: u64, fan_index: u8, e: &SmcError) -> (r: String)
    ensures
        r@ == failure_entry(number, fan_index, *e).text,
{
    let mut s: String = "tick ".to_owned();
    s.append(decimal_text(number).as_str());
    s.append(" fan ");
    s.append(decimal_text(fan_index as u64).as_str());
    s.append(": write failed: ");
    s.append(e.message().as_str());
    s
}

fn tick_fan(
    fan: &FanBinding,
    i: usize,
    tick_number: u64,
    tick_start: u64,
    safe_min: Option<Flt>,
    session: &mut WriteSession,
    states: &mut Vec<FanControlState>,
    adapters: &mut Vec<AppleSiliconAdapter>,
    entries: &mut Vec<Entry>,
    io: &mut Exchange,
)
    requires
        old(session).wf(),
        i < old(states)@.len(),
    ensures
        final(session).wf(),
        final(states)@.len() == old(states)@.len(),
        (Tick {
            session: final(session)@,
            states: final(states)@,
            modes: modes_of(final(adapters)@),
            log: logged(final(entries)@),
            dialog: final(io)@,
        }) == ticking_fan(
            *fan,
            i as int,
            (Beat { number: tick_number, start: tick_start, safe_min }),
            (Tick {
                session: old(session)@,
                states: old(states)@,
                modes: modes_of(old(adapters)@),
                log: logged(old(entries)@),
                dialog: old(io)@,
            }),
        ),
{
    let values: Vec<Flt> = read_sensors(session.connection_mut(), &fan.sensors, io);
    let missing: Vec<bool> = find_dropouts(&values);
    let mode: FusionMode = FusionMode::from_str_lossy(fan.fusion.as_str());
    let now: u64 = io.ask(Request::Timer).value;
    let dt: Flt = step_between(tick_start, now);
    let mut state: FanControlState = states[i];
    let target: Flt = state.tick(
        values.as_slice(),
        missing.as_slice(),
        mode,
        fan.curve.as_slice(),
        fan.smoothing_alpha,
        fan.hysteresis_up,
        fan.hysteresis_down,
        Flt::from_u32(fan.ramp_down_rpm_per_s),
        fan.panic_temp_c,
        fan.panic_hold_s,
        dt,
        tick_start,
        safe_min,
    );
    states[i] = state;
    if i >= adapters.len() {
        return;
    }
    let mut adapter: AppleSiliconAdapter = adapters[i];
    let decision: AppleSiliconDecision = adapter.decide(target, state.min_rpm, state.max_rpm);
    adapters[i] = adapter;
    assert(modes_of(adapters@) =~= modes_of(old(adapters)@).update(i as int, decision));
    let result: Result<(), SmcError> = match decision {
        AppleSiliconDecision::ForcedMinimum => {
            let minimum: ClampedRpm = ClampedRpm::new(
                state.min_rpm,
                state.min_rpm,
                state.max_rpm,
                safe_min,
            );
            session.commit_set_fan(fan.index, minimum, io)
        },
        AppleSiliconDecision::Auto => session.return_to_auto(fan.index, io),
    };
    if let Err(e) = result {
        log(entries, LogLevel::Error, failure_text(tick_number, fan.index, &e));
    }
}

/// A tick of the daemon. Returns what is to be logged.
pub fn commit_tick(
    fans: &Vec<FanBinding>,
    tick_number: u64,
    tick_start: u64,
    safe_min: Option<Flt>,
    session: &mut WriteSession,
    states: &mut Vec<FanControlState>,
    adapters: &mut Vec<AppleSiliconAdapter>,
    io: &mut Exchange,
) -> (entries: Vec<Entry>)
    requires
        old(session).wf(),
    ensures
        final(session).wf(),
        (Tick {
            session: final(session)@,
            states: final(states)@,
            modes: modes_of(final(adapters)@),
            log: logged(entries@),
            dialog: final(io)@,
        }) == beating_tick(
            fans@,
            (Beat { number: tick_number, start: tick_start, safe_min }),
            (Tick {
                session: old(session)@,
                states: old(states)@,
                modes: modes_of(old(adapters)@),
                log: Seq::empty(),
                dialog: old(io)@,
            }),
        ),
{
    let ghost b = Beat { number: tick_number, start: tick_start, safe_min };
    let mut entries: Vec<Entry> = Vec::new();
    assert(logged(entries@) =~= Seq::<Logged>::empty());
    let ghost t0 = Tick {
        session: session@,
        states: states@,
        modes: modes_of(adapters@),
        log: logged(entries@),
        dialog: io@,
    };
    let mut i: usize = 0;
    while i < fans.len()
        invariant
            i <= fans@.len(),
            session.wf(),
            b == (Beat { number: tick_number, start: tick_start, safe_min }),
            ticking(
                fans@,
                i as int,
                b,
                Tick {
                    session: session@,
                    states: states@,
                    modes: modes_of(adapters@),
                    log: logged(entries@),
                    dialog: io@,
                },
            ) == ticking(fans@, 0, b, t0),
        decreases fans@.len() - i,
    {
        if i < states.len() {
            tick_fan(
                &fans[i],
                i,
                tick_number,
                tick_start,
                safe_min,
                session,
                states,
                adapters,
                &mut entries,
                io,
            );
        }
        i = i + 1;
    }
    session.heartbeat(io);
    entries
}

/// What follows a tick.
#[derive(Debug, Clone, Copy, PartialEq, Eq)]
pub struct AfterTick {
    /// The machine was asleep: take the fans over anew.
    pub woke: bool,
    /// The tick took longer than the interval.
    pub overrun: bool,
    /// How long to wait, in nanoseconds.
    pub sleep_ns: u64,
}

/// What follows a tick that took `elapsed_ns`.
pub fn after_tick(poll_ms: u32, elapsed_ns: u64) -> (r: AfterTick)
    ensures
        r.woke == (elapsed_ns > 2 * (poll_ms * 1_000_000)),
        r.overrun == (elapsed_ns > poll_ms * 1_000_000),
        r.sleep_ns == super::run::rest(poll_ms, elapsed_ns),
{
    let poll: u64 = poll_ms as u64 * 1_000_000;
    AfterTick {
        woke: elapsed_ns > 2 * poll,
        overrun: elapsed_ns > poll,
        sleep_ns: super::run::sleep_time(poll_ms, elapsed_ns),
    }
}

/// Taking the fans over anew, from the `i`-th on: each goes on from the speed
/// that it has now.
pub open spec fn resuming(
    fans: Seq<FanBinding>,
    i: int,
    states: Seq<FanControlState>,
    s: Session,
    d: Dialog,
) -> (Seq<FanControlState>, Session, Dialog)
    decreases fans.len() - i,
{
    if i >= fans.len() {
        (states, s, d)
    } else if i >= states.len() {
        resuming(fans, i + 1, states, s, d)
    } else {
        let ((actual, temp), s1, d1) = looking(fans[i], states[i].min_rpm, s, d);
        resuming(
            fans,
            i + 1,
            states.update(i, taken_over(states[i], actual, temp)),
            s1,
            d1,
        )
    }
}

/// Takes the fans over anew, after the machine was asleep.
pub fn resume(
    fans: &Vec<FanBinding>,
    session: &mut WriteSession,
    states: &mut Vec<FanControlState>,
    io: &mut Exchange,
)
    requires
        old(session).wf(),
    ensures
        final(session).wf(),
        (final(states)@, final(session)@, final(io)@) == resuming(
            fans@,
            0,
            old(states)@,
            old(session)@,
            old(io)@,
        ),
{
    let mut i: usize = 0;
    while i < fans.len()
        invariant
            i <= fans@.len(),
            session.wf(),
            resuming(fans@, i as int, states@, session@, io@) == resuming(
                fans@,
                0,
                old(states)@,
                old(session)@,
                old(io)@,
            ),
        decreases fans@.len() - i,
    {
        if i < states.len() {
            let mut state: FanControlState = states[i];
            let (actual, temp) = look(&fans[i], state.min_rpm, session, io);
            state.reinit_bumpless(actual, temp);
            states[i] = state;
        }
        i = i + 1;
    }
}

/// What the daemon goes by: a configuration, and of each of its fans the state
/// and the mode.
#[derive(Debug, Clone)]
pub struct Active {
    pub config: Config,
    pub states: Vec<FanControlState>,
    pub adapters: Vec<AppleSiliconAdapter>,
}

impl Active {
    /// A configuration whose fans were just taken over. The modes start as
    /// automatic.
    #[must_use]
    pub fn new(config: Config, states: Vec<FanControlState>) -> (r: Active)
        ensures
            r.config == config,
            r.states == states,
            modes_of(r.adapters@) == Seq::new(
                config.fan@.len(),
                |i: int| AppleSiliconDecision::Auto,
            ),
    {
        let n: usize = config.fan.len();
        let mut adapters: Vec<AppleSiliconAdapter> = Vec::new();
        while adapters.len() < n
            invariant
                adapters@.len() <= n,
                forall|i: int|
                    0 <= i < adapters@.len() ==> (#[trigger] adapters@[i]).current
                        == AppleSiliconDecision::Auto,
            decreases n - adapters@.len(),
        {
            adapters.push(AppleSiliconAdapter::new());
        }
        assert(modes_of(adapters@) =~= Seq::new(n as nat, |i: int| AppleSiliconDecision::Auto));
        Active { config, states, adapters }
    }
}

/// Why a new configuration was not taken in.
#[derive(Debug, PartialEq, Eq)]
pub enum ReloadFailure {
    /// It could not be read, or is not sound.
    Refused(ReloadError),
    /// Its fans could not be taken over.
    NotTaken(Outcome),
}

/// What the daemon goes by after an attempt to take in a new configuration, of
/// which it is known whether its fans could be taken over: the new one if they
/// could, else what it went by before; and why the new one was not taken in.
pub fn apply_reload(
    active: Active,
    reloaded: Result<(Config, Result<Vec<FanControlState>, Outcome>), ReloadError>,
) -> (r: (Active, Option<ReloadFailure>))
    ensures
        match reloaded {
            Ok((new, Ok(states))) => {
                &&& r.0.config == new
                &&& r.0.states == states
                &&& modes_of(r.0.adapters@) == Seq::new(
                    new.fan@.len(),
                    |i: int| AppleSiliconDecision::Auto,
                )
                &&& r.1 is None
            },
            Ok((_, Err(o))) => r == (active, Some(ReloadFailure::NotTaken(o))),
            Err(e) => r == (active, Some(ReloadFailure::Refused(e))),
        },
{
    match reloaded {
        Ok((new, Ok(states))) => (Active::new(new, states), None),
        Ok((_, Err(o))) => (active, Some(ReloadFailure::NotTaken(o))),
        Err(e) => (active, Some(ReloadFailure::Refused(e))),
    }
}

/// What is logged when a run begins.
pub fn starting_text(version: &str, mode: &str, session: &str) -> (r: String)
    ensures
        r@ == "fand "@ + version@ + mode@ + " starting (session "@ + session@ + ")"@,
{
    let mut s: String = "fand ".to_owned();
    s.append(version);
    s.append(mode);
    s.append(" starting (session ");
    s.append(session);
    s.append(")");
    s
}

/// What is logged when a session was taken.
pub fn acquired_text(fans: usize) -> (r: String)
    ensures
        r@ == "WriteSession acquired, "@ + decimal(fans as nat) + " fans enumerated"@,
{
    let mut s: String = "WriteSession acquired, ".to_owned();
    s.append(decimal_text(fans as u64).as_str());
    s.append(" fans enumerated");
    s
}

/// What is logged when the ticks begin.
pub fn loop_text(poll_ms: u32, fans: usize) -> (r: String)
    ensures
        r@ == "tick loop starting, poll_interval="@ + decimal(poll_ms as nat) + "ms, "@ + decimal(
            fans as nat,
        ) + " fans"@,
{
    let mut s: String = "tick loop starting, poll_interval=".to_owned();
    s.append(decimal_text(poll_ms as u64).as_str());
    s.append("ms, ");
    s.append(decimal_text(fans as u64).as_str());
    s.append(" fans");
    s
}

/// What is logged when the machine was asleep.
pub fn wake_text(tick_number: u64, elapsed: &str) -> (r: String)
    ensures
        r@ == "tick "@ + decimal(tick_number as nat) + ": detected wake from sleep (elapsed "@
            + elapsed@ + "), performing bumpless transfer"@,
{
    let mut s: String = "tick ".to_owned();
    s.append(decimal_text(tick_number).as_str());
    s.append(": detected wake from sleep (elapsed ");
    s.append(elapsed);
    s.append("), performing bumpless transfer");
    s
}

/// What is logged when a tick took too long.
pub fn overrun_text(tick_number: u64, excess: &str) -> (r: String)
    ensures
        r@ == "tick "@ + decimal(tick_number as nat) + ": overrun by "@ + excess@,
{
    let mut s: String = "tick ".to_owned();
    s.append(decimal_text(tick_number).as_str());
    s.append(": overrun by ");
    s.append(excess);
    s
}

} // verus!
