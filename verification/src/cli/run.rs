//! The command `run`: its arguments, and the tick that only shows what it would
//! do.

use super::keyspace::key_of;
use super::say::{err, out, said, say, silent, start, warn, Line, Outcome, Said};
use crate::config::reload::ReloadError;
use crate::config::schema::{FanBinding, SensorRef, ValidationError, Violation};
use crate::config::validate::listed;
use crate::control::adapter::{decided, AppleSiliconAdapter, AppleSiliconDecision};
use crate::control::curve::{evaluate, evaluated};
use crate::control::state::{clamped_target, floor_of, ClampedRpm};
use crate::flt::{whole, Flt, NEG_INFINITY_BITS};
use crate::glyph::{
    fixed, plain, put_fixed, put_glyphs, put_number, put_text, shown, Glyph, Mark,
};
use crate::smc::connection::{reading_f32, Conn, SmcConnection};
use crate::smc::exchange::{Action, Dialog, Exchange, Request};
use crate::smc::keys::fourcc_from;
use crate::text::{decimal, same_text, texts};
use vstd::prelude::*;
use vstd::utf8::encode_utf8;

verus! {

/// The arguments.
#[derive(Debug, Clone, PartialEq, Eq)]
pub struct RunArgs {
    pub config_path: String,
    pub dry_run: bool,
    pub once: bool,
    pub json: bool,
}

/// The arguments, with the path as a sequence.
pub struct RunAsk {
    pub config_path: Seq<char>,
    pub dry_run: bool,
    pub once: bool,
    pub json: bool,
}

impl RunArgs {
    pub open spec fn view(&self) -> RunAsk {
        RunAsk {
            config_path: self.config_path@,
            dry_run: self.dry_run,
            once: self.once,
            json: self.json,
        }
    }
}

/// The arguments from the `i`-th on, behind those that were read before; or
/// what the command comes to without running.
pub open spec fn run_args(args: Seq<Seq<char>>, i: int, p: RunAsk) -> Result<
    RunAsk,
    (u8, Seq<Said>),
>
    decreases args.len() - i,
{
    if i >= args.len() {
        Ok(p)
    } else if args[i] == "--config"@ {
        if i + 1 >= args.len() {
            Err((64, seq![err(plain("fand run: --config requires a path"@))]))
        } else {
            run_args(args, i + 2, RunAsk { config_path: args[i + 1], ..p })
        }
    } else if args[i] == "--dry-run"@ {
        run_args(args, i + 1, RunAsk { dry_run: true, ..p })
    } else if args[i] == "--once"@ {
        run_args(args, i + 1, RunAsk { once: true, ..p })
    } else if args[i] == "--json"@ {
        run_args(args, i + 1, RunAsk { json: true, ..p })
    } else if args[i] == "--help"@ || args[i] == "-h"@ {
        Err(
            (
                0,
                seq![
                    err(
                        plain(
                            "usage: fand run [--config PATH] [--dry-run] [--once] [--json]"@,
                        ),
                    ),
                ],
            ),
        )
    } else {
        Err((64, seq![err(plain("fand run: unknown option '"@) + plain(args[i]) + plain("'"@))]))
    }
}

/// What holds without arguments.
pub open spec fn default_args() -> RunAsk {
    RunAsk { config_path: "/etc/fand.toml"@, dry_run: false, once: false, json: false }
}

/// An outcome of one line on the error output.
pub fn one_warning(code: u8, m: Vec<Glyph>) -> (r: Outcome)
    ensures
        r@ == (code, seq![err(shown(m@))]),
{
    let mut lines: Vec<Line> = silent();
    warn(&mut lines, m);
    assert(said(lines@) =~= seq![err(shown(m@))]);
    Outcome { code, lines }
}

/// What is said of an option that is not known.
pub fn unknown_option(command: &str, option: &str) -> (r: Outcome)
    ensures
        r@ == (64u8, seq![err(plain(command@) + plain(option@) + plain("'"@))]),
{
    let mut m: Vec<Glyph> = start(command);
    put_text(&mut m, option);
    put_text(&mut m, "'");
    one_warning(64, m)
}

/// Reads the arguments.
pub fn parse_args(args: &Vec<String>) -> (r: Result<RunArgs, Outcome>)
    ensures
        match r {
            Ok(a) => run_args(texts(args@), 0, default_args()) == Ok::<RunAsk, (u8, Seq<Said>)>(
                a@,
            ),
            Err(o) => run_args(texts(args@), 0, default_args()) == Err::<RunAsk, (u8, Seq<Said>)>(
                o@,
            ),
        },
{
    let ghost words = texts(args@);
    let mut config_path: String = "/etc/fand.toml".to_owned();
    let mut dry_run: bool = false;
    let mut once: bool = false;
    let mut json: bool = false;
    let mut i: usize = 0;
    let len: usize = args.len();
    while i < len
        invariant
            i <= len,
            len == args@.len(),
            words == texts(args@),
            run_args(words, 0, default_args()) == run_args(
                words,
                i as int,
                RunAsk { config_path: config_path@, dry_run, once, json },
            ),
        decreases len - i,
    {
        let arg: &str = args[i].as_str();
        assert(words[i as int] == arg@);
        if same_text(arg, "--config") {
            if i + 1 >= len {
                return Err(one_warning(64, start("fand run: --config requires a path")));
            }
            i = i + 1;
            let v: &str = args[i].as_str();
            assert(words[i as int] == v@);
            config_path = v.to_owned();
        } else if same_text(arg, "--dry-run") {
            dry_run = true;
        } else if same_text(arg, "--once") {
            once = true;
        } else if same_text(arg, "--json") {
            json = true;
        } else if same_text(arg, "--help") || same_text(arg, "-h") {
            return Err(
                one_warning(
                    0,
                    start("usage: fand run [--config PATH] [--dry-run] [--once] [--json]"),
                ),
            );
        } else {
            return Err(unknown_option("fand run: unknown option '", arg));
        }
        i = i + 1;
    }
    Ok(RunArgs { config_path, dry_run, once, json })
}

/// Each error on a line of its own, behind the name of the command.
pub open spec fn error_lines(command: Seq<char>, errors: Seq<Violation>) -> Seq<Said>
    decreases errors.len(),
{
    if errors.len() == 0 {
        Seq::empty()
    } else {
        error_lines(command, errors.drop_last()).push(err(plain(command) + errors.last().words()))
    }
}

/// What a configuration that is not taken in comes to.
pub open spec fn config_failure(command: Seq<char>, e: ReloadError) -> (u8, Seq<Said>) {
    match e {
        ReloadError::Load(v) => (1, seq![err(plain(command) + v@.words())]),
        ReloadError::Validation(vs) => (1, error_lines(command, listed(vs@))),
    }
}

fn error_message(command: &str, e: &ValidationError) -> (m: Vec<Glyph>)
    ensures
        shown(m@) == plain(command@) + e@.words(),
{
    let mut m: Vec<Glyph> = start(command);
    let words: Vec<Glyph> = e.message();
    put_glyphs(&mut m, &words);
    m
}

/// What a configuration that is not taken in comes to.
pub fn say_config_failure(command: &str, e: &ReloadError) -> (r: Outcome)
    ensures
        r@ == config_failure(command@, *e),
{
    match e {
        ReloadError::Load(v) => one_warning(1, error_message(command, v)),
        ReloadError::Validation(vs) => {
            let mut lines: Vec<Line> = silent();
            let ghost all = listed(vs@);
            let mut i: usize = 0;
            assert(all.take(0) =~= Seq::<Violation>::empty());
            while i < vs.len()
                invariant
                    i <= vs@.len(),
                    all == listed(vs@),
                    said(lines@) == error_lines(command@, all.take(i as int)),
                decreases vs@.len() - i,
            {
                warn(&mut lines, error_message(command, &vs[i]));
                proof {
                    let next = all.take(i + 1);
                    assert(next.drop_last() =~= all.take(i as int));
                    assert(next.last() == vs@[i as int]@);
                }
                i = i + 1;
            }
            assert(all.take(all.len() as int) =~= all);
            Outcome { code: 1, lines }
        },
    }
}

/// 65.0, the temperature that stands in where none can be read.
pub const PLACEHOLDER_BITS: u32 = 0x4282_0000;

/// 150.0, the highest temperature that is believed.
pub const MAX_TEMP_BITS: u32 = 0x4316_0000;

/// 1300.0, the minimum of the fan that a dry run supposes.
pub const DRY_MIN_BITS: u32 = 0x44A2_8000;

/// 6550.0, the maximum of the fan that a dry run supposes.
pub const DRY_MAX_BITS: u32 = 0x45CC_B000;

/// A temperature that is believed.
pub open spec fn plausible(v: Flt) -> bool {
    v.finite() && (Flt { bits: 0 }).at_most(v) && v.at_most(Flt { bits: MAX_TEMP_BITS })
}

/// A temperature that is believed.
pub fn is_plausible(v: Flt) -> (r: bool)
    ensures
        r == plausible(v),
{
    let zero: Flt = Flt { bits: 0 };
    v.is_finite() && zero.le(v) && v.le(Flt { bits: MAX_TEMP_BITS })
}

/// Reading the sensors from the `i`-th on: the highest temperature that is
/// believed, or the placeholder if there is none.
pub open spec fn reading_max_temp(
    c: Conn,
    sensors: Seq<SensorRef>,
    i: int,
    max: Flt,
    d: Dialog,
) -> (Flt, Conn, Dialog)
    decreases sensors.len() - i,
{
    if i >= sensors.len() {
        (
            if max.bits == NEG_INFINITY_BITS {
                Flt { bits: PLACEHOLDER_BITS }
            } else {
                max
            },
            c,
            d,
        )
    } else {
        let name = encode_utf8(sensors[i].key());
        if name.len() != 4 {
            reading_max_temp(c, sensors, i + 1, max, d)
        } else {
            let (r, c1, d1) = reading_f32(c, key_of(name), d);
            match r {
                Ok(v) => reading_max_temp(
                    c1,
                    sensors,
                    i + 1,
                    if plausible(v) && max.less(v) {
                        v
                    } else {
                        max
                    },
                    d1,
                ),
                Err(_) => reading_max_temp(c1, sensors, i + 1, max, d1),
            }
        }
    }
}

/// The temperature of a fan without a connection, or with one.
pub open spec fn sensing(c: Option<Conn>, sensors: Seq<SensorRef>, d: Dialog) -> (
    Flt,
    Option<Conn>,
    Dialog,
) {
    match c {
        None => (Flt { bits: PLACEHOLDER_BITS }, None, d),
        Some(conn) => {
            let (t, c1, d1) = reading_max_temp(
                conn,
                sensors,
                0,
                Flt { bits: NEG_INFINITY_BITS },
                d,
            );
            (t, Some(c1), d1)
        },
    }
}

/// Reads the highest temperature of the sensors of a fan.
pub fn read_max_sensor_temp(conn: &mut SmcConnection, fan: &FanBinding, io: &mut Exchange) -> (r: Flt)
    requires
        old(conn).wf(),
    ensures
        final(conn).wf(),
        (r, final(conn)@, final(io)@) == reading_max_temp(
            old(conn)@,
            fan.sensors@,
            0,
            Flt { bits: NEG_INFINITY_BITS },
            old(io)@,
        ),
{
    let mut max_temp: Flt = Flt { bits: NEG_INFINITY_BITS };
    let mut i: usize = 0;
    while i < fan.sensors.len()
        invariant
            i <= fan.sensors@.len(),
            conn.wf(),
            reading_max_temp(conn@, fan.sensors@, i as int, max_temp, io@) == reading_max_temp(
                old(conn)@,
                fan.sensors@,
                0,
                Flt { bits: NEG_INFINITY_BITS },
                old(io)@,
            ),
        decreases fan.sensors@.len() - i,
    {
        let bytes: &[u8] = fan.sensors[i].as_str().as_bytes();
        if bytes.len() == 4 {
            let fourcc: u32 = fourcc_from(bytes[0], bytes[1], bytes[2], bytes[3]);
            if let Ok(v) = conn.read_f32(fourcc, io) {
                if is_plausible(v) && max_temp.lt(v) {
                    max_temp = v;
                }
            }
        }
        i = i + 1;
    }
    if max_temp.bits == NEG_INFINITY_BITS {
        Flt { bits: PLACEHOLDER_BITS }
    } else {
        max_temp
    }
}

/// A mode as a word.
pub open spec fn mode_word(mode: Option<AppleSiliconDecision>) -> Seq<char> {
    match mode {
        Some(AppleSiliconDecision::ForcedMinimum) => "forced_minimum"@,
        Some(AppleSiliconDecision::Auto) => "auto"@,
        None => "unknown"@,
    }
}

/// A mode as a word.
pub fn mode_text(mode: Option<AppleSiliconDecision>) -> (r: &'static str)
    ensures
        r@ == mode_word(mode),
{
    match mode {
        Some(AppleSiliconDecision::ForcedMinimum) => "forced_minimum",
        Some(AppleSiliconDecision::Auto) => "auto",
        None => "unknown",
    }
}

/// What a tick that only shows came to, for one fan.
#[derive(Debug, Clone, Copy, PartialEq, Eq)]
pub struct DryFan {
    pub fan_index: u8,
    pub temp: Flt,
    pub raw_rpm: Flt,
    pub clamped: u32,
    pub mode: Option<AppleSiliconDecision>,
}

/// The line on a fan.
pub open spec fn human_line(tick: u64, f: DryFan) -> Seq<Mark> {
    plain("[tick "@) + plain(decimal(tick as nat)) + plain("] fan "@) + plain(
        decimal(f.fan_index as nat),
    ) + plain(" | temp="@) + fixed(f.temp, 0, 1) + plain("°C | curve="@) + fixed(f.raw_rpm, 0, 0)
        + plain(" RPM | clamped="@) + plain(decimal(f.clamped as nat)) + plain(" RPM | mode="@)
        + plain(mode_word(f.mode))
}

/// The line on a fan, for machines.
pub open spec fn json_line(session: Seq<char>, tick: u64, at_ms: u64, f: DryFan) -> Seq<Mark> {
    plain(
        "{\"$schema\":\"https://pedrohbalbino.github.io/fand/schemas/run-tick-v1.json\",\"schema_version\":1,\"session_id\":\""@,
    ) + plain(session) + plain("\",\"tick_number\":"@) + plain(decimal(tick as nat)) + plain(
        ",\"timestamp_ms\":"@,
    ) + plain(decimal(at_ms as nat)) + plain(",\"fan_index\":"@) + plain(
        decimal(f.fan_index as nat),
    ) + plain(",\"max_temp_c\":"@) + fixed(f.temp, 0, 1) + plain(",\"raw_curve_rpm\":"@) + fixed(
        f.raw_rpm,
        0,
        1,
    ) + plain(",\"clamped_rpm\":"@) + plain(decimal(f.clamped as nat)) + plain(
        ",\"mode_decision\":\""@,
    ) + plain(mode_word(f.mode)) + plain("\"}"@)
}

fn human_message(tick: u64, f: &DryFan) -> (m: Vec<Glyph>)
    ensures
        shown(m@) == human_line(tick, *f),
{
    let mut m: Vec<Glyph> = start("[tick ");
    put_number(&mut m, tick);
    put_text(&mut m, "] fan ");
    put_number(&mut m, f.fan_index as u64);
    put_text(&mut m, " | temp=");
    put_fixed(&mut m, f.temp, 0, 1);
    put_text(&mut m, "°C | curve=");
    put_fixed(&mut m, f.raw_rpm, 0, 0);
    put_text(&mut m, " RPM | clamped=");
    put_number(&mut m, f.clamped as u64);
    put_text(&mut m, " RPM | mode=");
    put_text(&mut m, mode_text(f.mode));
    m
}

fn json_message(session: &str, tick: u64, at_ms: u64, f: &DryFan) -> (m: Vec<Glyph>)
    ensures
        shown(m@) == json_line(session@, tick, at_ms, *f),
{
    let mut m: Vec<Glyph> = start(
        "{\"$schema\":\"https://pedrohbalbino.github.io/fand/schemas/run-tick-v1.json\",\"schema_version\":1,\"session_id\":\"",
    );
    put_text(&mut m, session);
    put_text(&mut m, "\",\"tick_number\":");
    put_number(&mut m, tick);
    put_text(&mut m, ",\"timestamp_ms\":");
    put_number(&mut m, at_ms);
    put_text(&mut m, ",\"fan_index\":");
    put_number(&mut m, f.fan_index as u64);
    put_text(&mut m, ",\"max_temp_c\":");
    put_fixed(&mut m, f.temp, 0, 1);
    put_text(&mut m, ",\"raw_curve_rpm\":");
    put_fixed(&mut m, f.raw_rpm, 0, 1);
    put_text(&mut m, ",\"clamped_rpm\":");
    put_number(&mut m, f.clamped as u64);
    put_text(&mut m, ",\"mode_decision\":\"");
    put_text(&mut m, mode_text(f.mode));
    put_text(&mut m, "\"}");
    m
}

/// The envelope that a dry run supposes.
pub open spec fn dry_min() -> Flt {
    Flt { bits: DRY_MIN_BITS }
}

pub open spec fn dry_max() -> Flt {
    Flt { bits: DRY_MAX_BITS }
}

/// What a tick would do with a fan at a temperature.
pub open spec fn dry_fan(
    fan: FanBinding,
    temp: Flt,
    mode: Option<AppleSiliconDecision>,
    safe_min: Option<Flt>,
) -> DryFan {
    let raw_rpm = evaluated(fan.curve@, temp);
    let clamped = clamped_target(raw_rpm, floor_of(dry_min(), safe_min), dry_max()).to_whole();
    DryFan {
        fan_index: fan.index,
        temp,
        raw_rpm,
        clamped,
        mode: match mode {
            Some(current) => Some(decided(current, whole(clamped as nat), dry_min(), dry_max())),
            None => None,
        },
    }
}

/// The mode of the `i`-th fan.
pub open spec fn mode_at(modes: Seq<AppleSiliconDecision>, i: int) -> Option<AppleSiliconDecision> {
    if i < modes.len() {
        Some(modes[i])
    } else {
        None
    }
}

/// The modes after the `i`-th fan was looked at.
pub open spec fn modes_after(modes: Seq<AppleSiliconDecision>, i: int, f: DryFan) -> Seq<
    AppleSiliconDecision,
> {
    if i < modes.len() && f.mode is Some {
        modes.update(i, f.mode->0)
    } else {
        modes
    }
}

/// The state of a dry run.
pub struct DryRun {
    pub conn: Option<Conn>,
    pub modes: Seq<AppleSiliconDecision>,
    pub lines: Seq<Said>,
    pub dialog: Dialog,
}

/// What stays the same during a tick of a dry run.
pub struct DrySettings {
    pub tick: u64,
    pub json: bool,
    pub session: Seq<char>,
    pub safe_min: Option<Flt>,
}

/// A tick that only shows, for the fans from the `i`-th on: read the sensors,
/// evaluate the curve, bring the speed into the envelope, choose the mode, say
/// it. Nothing is written.
pub open spec fn dry_ticking(fans: Seq<FanBinding>, i: int, set: DrySettings, s: DryRun) -> DryRun
    decreases fans.len() - i,
{
    if i >= fans.len() {
        s
    } else {
        let (temp, c1, d1) = sensing(s.conn, fans[i].sensors@, s.dialog);
        let f = dry_fan(fans[i], temp, mode_at(s.modes, i), set.safe_min);
        let (line, d2) = if set.json {
            (
                json_line(set.session, set.tick, (d1.answer().value / 1_000_000) as u64, f),
                d1.after(Action::Clock),
            )
        } else {
            (human_line(set.tick, f), d1)
        };
        dry_ticking(
            fans,
            i + 1,
            set,
            DryRun {
                conn: c1,
                modes: modes_after(s.modes, i, f),
                lines: s.lines.push(out(line)),
                dialog: d2,
            },
        )
    }
}

/// The modes that adapters remember.
pub open spec fn modes_of(adapters: Seq<AppleSiliconAdapter>) -> Seq<AppleSiliconDecision> {
    Seq::new(adapters.len(), |i: int| adapters[i].current)
}

/// The state of a connection, if there is one.
pub open spec fn conn_of(conn: Option<SmcConnection>) -> Option<Conn> {
    match conn {
        Some(c) => Some(c@),
        None => None,
    }
}

/// The connection is in order, if there is one.
pub open spec fn conn_wf(conn: Option<SmcConnection>) -> bool {
    conn matches Some(c) ==> c.wf()
}

fn sense(conn: &mut Option<SmcConnection>, fan: &FanBinding, io: &mut Exchange) -> (r: Flt)
    requires
        conn_wf(*old(conn)),
    ensures
        conn_wf(*final(conn)),
        (r, conn_of(*final(conn)), final(io)@) == sensing(
            conn_of(*old(conn)),
            fan.sensors@,
            old(io)@,
        ),
{
    match conn {
        Some(c) => read_max_sensor_temp(c, fan, io),
        None => Flt { bits: PLACEHOLDER_BITS },
    }
}

fn look_at(
    fan: &FanBinding,
    temp: Flt,
    adapters: &mut Vec<AppleSiliconAdapter>,
    i: usize,
    safe_min: Option<Flt>,
) -> (f: DryFan)
    ensures
        f == dry_fan(*fan, temp, mode_at(modes_of(old(adapters)@), i as int), safe_min),
        modes_of(final(adapters)@) == modes_after(modes_of(old(adapters)@), i as int, f),
{
    let min: Flt = Flt { bits: DRY_MIN_BITS };
    let max: Flt = Flt { bits: DRY_MAX_BITS };
    let raw_rpm: Flt = evaluate(fan.curve.as_slice(), temp);
    let clamped: ClampedRpm = ClampedRpm::new(raw_rpm, min, max, safe_min);
    let mode: Option<AppleSiliconDecision> = if i < adapters.len() {
        let mut a: AppleSiliconAdapter = adapters[i];
        let d: AppleSiliconDecision = a.decide(clamped.as_f32(), min, max);
        adapters[i] = a;
        Some(d)
    } else {
        None
    };
    let f: DryFan = DryFan {
        fan_index: fan.index,
        temp,
        raw_rpm,
        clamped: clamped.value(),
        mode,
    };
    assert(modes_of(adapters@) =~= modes_after(modes_of(old(adapters)@), i as int, f));
    f
}

/// A tick that only shows what it would do.
pub fn dry_run_tick(
    fans: &Vec<FanBinding>,
    conn: &mut Option<SmcConnection>,
    adapters: &mut Vec<AppleSiliconAdapter>,
    tick_number: u64,
    json: bool,
    session: &str,
    safe_min: Option<Flt>,
    io: &mut Exchange,
) -> (lines: Vec<Line>)
    requires
        conn_wf(*old(conn)),
    ensures
        conn_wf(*final(conn)),
        (DryRun {
            conn: conn_of(*final(conn)),
            modes: modes_of(final(adapters)@),
            lines: said(lines@),
            dialog: final(io)@,
        }) == dry_ticking(
            fans@,
            0,
            (DrySettings { tick: tick_number, json, session: session@, safe_min }),
            (DryRun {
                conn: conn_of(*old(conn)),
                modes: modes_of(old(adapters)@),
                lines: Seq::empty(),
                dialog: old(io)@,
            }),
        ),
{
    let ghost set = DrySettings { tick: tick_number, json, session: session@, safe_min };
    let mut lines: Vec<Line> = silent();
    let ghost s0 = DryRun {
        conn: conn_of(*conn),
        modes: modes_of(adapters@),
        lines: said(lines@),
        dialog: io@,
    };
    let mut i: usize = 0;
    while i < fans.len()
        invariant
            i <= fans@.len(),
            conn_wf(*conn),
            set == (DrySettings { tick: tick_number, json, session: session@, safe_min }),
            dry_ticking(
                fans@,
                i as int,
                set,
                DryRun {
                    conn: conn_of(*conn),
                    modes: modes_of(adapters@),
                    lines: said(lines@),
                    dialog: io@,
                },
            ) == dry_ticking(fans@, 0, set, s0),
        decreases fans@.len() - i,
    {
        let temp: Flt = sense(conn, &fans[i], io);
        let f: DryFan = look_at(&fans[i], temp, adapters, i, safe_min);
        if json {
            let at_ms: u64 = io.ask(Request::Clock).value / 1_000_000;
            say(&mut lines, json_message(session, tick_number, at_ms, &f));
        } else {
            say(&mut lines, human_message(tick_number, &f));
        }
        i = i + 1;
    }
    lines
}

/// How long to wait for the next tick, in nanoseconds: what is left of the
/// interval, but at least 10 ms.
pub open spec fn rest(poll_ms: u32, elapsed_ns: u64) -> int {
    let left = poll_ms * 1_000_000 - elapsed_ns;
    if left < 10_000_000 {
        10_000_000
    } else {
        left
    }
}

/// How long to wait for the next tick, in nanoseconds.
pub fn sleep_time(poll_ms: u32, elapsed_ns: u64) -> (r: u64)
    ensures
        r == rest(poll_ms, elapsed_ns),
{
    let poll: u64 = poll_ms as u64 * 1_000_000;
    if poll < elapsed_ns || poll - elapsed_ns < 10_000_000 {
        10_000_000
    } else {
        poll - elapsed_ns
    }
}

} // verus!
