//! The command `probe`: which writes move the first fan on this machine?
//!
//! Every way is tried in turn, with the speed read before and after. What was
//! changed is put back, and in the end the fan is left to the firmware.

use super::research::{
    bounded, clamp_to, duty_for, duty_of, error_text, has_moved, measure, measuring, moved,
    parse_bounded, reset_mode, resetting, settling, single_quoted, single_quotes, wait_settled,
    write_be, write_mode, writing_be, writing_mode, F0DC, F0MN, F0MX, F0TG, RANGE_BITS, TP0A,
};
use super::run::{one_warning, unknown_option};
use super::say::{
    decimal_text, err, hex_text, left, out, put_error, put_left, put_right, right, rule, rule_text,
    said, say, say_all, say_text, silent, start, truth, truth_text, warn, warn_text, Line, Outcome,
    Said,
};
use crate::flt::Flt;
use crate::glyph::{
    fixed, plain, put_fixed, put_number, put_text, shown, Glyph, Mark,
};
use crate::smc::connection::{
    closing, opening, reading_attributes, reading_f32, reading_index, reading_u32, Conn, KeyInfo,
    SmcConnection,
};
use crate::smc::error::{fourcc_text, fourcc_to_str, SmcError};
use crate::smc::exchange::{Dialog, Exchange};
use crate::smc::keys::{ATTR_WRITABLE, KEY_COUNT};
use crate::text::{decimal, hex_upper, same_text, texts};
use vstd::prelude::*;

verus! {

/// How the command is used.
pub const PROBE_USAGE: &'static str = "usage: fand probe [--settle-secs N] [--target-rpm RPM] [--json] [--enumerate]\n\nRuns the full SMC fan-write probe matrix against fan 0:\n1. F0Tg direct (float RPM)\n2. F0Dc direct (float duty cycle 0..1)\n3. F0md=1 then F0Tg (combined forced-min + target)\n4. F0Mn raise + F0md=1 (forced-min floor bypass)\n5. Tp0a sensor spoof (fake performance-core temperature)\n\nEach path reads F0Ac before and after a settle window.\nA path passes if the actual RPM deviates by ≥ 500 from\nbaseline. Teardown always writes F0md=0 (auto) and\nrestores any modified floor / sensor value.\n\n--enumerate dumps every SMC key whose attribute byte\nadvertises the writable bit (0x40). Useful for finding\nunknown control surfaces on newer SoC revisions.";

/// The arguments.
#[derive(Debug, Clone, Copy, PartialEq, Eq)]
pub struct ProbeArgs {
    /// How long a fan may take to settle, in seconds.
    pub settle_secs: u64,
    /// The speed to try; 0 to choose one.
    pub target_rpm: Flt,
    pub json: bool,
    pub enumerate: bool,
}

/// A speed on the command line: a positive number, or what it was before.
pub open spec fn positive_or(v: Option<Flt>, before: Flt) -> Flt {
    match v {
        Some(x) => if x.finite() && (Flt { bits: 0 }).less(x) {
            x
        } else {
            before
        },
        None => before,
    }
}

/// The arguments from the `i`-th on, behind those that were read before; or
/// what the command comes to without running. `floats` holds each argument as a
/// number, if it is one.
pub open spec fn probe_args(
    args: Seq<Seq<char>>,
    floats: Seq<Option<Flt>>,
    i: int,
    p: ProbeArgs,
) -> Result<ProbeArgs, (u8, Seq<Said>)>
    decreases args.len() - i,
{
    if i >= args.len() {
        Ok(p)
    } else if args[i] == "--settle-secs"@ {
        if i + 1 >= args.len() {
            Ok(p)
        } else {
            probe_args(
                args,
                floats,
                i + 2,
                ProbeArgs { settle_secs: bounded(args[i + 1], 1, 30, p.settle_secs), ..p },
            )
        }
    } else if args[i] == "--target-rpm"@ {
        if i + 1 >= args.len() {
            Ok(p)
        } else {
            probe_args(
                args,
                floats,
                i + 2,
                ProbeArgs { target_rpm: positive_or(floats[i + 1], p.target_rpm), ..p },
            )
        }
    } else if args[i] == "--json"@ {
        probe_args(args, floats, i + 1, ProbeArgs { json: true, ..p })
    } else if args[i] == "--enumerate"@ {
        probe_args(args, floats, i + 1, ProbeArgs { enumerate: true, ..p })
    } else if args[i] == "--help"@ || args[i] == "-h"@ {
        Err((0, seq![err(plain(PROBE_USAGE@))]))
    } else {
        Err((64, seq![err(plain("fand probe: unknown flag '"@) + plain(args[i]) + plain("'"@))]))
    }
}

/// What holds without arguments.
pub open spec fn default_args() -> ProbeArgs {
    ProbeArgs { settle_secs: 4, target_rpm: Flt { bits: 0 }, json: false, enumerate: false }
}

fn take_positive(v: Option<Flt>, before: Flt) -> (r: Flt)
    ensures
        r == positive_or(v, before),
{
    let zero: Flt = Flt { bits: 0 };
    match v {
        Some(x) => if x.is_finite() && zero.lt(x) {
            x
        } else {
            before
        },
        None => before,
    }
}

/// Reads the arguments. `floats` holds each of them as a number, if it is one.
pub fn parse_args(args: &Vec<String>, floats: &Vec<Option<Flt>>) -> (r: Result<ProbeArgs, Outcome>)
    requires
        floats@.len() == args@.len(),
    ensures
        match r {
            Ok(a) => {
                &&& probe_args(texts(args@), floats@, 0, default_args()) == Ok::<
                    ProbeArgs,
                    (u8, Seq<Said>),
                >(a)
                &&& 1 <= a.settle_secs <= 30
            },
            Err(o) => probe_args(texts(args@), floats@, 0, default_args()) == Err::<
                ProbeArgs,
                (u8, Seq<Said>),
            >(o@),
        },
{
    let ghost words = texts(args@);
    let mut p: ProbeArgs = ProbeArgs {
        settle_secs: 4,
        target_rpm: Flt { bits: 0 },
        json: false,
        enumerate: false,
    };
    let mut i: usize = 0;
    let len: usize = args.len();
    while i < len
        invariant
            i <= len,
            len == args@.len(),
            floats@.len() == len,
            words == texts(args@),
            1 <= p.settle_secs <= 30,
            probe_args(words, floats@, 0, default_args()) == probe_args(
                words,
                floats@,
                i as int,
                p,
            ),
        decreases len - i,
    {
        let arg: &str = args[i].as_str();
        assert(words[i as int] == arg@);
        if same_text(arg, "--settle-secs") {
            if i + 1 >= len {
                return Ok(p);
            }
            i = i + 1;
            let v: &str = args[i].as_str();
            assert(words[i as int] == v@);
            p.settle_secs = parse_bounded(v, 1, 30, p.settle_secs);
        } else if same_text(arg, "--target-rpm") {
            if i + 1 >= len {
                return Ok(p);
            }
            i = i + 1;
            p.target_rpm = take_positive(floats[i], p.target_rpm);
        } else if same_text(arg, "--json") {
            p.json = true;
        } else if same_text(arg, "--enumerate") {
            p.enumerate = true;
        } else if same_text(arg, "--help") || same_text(arg, "-h") {
            return Err(one_warning(0, start(PROBE_USAGE)));
        } else {
            return Err(unknown_option("fand probe: unknown flag '", arg));
        }
        i = i + 1;
    }
    Ok(p)
}

/// What came of a way to move the fan.
#[derive(Debug)]
pub struct ProbeOutcome {
    pub path: &'static str,
    pub write_result: Result<(), String>,
    pub actual_rpm_before: Flt,
    pub actual_rpm_after: Flt,
    pub delta_rpm: Flt,
}

/// What came of a way to move the fan, with texts as sequences.
#[verifier::ext_equal]
pub struct Trial {
    pub path: Seq<char>,
    pub error: Option<Seq<char>>,
    pub before: Flt,
    pub after: Flt,
    pub delta: Flt,
}

impl Trial {
    /// The write succeeded, and the fan moved.
    pub open spec fn passes(self) -> bool {
        self.error is None && moved(self.delta)
    }
}

impl ProbeOutcome {
    pub open spec fn view(&self) -> Trial {
        Trial {
            path: self.path@,
            error: match self.write_result {
                Ok(_) => None,
                Err(s) => Some(s@),
            },
            before: self.actual_rpm_before,
            after: self.actual_rpm_after,
            delta: self.delta_rpm,
        }
    }

    /// The write succeeded, and the fan moved.
    pub fn passed(&self) -> (r: bool)
        ensures
            r == self@.passes(),
    {
        match self.write_result {
            Ok(_) => has_moved(self.delta_rpm),
            Err(_) => false,
        }
    }
}

/// A trial from its parts.
pub open spec fn trial(path: Seq<char>, error: Option<Seq<char>>, before: Flt, after: Flt) -> Trial {
    Trial { path, error, before, after, delta: after.minus(before) }
}

fn conclude(path: &'static str, write_result: Result<(), String>, before: Flt, after: Flt) -> (r:
    ProbeOutcome)
    ensures
        r@ == trial(
            path@,
            match write_result {
                Ok(_) => None,
                Err(s) => Some(s@),
            },
            before,
            after,
        ),
{
    ProbeOutcome {
        path,
        write_result,
        actual_rpm_before: before,
        actual_rpm_after: after,
        delta_rpm: after.sub(before),
    }
}

/// The words of an error, if there is one, behind what was tried.
pub open spec fn error_of(r: Result<(), SmcError>, before: Seq<char>) -> Option<Seq<char>> {
    match r {
        Ok(_) => None,
        Err(e) => Some(before + e.text()),
    }
}

/// The words of an error that came without saying what was tried.
pub open spec fn bare_error_of(r: Result<(), SmcError>) -> Option<Seq<char>> {
    match r {
        Ok(_) => None,
        Err(e) => Some(e.text()),
    }
}

/// Writing a number to one key.
#[verifier::opaque]
pub open spec fn probing_direct(
    path: Seq<char>,
    fourcc: u32,
    value: Flt,
    settle: u64,
    c: Conn,
    d: Dialog,
) -> (Trial, Conn, Dialog) {
    let (before, c1, d1) = measuring(c, d);
    let (w, c2, d2) = writing_be(c1, fourcc, value, d1);
    let (after, c3, d3) = measuring(c2, settling(w is Ok, settle, d2));
    (trial(path, bare_error_of(w), before, after), c3, d3)
}

fn probe_direct_f32(
    conn: &mut SmcConnection,
    path: &'static str,
    fourcc: u32,
    value: Flt,
    settle_secs: u64,
    io: &mut Exchange,
) -> (r: ProbeOutcome)
    requires
        old(conn).wf(),
        settle_secs <= 30,
    ensures
        final(conn).wf(),
        (r@, final(conn)@, final(io)@) == probing_direct(
            path@,
            fourcc,
            value,
            settle_secs,
            old(conn)@,
            old(io)@,
        ),
{
    reveal(probing_direct);
    let before: Flt = measure(conn, io);
    let written: Result<(), SmcError> = write_be(conn, fourcc, value, io);
    wait_settled(written.is_ok(), settle_secs, io);
    let after: Flt = measure(conn, io);
    let write_result: Result<(), String> = match written {
        Ok(_) => Ok(()),
        Err(e) => Err(e.message()),
    };
    conclude(path, write_result, before, after)
}

/// Forcing the fan, and writing the target then.
#[verifier::opaque]
pub open spec fn probing_target(target: Flt, settle: u64, c: Conn, d: Dialog) -> (
    Trial,
    Conn,
    Dialog,
) {
    let path = "F0md=1_then_F0Tg"@;
    let (before, c1, d1) = measuring(c, d);
    let (m, c2, d2) = writing_mode(c1, 1, d1);
    if m is Err {
        let (after, c3, d3) = measuring(c2, d2);
        (trial(path, error_of(m, "F0md=1: "@), before, after), c3, d3)
    } else {
        let (w, c3, d3) = writing_be(c2, F0TG, target, d2);
        let (after, c4, d4) = measuring(c3, settling(w is Ok, settle, d3));
        (trial(path, error_of(w, "F0Tg: "@), before, after), c4, d4)
    }
}

fn named(r: Result<(), SmcError>, before: &str) -> (s: Result<(), String>)
    ensures
        (match s {
            Ok(_) => None,
            Err(t) => Some(t@),
        }) == error_of(r, before@),
{
    match r {
        Ok(_) => Ok(()),
        Err(e) => Err(error_text(before, &e)),
    }
}

fn probe_mode_then_target(
    conn: &mut SmcConnection,
    target_rpm: Flt,
    settle_secs: u64,
    io: &mut Exchange,
) -> (r: ProbeOutcome)
    requires
        old(conn).wf(),
        settle_secs <= 30,
    ensures
        final(conn).wf(),
        (r@, final(conn)@, final(io)@) == probing_target(
            target_rpm,
            settle_secs,
            old(conn)@,
            old(io)@,
        ),
{
    reveal(probing_target);
    let before: Flt = measure(conn, io);
    let mode: Result<(), SmcError> = write_mode(conn, 1, io);
    if mode.is_err() {
        let after: Flt = measure(conn, io);
        return conclude("F0md=1_then_F0Tg", named(mode, "F0md=1: "), before, after);
    }
    let target: Result<(), SmcError> = write_be(conn, F0TG, target_rpm, io);
    wait_settled(target.is_ok(), settle_secs, io);
    let after: Flt = measure(conn, io);
    conclude("F0md=1_then_F0Tg", named(target, "F0Tg: "), before, after)
}

/// Raising the minimum, and forcing the fan to it. The minimum is put back.
#[verifier::opaque]
pub open spec fn probing_floor(original: Flt, target: Flt, settle: u64, c: Conn, d: Dialog) -> (
    Trial,
    Conn,
    Dialog,
) {
    let path = "F0Mn_raise_then_F0md=1"@;
    let (before, c1, d1) = measuring(c, d);
    let (r, c2, d2) = writing_be(c1, F0MN, target, d1);
    if r is Err {
        let (after, c3, d3) = measuring(c2, d2);
        (trial(path, error_of(r, "F0Mn raise: "@), before, after), c3, d3)
    } else {
        let (m, c3, d3) = writing_mode(c2, 1, d2);
        let (after, c4, d4) = measuring(c3, settling(m is Ok, settle, d3));
        let (_, c5, d5) = writing_be(c4, F0MN, original, d4);
        (trial(path, error_of(m, "F0md=1: "@), before, after), c5, d5)
    }
}

fn probe_floor_raise(
    conn: &mut SmcConnection,
    original_min: Flt,
    target_rpm: Flt,
    settle_secs: u64,
    io: &mut Exchange,
) -> (r: ProbeOutcome)
    requires
        old(conn).wf(),
        settle_secs <= 30,
    ensures
        final(conn).wf(),
        (r@, final(conn)@, final(io)@) == probing_floor(
            original_min,
            target_rpm,
            settle_secs,
            old(conn)@,
            old(io)@,
        ),
{
    reveal(probing_floor);
    let before: Flt = measure(conn, io);
    let raised: Result<(), SmcError> = write_be(conn, F0MN, target_rpm, io);
    if raised.is_err() {
        let after: Flt = measure(conn, io);
        return conclude("F0Mn_raise_then_F0md=1", named(raised, "F0Mn raise: "), before, after);
    }
    let mode: Result<(), SmcError> = write_mode(conn, 1, io);
    wait_settled(mode.is_ok(), settle_secs, io);
    let after: Flt = measure(conn, io);
    let _ = write_be(conn, F0MN, original_min, io);
    conclude("F0Mn_raise_then_F0md=1", named(mode, "F0md=1: "), before, after)
}

/// 99.0
pub const FAKE_TEMP_BITS: u32 = 0x42C6_0000;

/// 45.0
pub const BASELINE_TEMP_BITS: u32 = 0x4234_0000;

/// Pretending that a core is hot. The temperature is put back.
#[verifier::opaque]
pub open spec fn probing_sensor(settle: u64, c: Conn, d: Dialog) -> (Trial, Conn, Dialog) {
    let (before, c1, d1) = measuring(c, d);
    let (t, c2, d2) = reading_f32(c1, TP0A, d1);
    let baseline = match t {
        Ok(v) => v,
        Err(_) => Flt { bits: BASELINE_TEMP_BITS },
    };
    let (w, c3, d3) = writing_be(c2, TP0A, Flt { bits: FAKE_TEMP_BITS }, d2);
    let (after, c4, d4) = measuring(c3, settling(w is Ok, settle, d3));
    let (_, c5, d5) = writing_be(c4, TP0A, baseline, d4);
    (trial("Tp0a_spoof"@, error_of(w, "Tp0a spoof: "@), before, after), c5, d5)
}

fn probe_sensor_spoof(conn: &mut SmcConnection, settle_secs: u64, io: &mut Exchange) -> (r:
    ProbeOutcome)
    requires
        old(conn).wf(),
        settle_secs <= 30,
    ensures
        final(conn).wf(),
        (r@, final(conn)@, final(io)@) == probing_sensor(settle_secs, old(conn)@, old(io)@),
{
    reveal(probing_sensor);
    let before: Flt = measure(conn, io);
    let baseline: Flt = match conn.read_f32(TP0A, io) {
        Ok(v) => v,
        Err(_) => Flt { bits: BASELINE_TEMP_BITS },
    };
    let written: Result<(), SmcError> = write_be(conn, TP0A, Flt { bits: FAKE_TEMP_BITS }, io);
    wait_settled(written.is_ok(), settle_secs, io);
    let after: Flt = measure(conn, io);
    let _ = write_be(conn, TP0A, baseline, io);
    conclude("Tp0a_spoof", named(written, "Tp0a spoof: "), before, after)
}

/// The envelope of the fan, and the speed to try.
#[derive(Debug, Clone, Copy, PartialEq, Eq)]
pub struct Envelope {
    pub min_rpm: Flt,
    pub max_rpm: Flt,
    pub target: Flt,
}

/// 1500.0
pub const STEP_BITS: u32 = 0x44BB_8000;

/// 100.0
pub const MARGIN_BITS: u32 = 0x42C8_0000;

/// The speed to try: the one that was asked for, inside the envelope; or 1500
/// above the minimum, but at least 100 below the maximum.
pub open spec fn speed_to_try(asked: Flt, min: Flt, max: Flt) -> Flt {
    if (Flt { bits: 0 }).less(asked) {
        asked.clamped(min, max)
    } else {
        min.plus(Flt { bits: STEP_BITS }).smaller(max.minus(Flt { bits: MARGIN_BITS }))
    }
}

/// Reading the envelope. Only the maximum may be missing.
pub open spec fn reading_envelope(asked: Flt, c: Conn, d: Dialog) -> (
    Result<Envelope, SmcError>,
    Conn,
    Dialog,
) {
    let (min, c1, d1) = reading_f32(c, F0MN, d);
    match min {
        Err(e) => (Err(e), c1, d1),
        Ok(min_rpm) => {
            let (max, c2, d2) = reading_f32(c1, F0MX, d1);
            let max_rpm = match max {
                Ok(v) => v,
                Err(_) => min_rpm.plus(Flt { bits: RANGE_BITS }),
            };
            (
                Ok(Envelope { min_rpm, max_rpm, target: speed_to_try(asked, min_rpm, max_rpm) }),
                c2,
                d2,
            )
        },
    }
}

pub fn read_envelope(conn: &mut SmcConnection, asked: Flt, io: &mut Exchange) -> (r: Result<
    Envelope,
    SmcError,
>)
    requires
        old(conn).wf(),
    ensures
        final(conn).wf(),
        (r, final(conn)@, final(io)@) == reading_envelope(asked, old(conn)@, old(io)@),
{
    let min_rpm: Flt = match conn.read_f32(F0MN, io) {
        Ok(v) => v,
        Err(e) => {
            return Err(e);
        },
    };
    let max_rpm: Flt = match conn.read_f32(F0MX, io) {
        Ok(v) => v,
        Err(_) => min_rpm.add(Flt { bits: RANGE_BITS }),
    };
    let zero: Flt = Flt { bits: 0 };
    let target: Flt = if zero.lt(asked) {
        clamp_to(asked, min_rpm, max_rpm)
    } else {
        min_rpm.add(Flt { bits: STEP_BITS }).min(max_rpm.sub(Flt { bits: MARGIN_BITS }))
    };
    Ok(Envelope { min_rpm, max_rpm, target })
}

/// How long a fan is given to come back after a trial, in milliseconds.
pub const RESET_WAIT_MS: u64 = 2000;

/// All trials, with the fan left to the firmware before, between and after
/// them.
pub open spec fn probing(e: Envelope, settle: u64, c: Conn, d: Dialog) -> (Seq<Trial>, Conn, Dialog) {
    let (c1, d1) = resetting(c, RESET_WAIT_MS, d);
    let (t1, c2, d2) = probing_direct("F0Tg_direct"@, F0TG, e.target, settle, c1, d1);
    let (c3, d3) = resetting(c2, RESET_WAIT_MS, d2);
    let (t2, c4, d4) = probing_direct(
        "F0Dc_direct"@,
        F0DC,
        duty_of(e.target, e.min_rpm, e.max_rpm),
        settle,
        c3,
        d3,
    );
    let (c5, d5) = resetting(c4, RESET_WAIT_MS, d4);
    let (t3, c6, d6) = probing_target(e.target, settle, c5, d5);
    let (c7, d7) = resetting(c6, RESET_WAIT_MS, d6);
    let (t4, c8, d8) = probing_floor(e.min_rpm, e.target, settle, c7, d7);
    let (c9, d9) = resetting(c8, RESET_WAIT_MS, d8);
    let (t5, c10, d10) = probing_sensor(settle, c9, d9);
    let (_, c11, d11) = writing_mode(c10, 0, d10);
    (seq![t1, t2, t3, t4, t5], c11, d11)
}

/// Trials, with texts as sequences.
pub open spec fn trials(v: Seq<ProbeOutcome>) -> Seq<Trial> {
    Seq::new(v.len(), |i: int| v[i]@)
}

fn run_trials(conn: &mut SmcConnection, e: &Envelope, settle_secs: u64, io: &mut Exchange) -> (r: Vec<
    ProbeOutcome,
>)
    requires
        old(conn).wf(),
        settle_secs <= 30,
    ensures
        final(conn).wf(),
        (trials(r@), final(conn)@, final(io)@) == probing(*e, settle_secs, old(conn)@, old(io)@),
{
    let mut outcomes: Vec<ProbeOutcome> = Vec::new();
    reset_mode(conn, RESET_WAIT_MS, io);
    outcomes.push(probe_direct_f32(conn, "F0Tg_direct", F0TG, e.target, settle_secs, io));
    reset_mode(conn, RESET_WAIT_MS, io);
    let duty: Flt = duty_for(e.target, e.min_rpm, e.max_rpm);
    outcomes.push(probe_direct_f32(conn, "F0Dc_direct", F0DC, duty, settle_secs, io));
    reset_mode(conn, RESET_WAIT_MS, io);
    outcomes.push(probe_mode_then_target(conn, e.target, settle_secs, io));
    reset_mode(conn, RESET_WAIT_MS, io);
    outcomes.push(probe_floor_raise(conn, e.min_rpm, e.target, settle_secs, io));
    reset_mode(conn, RESET_WAIT_MS, io);
    outcomes.push(probe_sensor_spoof(conn, settle_secs, io));
    let _ = write_mode(conn, 0, io);
    proof {
        let v = outcomes@;
        let t = probing(*e, settle_secs, old(conn)@, old(io)@).0;
        assert(trials(v) =~= t);
    }
    outcomes
}

/// Some trial passed.
pub open spec fn any_passed(t: Seq<Trial>) -> bool {
    exists|i: int| 0 <= i < t.len() && (#[trigger] t[i]).passes()
}

fn has_passed(v: &Vec<ProbeOutcome>) -> (r: bool)
    ensures
        r == any_passed(trials(v@)),
{
    let ghost t = trials(v@);
    let mut i: usize = 0;
    while i < v.len()
        invariant
            i <= v@.len(),
            t == trials(v@),
            forall|j: int| 0 <= j < i ==> !(#[trigger] t[j]).passes(),
        decreases v@.len() - i,
    {
        assert(t[i as int] == v@[i as int]@);
        if v[i].passed() {
            assert(t[i as int].passes());
            return true;
        }
        i = i + 1;
    }
    false
}

/// The head of the report.
pub open spec fn head_line(e: Envelope, settle: u64) -> Said {
    out(
        plain("fand probe — fan 0 envelope min="@) + fixed(e.min_rpm, 0, 0) + plain(" max="@)
            + fixed(e.max_rpm, 0, 0) + plain(", target="@) + fixed(e.target, 0, 0) + plain(
            ", settle="@,
        ) + plain(decimal(settle as nat)) + plain("s"@),
    )
}

fn head_message(e: &Envelope, settle: u64) -> (m: Vec<Glyph>)
    ensures
        out(shown(m@)) == head_line(*e, settle),
{
    let mut m: Vec<Glyph> = start("fand probe — fan 0 envelope min=");
    put_fixed(&mut m, e.min_rpm, 0, 0);
    put_text(&mut m, " max=");
    put_fixed(&mut m, e.max_rpm, 0, 0);
    put_text(&mut m, ", target=");
    put_fixed(&mut m, e.target, 0, 0);
    put_text(&mut m, ", settle=");
    put_number(&mut m, settle);
    put_text(&mut m, "s");
    m
}

/// A trial in the report.
pub open spec fn trial_row(t: Trial) -> Said {
    out(
        plain(left(t.path, 28)) + plain(" "@) + fixed(t.before, 8, 0) + plain(" "@) + fixed(
            t.after,
            8,
            0,
        ) + plain(" "@) + fixed(t.delta, 8, 0) + plain(" "@) + plain(right(truth(t.passes()), 7))
            + plain(" "@) + plain(
            match t.error {
                Some(s) => s,
                None => ""@,
            },
        ),
    )
}

/// The titles of the report.
pub open spec fn titles() -> Said {
    out(
        plain(left("path"@, 28)) + plain(" "@) + plain(right("before"@, 8)) + plain(" "@) + plain(
            right("after"@, 8),
        ) + plain(" "@) + plain(right("delta"@, 8)) + plain(" "@) + plain(right("passed"@, 7))
            + plain(" error"@),
    )
}

/// The trials in the report, below its titles.
pub open spec fn trial_rows(t: Seq<Trial>) -> Seq<Said>
    decreases t.len(),
{
    if t.len() == 0 {
        seq![out(plain(rule(78))), titles(), out(plain(rule(78)))]
    } else {
        trial_rows(t.drop_last()).push(trial_row(t.last()))
    }
}

/// The report.
pub open spec fn report(t: Seq<Trial>) -> Seq<Said> {
    trial_rows(t).push(out(plain(rule(78)))).push(
        out(
            plain(
                if any_passed(t) {
                    "at least one path moved the fan ≥500 RPM — the forced-min-only gate can be lifted for that path"@
                } else {
                    "no direct path moved the fan — SMC surface remains F0md=0/1 only on this SoC; try `fand probe --enumerate` to dump the writable keyspace"@
                },
            ),
        ),
    )
}

fn put_column(m: &mut Vec<Glyph>, v: Flt)
    ensures
        shown(final(m)@) == shown(old(m)@) + plain(" "@) + fixed(v, 8, 0),
{
    put_text(m, " ");
    put_fixed(m, v, 8, 0);
}

fn row_message(o: &ProbeOutcome) -> (m: Vec<Glyph>)
    ensures
        out(shown(m@)) == trial_row(o@),
{
    let mut m: Vec<Glyph> = Vec::new();
    put_left(&mut m, o.path, 28);
    assert(shown(m@) =~= plain(left(o.path@, 28)));
    put_column(&mut m, o.actual_rpm_before);
    put_column(&mut m, o.actual_rpm_after);
    put_column(&mut m, o.delta_rpm);
    put_text(&mut m, " ");
    put_right(&mut m, truth_text(o.passed()), 7);
    put_text(&mut m, " ");
    match &o.write_result {
        Ok(_) => put_text(&mut m, ""),
        Err(s) => put_text(&mut m, s.as_str()),
    }
    m
}

fn say_report(v: &Vec<ProbeOutcome>) -> (lines: Vec<Line>)
    ensures
        said(lines@) == report(trials(v@)),
{
    let ghost t = trials(v@);
    let mut lines: Vec<Line> = silent();
    let line: String = rule_text(78);
    say_text(&mut lines, line.as_str());
    let mut m: Vec<Glyph> = Vec::new();
    put_left(&mut m, "path", 28);
    assert(shown(m@) =~= plain(left("path"@, 28)));
    put_text(&mut m, " ");
    put_right(&mut m, "before", 8);
    put_text(&mut m, " ");
    put_right(&mut m, "after", 8);
    put_text(&mut m, " ");
    put_right(&mut m, "delta", 8);
    put_text(&mut m, " ");
    put_right(&mut m, "passed", 7);
    put_text(&mut m, " error");
    say(&mut lines, m);
    say_text(&mut lines, line.as_str());
    let mut i: usize = 0;
    assert(t.take(0) =~= Seq::<Trial>::empty());
    assert(said(lines@) =~= trial_rows(t.take(0)));
    while i < v.len()
        invariant
            i <= v@.len(),
            t == trials(v@),
            said(lines@) == trial_rows(t.take(i as int)),
        decreases v@.len() - i,
    {
        say(&mut lines, row_message(&v[i]));
        proof {
            let next = t.take(i + 1);
            assert(next.drop_last() =~= t.take(i as int));
            assert(next.last() == v@[i as int]@);
        }
        i = i + 1;
    }
    assert(t.take(t.len() as int) =~= t);
    say_text(&mut lines, line.as_str());
    if has_passed(v) {
        say_text(
            &mut lines,
            "at least one path moved the fan ≥500 RPM — the forced-min-only gate can be lifted for that path",
        );
    } else {
        say_text(
            &mut lines,
            "no direct path moved the fan — SMC surface remains F0md=0/1 only on this SoC; try `fand probe --enumerate` to dump the writable keyspace",
        );
    }
    lines
}

/// The error of a trial, for machines.
pub open spec fn json_error(e: Option<Seq<char>>) -> Seq<char> {
    match e {
        Some(s) => "\""@ + single_quoted(s) + "\""@,
        None => "null"@,
    }
}

/// A trial, for machines.
pub open spec fn json_trial(t: Trial) -> Seq<Mark> {
    plain("{\"path\":\""@) + plain(t.path) + plain("\",\"ok\":"@) + plain(truth(t.error is None))
        + plain(",\"error\":"@) + plain(json_error(t.error)) + plain(",\"before\":"@) + fixed(
        t.before,
        0,
        0,
    ) + plain(",\"after\":"@) + fixed(t.after, 0, 0) + plain(",\"delta\":"@) + fixed(t.delta, 0, 0)
        + plain(",\"passed\":"@) + plain(truth(t.passes())) + plain("}"@)
}

/// The head of the report, for machines.
pub open spec fn json_head(e: Envelope, settle: u64) -> Seq<Mark> {
    plain("{\"min_rpm\":"@) + fixed(e.min_rpm, 0, 0) + plain(",\"max_rpm\":"@) + fixed(
        e.max_rpm,
        0,
        0,
    ) + plain(",\"target_rpm\":"@) + fixed(e.target, 0, 0) + plain(",\"settle_secs\":"@) + plain(
        decimal(settle as nat),
    ) + plain(",\"paths\":["@)
}

/// The report up to some trials, for machines.
pub open spec fn json_trials(head: Seq<Mark>, t: Seq<Trial>) -> Seq<Mark>
    decreases t.len(),
{
    if t.len() == 0 {
        head
    } else if t.len() == 1 {
        json_trials(head, t.drop_last()) + json_trial(t.last())
    } else {
        json_trials(head, t.drop_last()) + plain(","@) + json_trial(t.last())
    }
}

fn json_error_text(r: &Result<(), String>) -> (s: String)
    ensures
        s@ == json_error(
            match *r {
                Ok(_) => None,
                Err(t) => Some(t@),
            },
        ),
{
    match r {
        Ok(_) => "null".to_owned(),
        Err(t) => {
            let mut s: String = "\"".to_owned();
            vstd::string::StringExecFns::append(&mut s, single_quotes(t.as_str()).as_str());
            vstd::string::StringExecFns::append(&mut s, "\"");
            s
        },
    }
}

fn put_json_trial(m: &mut Vec<Glyph>, o: &ProbeOutcome)
    ensures
        shown(final(m)@) == shown(old(m)@) + json_trial(o@),
{
    let ghost before = shown(m@);
    put_text(m, "{\"path\":\"");
    put_text(m, o.path);
    put_text(m, "\",\"ok\":");
    put_text(m, truth_text(o.write_result.is_ok()));
    put_text(m, ",\"error\":");
    put_text(m, json_error_text(&o.write_result).as_str());
    put_text(m, ",\"before\":");
    put_fixed(m, o.actual_rpm_before, 0, 0);
    put_text(m, ",\"after\":");
    put_fixed(m, o.actual_rpm_after, 0, 0);
    put_text(m, ",\"delta\":");
    put_fixed(m, o.delta_rpm, 0, 0);
    put_text(m, ",\"passed\":");
    put_text(m, truth_text(o.passed()));
    put_text(m, "}");
    assert(shown(m@) =~= before + json_trial(o@));
}

fn json_message(e: &Envelope, settle: u64, v: &Vec<ProbeOutcome>) -> (m: Vec<Glyph>)
    ensures
        shown(m@) == json_trials(json_head(*e, settle), trials(v@)) + plain("]}"@),
{
    let ghost t = trials(v@);
    let ghost head = json_head(*e, settle);
    let mut m: Vec<Glyph> = start("{\"min_rpm\":");
    put_fixed(&mut m, e.min_rpm, 0, 0);
    put_text(&mut m, ",\"max_rpm\":");
    put_fixed(&mut m, e.max_rpm, 0, 0);
    put_text(&mut m, ",\"target_rpm\":");
    put_fixed(&mut m, e.target, 0, 0);
    put_text(&mut m, ",\"settle_secs\":");
    put_number(&mut m, settle);
    put_text(&mut m, ",\"paths\":[");
    let mut i: usize = 0;
    assert(t.take(0) =~= Seq::<Trial>::empty());
    while i < v.len()
        invariant
            i <= v@.len(),
            t == trials(v@),
            shown(m@) == json_trials(head, t.take(i as int)),
        decreases v@.len() - i,
    {
        if i > 0 {
            put_text(&mut m, ",");
        }
        put_json_trial(&mut m, &v[i]);
        proof {
            let next = t.take(i + 1);
            assert(next.drop_last() =~= t.take(i as int));
            assert(next.last() == v@[i as int]@);
        }
        i = i + 1;
    }
    assert(t.take(t.len() as int) =~= t);
    put_text(&mut m, "]}");
    m
}

/// A key that may be written, as its attributes say.
#[derive(Debug, Clone, Copy, PartialEq, Eq)]
pub struct WritableEntry {
    pub fourcc: u32,
    pub info: KeyInfo,
    pub attrs: u8,
}

/// The attributes say that the key may be written.
pub open spec fn writable(attrs: u8) -> bool {
    (attrs / 64) % 2 == 1
}

/// Looking for keys that may be written, from the index `i` to `n`. A key that
/// cannot be read is left out.
pub open spec fn finding(c: Conn, i: int, n: int, found: Seq<WritableEntry>, d: Dialog) -> (
    Seq<WritableEntry>,
    Dialog,
)
    decreases n - i,
{
    if i >= n {
        (found, d)
    } else {
        let (key, d1) = reading_index(c, i as u32, d);
        match key {
            Err(_) => finding(c, i + 1, n, found, d1),
            Ok(fourcc) => {
                let (r, d2) = reading_attributes(c, fourcc, d1);
                match r {
                    Err(_) => finding(c, i + 1, n, found, d2),
                    Ok((info, attrs)) => finding(
                        c,
                        i + 1,
                        n,
                        if writable(attrs) {
                            found.push(WritableEntry { fourcc, info, attrs })
                        } else {
                            found
                        },
                        d2,
                    ),
                }
            },
        }
    }
}

/// The most keys that are looked at.
pub const MAX_KEYS: u32 = 8000;

/// A key in the list.
pub open spec fn entry_row(e: WritableEntry) -> Said {
    out(
        plain(left(fourcc_text(e.fourcc), 8)) + plain(" "@) + plain(
            right(decimal(e.info.data_size as nat), 5),
        ) + plain(" "@) + plain(left(fourcc_text(e.info.data_type), 6)) + plain(" 0x"@) + plain(
            hex_upper(e.attrs as nat, 2),
        ),
    )
}

/// The head of the list.
pub open spec fn list_head(total: u32, n: nat) -> Seq<Said> {
    seq![
        out(
            plain("fand probe --enumerate — "@) + plain(decimal(total as nat)) + plain(
                " total keys, "@,
            ) + plain(decimal(n)) + plain(" writable"@),
        ),
        out(plain(rule(40))),
        out(
            plain(left("fourcc"@, 8)) + plain(" "@) + plain(right("size"@, 5)) + plain(" "@)
                + plain(left("type"@, 6)) + plain(" attrs"@),
        ),
        out(plain(rule(40))),
    ]
}

/// The keys in the list, below its head.
pub open spec fn entry_rows(head: Seq<Said>, v: Seq<WritableEntry>) -> Seq<Said>
    decreases v.len(),
{
    if v.len() == 0 {
        head
    } else {
        entry_rows(head, v.drop_last()).push(entry_row(v.last()))
    }
}

/// A key in the list, for machines.
pub open spec fn json_entry(e: WritableEntry) -> Seq<Mark> {
    plain("{\"fourcc\":\""@) + plain(fourcc_text(e.fourcc)) + plain("\",\"size\":"@) + plain(
        decimal(e.info.data_size as nat),
    ) + plain(",\"type\":\""@) + plain(fourcc_text(e.info.data_type)) + plain(
        "\",\"attrs\":\"0x"@,
    ) + plain(hex_upper(e.attrs as nat, 2)) + plain("\"}"@)
}

/// The list up to some keys, for machines.
pub open spec fn json_entries(total: u32, v: Seq<WritableEntry>) -> Seq<Mark>
    decreases v.len(),
{
    if v.len() == 0 {
        plain("{\"total_keys\":"@) + plain(decimal(total as nat)) + plain(",\"writable\":["@)
    } else if v.len() == 1 {
        json_entries(total, v.drop_last()) + json_entry(v.last())
    } else {
        json_entries(total, v.drop_last()) + plain(","@) + json_entry(v.last())
    }
}

/// The list.
pub open spec fn list_lines(total: u32, v: Seq<WritableEntry>, json: bool) -> Seq<Said> {
    if json {
        seq![out(json_entries(total, v) + plain("]}"@))]
    } else {
        entry_rows(list_head(total, v.len()), v).push(out(plain(rule(40))))
    }
}

/// A key in the list.
pub fn fourcc_str(fourcc: u32) -> (r: String)
    ensures
        r@ == fourcc_text(fourcc),
{
    fourcc_to_str(fourcc)
}

fn say_entries(total: u32, v: &Vec<WritableEntry>) -> (lines: Vec<Line>)
    ensures
        said(lines@) == list_lines(total, v@, false),
{
    let mut lines: Vec<Line> = silent();
    let line: String = rule_text(40);
    let mut h: Vec<Glyph> = start("fand probe --enumerate — ");
    put_number(&mut h, total as u64);
    put_text(&mut h, " total keys, ");
    put_number(&mut h, v.len() as u64);
    put_text(&mut h, " writable");
    say(&mut lines, h);
    say_text(&mut lines, line.as_str());
    let mut t: Vec<Glyph> = Vec::new();
    put_left(&mut t, "fourcc", 8);
    assert(shown(t@) =~= plain(left("fourcc"@, 8)));
    put_text(&mut t, " ");
    put_right(&mut t, "size", 5);
    put_text(&mut t, " ");
    put_left(&mut t, "type", 6);
    put_text(&mut t, " attrs");
    say(&mut lines, t);
    say_text(&mut lines, line.as_str());
    let ghost head = list_head(total, v@.len());
    assert(said(lines@) =~= head);
    let mut i: usize = 0;
    assert(v@.take(0) =~= Seq::<WritableEntry>::empty());
    while i < v.len()
        invariant
            i <= v@.len(),
            said(lines@) == entry_rows(head, v@.take(i as int)),
        decreases v@.len() - i,
    {
        let e: WritableEntry = v[i];
        let mut m: Vec<Glyph> = Vec::new();
        put_left(&mut m, fourcc_str(e.fourcc).as_str(), 8);
        assert(shown(m@) =~= plain(left(fourcc_text(e.fourcc), 8)));
        put_text(&mut m, " ");
        put_right(&mut m, decimal_text(e.info.data_size as u64).as_str(), 5);
        put_text(&mut m, " ");
        put_left(&mut m, fourcc_str(e.info.data_type).as_str(), 6);
        put_text(&mut m, " 0x");
        put_text(&mut m, hex_text(e.attrs as u64, 2).as_str());
        say(&mut lines, m);
        assert(v@.take(i + 1).drop_last() =~= v@.take(i as int));
        i = i + 1;
    }
    assert(v@.take(v@.len() as int) =~= v@);
    say_text(&mut lines, line.as_str());
    lines
}

fn put_json_entry(m: &mut Vec<Glyph>, e: &WritableEntry)
    ensures
        shown(final(m)@) == shown(old(m)@) + json_entry(*e),
{
    let ghost before = shown(m@);
    put_text(m, "{\"fourcc\":\"");
    put_text(m, fourcc_str(e.fourcc).as_str());
    put_text(m, "\",\"size\":");
    put_number(m, e.info.data_size as u64);
    put_text(m, ",\"type\":\"");
    put_text(m, fourcc_str(e.info.data_type).as_str());
    put_text(m, "\",\"attrs\":\"0x");
    put_text(m, hex_text(e.attrs as u64, 2).as_str());
    put_text(m, "\"}");
    assert(shown(m@) =~= before + json_entry(*e));
}

fn json_list(total: u32, v: &Vec<WritableEntry>) -> (m: Vec<Glyph>)
    ensures
        shown(m@) == json_entries(total, v@) + plain("]}"@),
{
    let mut m: Vec<Glyph> = start("{\"total_keys\":");
    put_number(&mut m, total as u64);
    put_text(&mut m, ",\"writable\":[");
    let mut i: usize = 0;
    assert(v@.take(0) =~= Seq::<WritableEntry>::empty());
    while i < v.len()
        invariant
            i <= v@.len(),
            shown(m@) == json_entries(total, v@.take(i as int)),
        decreases v@.len() - i,
    {
        if i > 0 {
            put_text(&mut m, ",");
        }
        put_json_entry(&mut m, &v[i]);
        assert(v@.take(i + 1).drop_last() =~= v@.take(i as int));
        i = i + 1;
    }
    assert(v@.take(v@.len() as int) =~= v@);
    put_text(&mut m, "]}");
    m
}

/// The keys that may be written: count the keys, look at each, say which.
pub open spec fn enumerating(c: Conn, json: bool, d: Dialog) -> ((u8, Seq<Said>), Conn, Dialog) {
    let (count, c1, d1) = reading_u32(c, KEY_COUNT, d);
    match count {
        Err(e) => (
            (
                1,
                seq![err(plain("fand probe --enumerate: read #KEY failed: "@) + plain(e.text()))],
            ),
            c1,
            d1,
        ),
        Ok(n) => {
            let total = if n < MAX_KEYS {
                n
            } else {
                MAX_KEYS
            };
            let (v, d2) = finding(c1, 0, total as int, Seq::empty(), d1);
            ((0, list_lines(total, v, json)), c1, d2)
        },
    }
}

fn run_enumerate(conn: &mut SmcConnection, json: bool, io: &mut Exchange) -> (r: Outcome)
    requires
        old(conn).wf(),
    ensures
        final(conn).wf(),
        (r@, final(conn)@, final(io)@) == enumerating(old(conn)@, json, old(io)@),
{
    let n: u32 = match conn.read_u32(KEY_COUNT, io) {
        Ok(v) => v,
        Err(e) => {
            let mut m: Vec<Glyph> = start("fand probe --enumerate: read #KEY failed: ");
            put_error(&mut m, &e);
            return one_warning(1, m);
        },
    };
    let total: u32 = if n < MAX_KEYS {
        n
    } else {
        MAX_KEYS
    };
    let mut found: Vec<WritableEntry> = Vec::new();
    let ghost c0 = conn@;
    let ghost d0 = io@;
    let mut i: u32 = 0;
    while i < total
        invariant
            i <= total,
            conn.wf(),
            conn@ == c0,
            finding(c0, i as int, total as int, found@, io@) == finding(
                c0,
                0,
                total as int,
                Seq::empty(),
                d0,
            ),
        decreases total - i,
    {
        if let Ok(fourcc) = conn.read_key_at_index(i, io) {
            if let Ok((info, attrs)) = conn.read_key_info_full(fourcc, io) {
                assert((attrs & ATTR_WRITABLE != 0) == ((attrs / 64) % 2 == 1)) by {
                    assert((attrs & 0x40 != 0) == ((attrs / 64) % 2 == 1)) by (bit_vector);
                }
                if attrs & ATTR_WRITABLE != 0 {
                    found.push(WritableEntry { fourcc, info, attrs });
                }
            }
        }
        i = i + 1;
    }
    let lines: Vec<Line> = if json {
        let mut l: Vec<Line> = silent();
        let m: Vec<Glyph> = json_list(total, &found);
        let ghost t = shown(m@);
        say(&mut l, m);
        assert(said(l@) =~= seq![out(t)]);
        l
    } else {
        say_entries(total, &found)
    };
    Outcome { code: 0, lines }
}

/// What an open that failed comes to.
pub open spec fn open_failure(e: SmcError) -> (u8, Seq<Said>) {
    (
        2,
        seq![
            err(plain("fand probe: SMC open failed: "@) + plain(e.text())),
            err(plain("  hint: run as root (sudo fand probe)"@)),
        ],
    )
}

/// The command: open, look for keys or try to move the fan, close.
pub open spec fn probe(a: ProbeArgs, d: Dialog) -> ((u8, Seq<Said>), Dialog) {
    let (opened, d1) = opening(d);
    match opened {
        Err(e) => (open_failure(e), d1),
        Ok(c1) => if a.enumerate {
            let (r, c2, d2) = enumerating(c1, a.json, d1);
            (r, closing(c2, d2).1)
        } else {
            let (envelope, c2, d2) = reading_envelope(a.target_rpm, c1, d1);
            match envelope {
                Err(e) => (
                    (1, seq![err(plain("fand probe: read F0Mn failed: "@) + plain(e.text()))]),
                    closing(c2, d2).1,
                ),
                Ok(e) => {
                    let (t, c3, d3) = probing(e, a.settle_secs, c2, d2);
                    (
                        (
                            if any_passed(t) {
                                0
                            } else {
                                1
                            },
                            if a.json {
                                seq![
                                    out(
                                        json_trials(json_head(e, a.settle_secs), t) + plain("]}"@),
                                    ),
                                ]
                            } else {
                                seq![head_line(e, a.settle_secs)] + report(t)
                            },
                        ),
                        closing(c3, d3).1,
                    )
                },
            }
        },
    }
}

/// The command.
pub fn execute(a: &ProbeArgs, io: &mut Exchange) -> (r: Outcome)
    requires
        a.settle_secs <= 30,
    ensures
        (r@, final(io)@) == probe(*a, old(io)@),
{
    let mut conn: SmcConnection = match SmcConnection::open(io) {
        Ok(c) => c,
        Err(e) => {
            let mut lines: Vec<Line> = silent();
            let mut m: Vec<Glyph> = start("fand probe: SMC open failed: ");
            put_error(&mut m, &e);
            warn(&mut lines, m);
            warn_text(&mut lines, "  hint: run as root (sudo fand probe)");
            assert(said(lines@) =~= open_failure(e).1);
            return Outcome { code: 2, lines };
        },
    };
    if a.enumerate {
        let r: Outcome = run_enumerate(&mut conn, a.json, io);
        conn.close(io);
        return r;
    }
    let envelope: Envelope = match read_envelope(&mut conn, a.target_rpm, io) {
        Ok(e) => e,
        Err(e) => {
            conn.close(io);
            let mut m: Vec<Glyph> = start("fand probe: read F0Mn failed: ");
            put_error(&mut m, &e);
            return one_warning(1, m);
        },
    };
    let outcomes: Vec<ProbeOutcome> = run_trials(&mut conn, &envelope, a.settle_secs, io);
    conn.close(io);
    let code: u8 = if has_passed(&outcomes) {
        0
    } else {
        1
    };
    let mut lines: Vec<Line> = silent();
    if a.json {
        let m: Vec<Glyph> = json_message(&envelope, a.settle_secs, &outcomes);
        let ghost t = shown(m@);
        say(&mut lines, m);
        assert(said(lines@) =~= seq![out(t)]);
    } else {
        say(&mut lines, head_message(&envelope, a.settle_secs));
        say_all(&mut lines, say_report(&outcomes));
        assert(said(lines@) =~= seq![head_line(envelope, a.settle_secs)] + report(
            trials(outcomes@),
        ));
    }
    Outcome { code, lines }
}

/// Whatever the trials come to, the last thing that is written leaves the fan to
/// the firmware.
pub proof fn law_probe_leaves_the_fan_to_the_firmware(e: Envelope, settle: u64, c: Conn, d: Dialog)
    ensures
        exists|c1: Conn, d1: Dialog|
            #![trigger writing_mode(c1, 0, d1)]
            probing(e, settle, c, d).1 == writing_mode(c1, 0, d1).1 && probing(e, settle, c, d).2
                == writing_mode(c1, 0, d1).2,
{
    let (c1, d1) = resetting(c, RESET_WAIT_MS, d);
    let (t1, c2, d2) = probing_direct("F0Tg_direct"@, F0TG, e.target, settle, c1, d1);
    let (c3, d3) = resetting(c2, RESET_WAIT_MS, d2);
    let (t2, c4, d4) = probing_direct(
        "F0Dc_direct"@,
        F0DC,
        duty_of(e.target, e.min_rpm, e.max_rpm),
        settle,
        c3,
        d3,
    );
    let (c5, d5) = resetting(c4, RESET_WAIT_MS, d4);
    let (t3, c6, d6) = probing_target(e.target, settle, c5, d5);
    let (c7, d7) = resetting(c6, RESET_WAIT_MS, d6);
    let (t4, c8, d8) = probing_floor(e.min_rpm, e.target, settle, c7, d7);
    let (c9, d9) = resetting(c8, RESET_WAIT_MS, d8);
    let (t5, c10, d10) = probing_sensor(settle, c9, d9);
    assert(probing(e, settle, c, d).1 == writing_mode(c10, 0, d10).1);
}

/// A minimum that was raised is put back, as the last thing of the trial.
pub proof fn law_floor_is_put_back(original: Flt, target: Flt, settle: u64, c: Conn, d: Dialog)
    requires
        writing_be(measuring(c, d).1, F0MN, target, measuring(c, d).2).0 is Ok,
    ensures
        exists|c1: Conn, d1: Dialog|
            #![trigger writing_be(c1, F0MN, original, d1)]
            probing_floor(original, target, settle, c, d).1 == writing_be(
                c1,
                F0MN,
                original,
                d1,
            ).1 && probing_floor(original, target, settle, c, d).2 == writing_be(
                c1,
                F0MN,
                original,
                d1,
            ).2,
{
    reveal(probing_floor);
    let (before, c1, d1) = measuring(c, d);
    let (r, c2, d2) = writing_be(c1, F0MN, target, d1);
    let (m, c3, d3) = writing_mode(c2, 1, d2);
    let (after, c4, d4) = measuring(c3, settling(m is Ok, settle, d3));
    assert(probing_floor(original, target, settle, c, d).1 == writing_be(
        c4,
        F0MN,
        original,
        d4,
    ).1);
}

} // verus!
