//! The command `set`: hold a fan, or show what holding it would do.

use super::keys::{fourcc_to_string, key_text};
use super::parse::{fan_index, parse_fan_index, parse_rpm, rpm_value};
use super::say::{
    err, out, put_error, said, say, say_all, say_text, silent, start, truth, truth_text, warn,
    warn_text, Line, Outcome, Said,
};
use crate::control::adapter::ENGAGE_BITS;
use crate::control::state::{clamped_target, floor_of, ClampedRpm};
use crate::flt::Flt;
use crate::glyph::{
    exact, fixed, plain, put_exact, put_fixed, put_number, put_text, shown, Glyph, Mark,
};
use crate::smc::enumerate::Fan;
use crate::smc::error::SmcError;
use crate::smc::exchange::{Dialog, Exchange};
use crate::smc::write_session::{asks_for_minimum, committing, Session, WriteSession};
use crate::text::{decimal, same_text, texts};
use vstd::prelude::*;
use vstd::string::StringExecFns;

verus! {

/// Show, or do.
#[derive(Debug, Clone, Copy, PartialEq, Eq, Structural)]
pub enum Mode {
    DryRun,
    Commit,
}

/// The arguments.
#[derive(Debug, Clone, Copy, PartialEq, Eq)]
pub struct CliSetArgs {
    pub fan_index: u8,
    pub raw_rpm: Flt,
    pub mode: Mode,
    pub json_output: bool,
}

/// The arguments that were read so far.
pub struct Partial {
    pub fan_index: Option<u8>,
    pub raw_rpm: Option<Flt>,
    pub mode: Option<Mode>,
    pub json_output: bool,
}

/// All arguments, or the first that is missing.
pub open spec fn complete(p: Partial) -> Result<CliSetArgs, Seq<char>> {
    match (p.fan_index, p.raw_rpm, p.mode) {
        (None, _, _) => Err("--fan is required"@),
        (_, None, _) => Err("--rpm is required"@),
        (_, _, None) => Err("one of --dry-run or --commit is required"@),
        (Some(fan_index), Some(raw_rpm), Some(mode)) => Ok(
            CliSetArgs { fan_index, raw_rpm, mode, json_output: p.json_output },
        ),
    }
}

/// The arguments from the `i`-th on, behind those that were read before.
pub open spec fn set_args(args: Seq<Seq<char>>, i: int, p: Partial) -> Result<
    CliSetArgs,
    Seq<char>,
>
    decreases args.len() - i,
{
    if i >= args.len() {
        complete(p)
    } else if args[i] == "--fan"@ {
        if i + 1 >= args.len() {
            Err("--fan requires a value"@)
        } else {
            match fan_index(args[i + 1]) {
                Ok(n) => set_args(args, i + 2, Partial { fan_index: Some(n), ..p }),
                Err(e) => Err("--fan: "@ + e.words()),
            }
        }
    } else if args[i] == "--rpm"@ {
        if i + 1 >= args.len() {
            Err("--rpm requires a value"@)
        } else {
            match rpm_value(args[i + 1]) {
                Ok(v) => set_args(args, i + 2, Partial { raw_rpm: Some(v), ..p }),
                Err(e) => Err("--rpm: "@ + e.words()),
            }
        }
    } else if args[i] == "--dry-run"@ {
        if p.mode is Some {
            Err("exactly one of --dry-run or --commit is required"@)
        } else {
            set_args(args, i + 1, Partial { mode: Some(Mode::DryRun), ..p })
        }
    } else if args[i] == "--commit"@ {
        if p.mode is Some {
            Err("exactly one of --dry-run or --commit is required"@)
        } else {
            set_args(args, i + 1, Partial { mode: Some(Mode::Commit), ..p })
        }
    } else if args[i] == "--json"@ {
        set_args(args, i + 1, Partial { json_output: true, ..p })
    } else if args[i] == "--help"@ || args[i] == "-h"@ {
        Err("see usage below"@)
    } else {
        Err("unknown flag: "@ + args[i])
    }
}

/// No arguments yet.
pub open spec fn no_args() -> Partial {
    Partial { fan_index: None, raw_rpm: None, mode: None, json_output: false }
}

/// A parsed value is the one that a function of texts gives.
pub open spec fn args_agree<T>(r: Result<T, String>, with: Result<T, Seq<char>>) -> bool {
    match r {
        Ok(v) => with == Ok::<T, Seq<char>>(v),
        Err(s) => with == Err::<T, Seq<char>>(s@),
    }
}

/// Two texts, one behind the other.
pub fn joined(a: &str, b: &str) -> (r: String)
    ensures
        r@ == a@ + b@,
{
    let mut s: String = a.to_owned();
    s.append(b);
    s
}

/// Reads the arguments.
pub fn parse_args(args: &Vec<String>) -> (r: Result<CliSetArgs, String>)
    ensures
        args_agree(r, set_args(texts(args@), 0, no_args())),
{
    let ghost words = texts(args@);
    let mut fan_index: Option<u8> = None;
    let mut raw_rpm: Option<Flt> = None;
    let mut mode: Option<Mode> = None;
    let mut json_output: bool = false;
    let mut i: usize = 0;
    let len: usize = args.len();
    while i < len
        invariant
            i <= len,
            len == args@.len(),
            words == texts(args@),
            set_args(words, 0, no_args()) == set_args(
                words,
                i as int,
                Partial { fan_index, raw_rpm, mode, json_output },
            ),
        decreases len - i,
    {
        let arg: &str = args[i].as_str();
        assert(words[i as int] == arg@);
        if same_text(arg, "--fan") {
            if i + 1 >= len {
                return Err("--fan requires a value".to_owned());
            }
            i = i + 1;
            let v: &str = args[i].as_str();
            assert(words[i as int] == v@);
            match parse_fan_index(v) {
                Ok(n) => {
                    fan_index = Some(n);
                },
                Err(e) => {
                    return Err(joined("--fan: ", e.message()));
                },
            }
        } else if same_text(arg, "--rpm") {
            if i + 1 >= len {
                return Err("--rpm requires a value".to_owned());
            }
            i = i + 1;
            let v: &str = args[i].as_str();
            assert(words[i as int] == v@);
            match parse_rpm(v) {
                Ok(x) => {
                    raw_rpm = Some(x);
                },
                Err(e) => {
                    return Err(joined("--rpm: ", e.message()));
                },
            }
        } else if same_text(arg, "--dry-run") {
            if mode.is_some() {
                return Err("exactly one of --dry-run or --commit is required".to_owned());
            }
            mode = Some(Mode::DryRun);
        } else if same_text(arg, "--commit") {
            if mode.is_some() {
                return Err("exactly one of --dry-run or --commit is required".to_owned());
            }
            mode = Some(Mode::Commit);
        } else if same_text(arg, "--json") {
            json_output = true;
        } else if same_text(arg, "--help") || same_text(arg, "-h") {
            return Err("see usage below".to_owned());
        } else {
            return Err(joined("unknown flag: ", arg));
        }
        i = i + 1;
    }
    let fan_index: u8 = match fan_index {
        Some(n) => n,
        None => {
            return Err("--fan is required".to_owned());
        },
    };
    let raw_rpm: Flt = match raw_rpm {
        Some(v) => v,
        None => {
            return Err("--rpm is required".to_owned());
        },
    };
    let mode: Mode = match mode {
        Some(m) => m,
        None => {
            return Err("one of --dry-run or --commit is required".to_owned());
        },
    };
    Ok(CliSetArgs { fan_index, raw_rpm, mode, json_output })
}

/// What is said of arguments that cannot be used.
pub open spec fn usage_lines(why: Seq<char>) -> Seq<Said> {
    seq![
        err(plain("fand set: "@) + plain(why)),
        err(plain("usage: fand set --fan <N> --rpm <V> (--dry-run | --commit) [--json]"@)),
    ]
}

/// What is said of arguments that cannot be used.
pub fn usage(why: &str) -> (r: Outcome)
    ensures
        r@ == (64u8, usage_lines(why@)),
{
    let mut lines: Vec<Line> = silent();
    let mut m: Vec<Glyph> = start("fand set: ");
    put_text(&mut m, why);
    warn(&mut lines, m);
    warn_text(&mut lines, "usage: fand set --fan <N> --rpm <V> (--dry-run | --commit) [--json]");
    assert(said(lines@) =~= usage_lines(why@));
    Outcome { code: 64, lines }
}

/// A key in a report.
pub fn fourcc_display(fourcc: u32) -> (r: String)
    ensures
        r@ == key_text(fourcc),
{
    fourcc_to_string(fourcc)
}

/// What an error of the SMC comes to.
pub open spec fn error_outcome(e: SmcError) -> (u8, Seq<Said>) {
    let line = err(plain("fand set: "@) + plain(e.text()));
    match e {
        SmcError::ConflictDetected { .. } => (5, seq![line]),
        SmcError::OpenFailed(_) | SmcError::ServiceNotFound => (
            2,
            seq![line, err(plain("  hint: run as root (sudo fand set ...)"@))],
        ),
        SmcError::KeyNotFound(_) => (
            3,
            seq![line, err(plain("  hint: this fan may be unsupported on this SoC"@))],
        ),
        SmcError::WatchdogFired { .. } => (4, seq![line]),
        _ => (1, seq![line]),
    }
}

/// What an error of the SMC comes to.
pub fn code_from_smc_error(e: &SmcError) -> (r: Outcome)
    ensures
        r@ == error_outcome(*e),
{
    let mut lines: Vec<Line> = silent();
    let mut m: Vec<Glyph> = start("fand set: ");
    put_error(&mut m, e);
    warn(&mut lines, m);
    let code: u8 = match e {
        SmcError::ConflictDetected { .. } => 5,
        SmcError::OpenFailed(_) | SmcError::ServiceNotFound => {
            warn_text(&mut lines, "  hint: run as root (sudo fand set ...)");
            2
        },
        SmcError::KeyNotFound(_) => {
            warn_text(&mut lines, "  hint: this fan may be unsupported on this SoC");
            3
        },
        SmcError::WatchdogFired { .. } => 4,
        _ => 1,
    };
    assert(said(lines@) =~= error_outcome(*e).1);
    Outcome { code, lines }
}

/// The target of a request.
pub open spec fn target_of(raw: Flt, fan: Fan, safe_min: Option<Flt>) -> u32 {
    clamped_target(raw, floor_of(fan.min_rpm, safe_min), fan.max_rpm).to_whole()
}

/// A request was changed to fit the envelope.
pub open spec fn changed(raw: Flt, fan: Fan, safe_min: Option<Flt>) -> bool {
    !raw.finite() || raw.less(floor_of(fan.min_rpm, safe_min)) || fan.max_rpm.less(raw)
}

/// The head of the plan.
pub open spec fn plan_head(a: CliSetArgs, fan: Fan, target: u32, was_clamped: bool) -> Seq<Said> {
    seq![
        out(
            plain("fand set --fan "@) + plain(decimal(a.fan_index as nat)) + plain(" --rpm "@)
                + exact(a.raw_rpm) + plain(" --dry-run"@),
        ),
        out(plain("  fan:            "@) + plain(decimal(a.fan_index as nat))),
        out(
            plain("  envelope:       ["@) + fixed(fan.min_rpm, 0, 1) + plain(", "@) + fixed(
                fan.max_rpm,
                0,
                1,
            ) + plain("]"@),
        ),
        out(plain("  raw request:    "@) + fixed(a.raw_rpm, 0, 1)),
        out(
            if was_clamped {
                plain("  clamped target: "@) + plain(decimal(target as nat)) + plain(
                    " RPM  (CLAMPED from "@,
                ) + fixed(a.raw_rpm, 0, 1) + plain(")"@)
            } else {
                plain("  clamped target: "@) + plain(decimal(target as nat)) + plain(
                    " RPM  (within envelope, no clamp applied)"@,
                )
            },
        ),
        out(plain("  planned writes (Apple Silicon M-series control surface):"@)),
    ]
}

/// The plan, if the minimum is what the request asks for.
pub open spec fn plan_minimum(a: CliSetArgs, fan: Fan) -> Seq<Said> {
    let i = plain(decimal(a.fan_index as nat));
    seq![
        out(
            plain("    1. F"@) + i + plain(
                "md = 1               (force minimum — fan will drop to ~"@,
            ) + plain(decimal(fan.min_rpm.truncated() as nat)) + plain(" RPM)"@),
        ),
        out(plain("  round-trip reads (expected):"@)),
        out(plain("    F"@) + i + plain("md    = 1"@)),
        out(plain("  teardown on exit:"@)),
        out(plain("    F"@) + i + plain("md = 0  (return to system thermal manager)"@)),
    ]
}

/// The plan, if the request asks for a speed that cannot be held.
pub open spec fn plan_nothing(a: CliSetArgs, fan: Fan) -> Seq<Said> {
    seq![
        out(
            plain(
                "    (none — Apple Silicon M-series exposes only F0md=0/auto and F0md=1/min;"@,
            ),
        ),
        out(plain("     arbitrary RPM targets are not writable via the SMC interface"@)),
        out(plain("     per research.md RD-08. --commit at this RPM would be REJECTED.)"@)),
        out(plain(""@)),
        out(
            plain("  to engage forced minimum:  fand set --fan "@) + plain(
                decimal(a.fan_index as nat),
            ) + plain(" --rpm "@) + plain(decimal(fan.min_rpm.truncated() as nat)) + plain(
                " --commit"@,
            ),
        ),
    ]
}

/// The plan.
pub open spec fn plan(a: CliSetArgs, fan: Fan, target: u32, was_clamped: bool) -> Seq<Said> {
    plan_head(a, fan, target, was_clamped) + (if asks_for_minimum(fan, target) {
        plan_minimum(a, fan)
    } else {
        plan_nothing(a, fan)
    })
}

fn say_plan_head(a: &CliSetArgs, fan: &Fan, target: u32, was_clamped: bool) -> (lines: Vec<Line>)
    ensures
        said(lines@) == plan_head(*a, *fan, target, was_clamped),
{
    let mut lines: Vec<Line> = silent();
    let mut m: Vec<Glyph> = start("fand set --fan ");
    put_number(&mut m, a.fan_index as u64);
    put_text(&mut m, " --rpm ");
    put_exact(&mut m, a.raw_rpm);
    put_text(&mut m, " --dry-run");
    say(&mut lines, m);
    let mut f: Vec<Glyph> = start("  fan:            ");
    put_number(&mut f, a.fan_index as u64);
    say(&mut lines, f);
    let mut e: Vec<Glyph> = start("  envelope:       [");
    put_fixed(&mut e, fan.min_rpm, 0, 1);
    put_text(&mut e, ", ");
    put_fixed(&mut e, fan.max_rpm, 0, 1);
    put_text(&mut e, "]");
    say(&mut lines, e);
    let mut r: Vec<Glyph> = start("  raw request:    ");
    put_fixed(&mut r, a.raw_rpm, 0, 1);
    say(&mut lines, r);
    let mut c: Vec<Glyph> = start("  clamped target: ");
    put_number(&mut c, target as u64);
    if was_clamped {
        put_text(&mut c, " RPM  (CLAMPED from ");
        put_fixed(&mut c, a.raw_rpm, 0, 1);
        put_text(&mut c, ")");
    } else {
        put_text(&mut c, " RPM  (within envelope, no clamp applied)");
    }
    say(&mut lines, c);
    say_text(&mut lines, "  planned writes (Apple Silicon M-series control surface):");
    assert(said(lines@) =~= plan_head(*a, *fan, target, was_clamped));
    lines
}

fn say_plan_minimum(a: &CliSetArgs, fan: &Fan) -> (lines: Vec<Line>)
    ensures
        said(lines@) == plan_minimum(*a, *fan),
{
    let mut lines: Vec<Line> = silent();
    let mut m: Vec<Glyph> = start("    1. F");
    put_number(&mut m, a.fan_index as u64);
    put_text(&mut m, "md = 1               (force minimum — fan will drop to ~");
    put_number(&mut m, fan.min_rpm.trunc_to_u32() as u64);
    put_text(&mut m, " RPM)");
    say(&mut lines, m);
    say_text(&mut lines, "  round-trip reads (expected):");
    let mut r: Vec<Glyph> = start("    F");
    put_number(&mut r, a.fan_index as u64);
    put_text(&mut r, "md    = 1");
    say(&mut lines, r);
    say_text(&mut lines, "  teardown on exit:");
    let mut t: Vec<Glyph> = start("    F");
    put_number(&mut t, a.fan_index as u64);
    put_text(&mut t, "md = 0  (return to system thermal manager)");
    say(&mut lines, t);
    assert(said(lines@) =~= plan_minimum(*a, *fan));
    lines
}

fn say_plan_nothing(a: &CliSetArgs, fan: &Fan) -> (lines: Vec<Line>)
    ensures
        said(lines@) == plan_nothing(*a, *fan),
{
    let mut lines: Vec<Line> = silent();
    say_text(
        &mut lines,
        "    (none — Apple Silicon M-series exposes only F0md=0/auto and F0md=1/min;",
    );
    say_text(&mut lines, "     arbitrary RPM targets are not writable via the SMC interface");
    say_text(&mut lines, "     per research.md RD-08. --commit at this RPM would be REJECTED.)");
    say_text(&mut lines, "");
    let mut m: Vec<Glyph> = start("  to engage forced minimum:  fand set --fan ");
    put_number(&mut m, a.fan_index as u64);
    put_text(&mut m, " --rpm ");
    put_number(&mut m, fan.min_rpm.trunc_to_u32() as u64);
    put_text(&mut m, " --commit");
    say(&mut lines, m);
    assert(said(lines@) =~= plan_nothing(*a, *fan));
    lines
}

/// The plan.
pub fn print_dry_run_human(a: &CliSetArgs, fan: &Fan, clamped: ClampedRpm, was_clamped: bool) -> (lines:
    Vec<Line>)
    ensures
        said(lines@) == plan(*a, *fan, clamped@, was_clamped),
{
    let mut lines: Vec<Line> = say_plan_head(a, fan, clamped.value(), was_clamped);
    let tolerance: Flt = fan.max_rpm.sub(fan.min_rpm).mul(Flt { bits: ENGAGE_BITS });
    if clamped.as_f32().sub(fan.min_rpm).abs().le(tolerance) {
        say_all(&mut lines, say_plan_minimum(a, fan));
    } else {
        say_all(&mut lines, say_plan_nothing(a, fan));
    }
    lines
}

/// Who plans, in the plan for machines.
pub open spec fn json_plan_head(version: Seq<char>, session: Seq<char>) -> Seq<Mark> {
    plain(
        "{\"$schema\":\"https://pedrohbalbino.github.io/fand/schemas/dry-run-v1.json\",\"$id\":\"urn:fand:session:"@,
    ) + plain(session) + plain(
        "\",\"schema_version\":1,\"subcommand\":\"set\",\"mode\":\"dry-run\",\"fand_version\":\""@,
    ) + plain(version) + plain("\",\"session_id\":\""@) + plain(session)
}

/// The fan and the request, in the plan for machines.
pub open spec fn json_request(a: CliSetArgs, fan: Fan, target: u32, was_clamped: bool) -> Seq<
    Mark,
> {
    plain("\",\"fan\":{\"index\":"@) + plain(decimal(a.fan_index as nat)) + plain(
        ",\"min_rpm\":"@,
    ) + fixed(fan.min_rpm, 0, 1) + plain(",\"max_rpm\":"@) + fixed(fan.max_rpm, 0, 1) + plain(
        ",\"mode_key\":\""@,
    ) + plain(key_text(fan.mode_key)) + plain("\"},\"request\":{\"raw_rpm\":"@) + fixed(
        a.raw_rpm,
        0,
        1,
    ) + plain(",\"clamped_rpm\":"@) + plain(decimal(target as nat)) + plain(
        ",\"was_clamped\":"@,
    ) + plain(truth(was_clamped))
}

/// The writes, in the plan for machines.
pub open spec fn json_writes(a: CliSetArgs, target: u32) -> Seq<Mark> {
    let i = plain(decimal(a.fan_index as nat));
    plain(
        "},\"planned_writes\":[{\"step\":1,\"key\":\"Ftst\",\"value\":1},{\"step\":2,\"key\":\"F"@,
    ) + i + plain("Md\",\"value\":1},{\"step\":3,\"key\":\"F"@) + i + plain("Tg\",\"value\":"@)
        + plain(decimal(target as nat)) + plain(
        "}],\"planned_teardown\":[{\"step\":1,\"key\":\"F"@,
    ) + i + plain("Md\",\"value\":0},{\"step\":2,\"key\":\"Ftst\",\"value\":0}]}"@)
}

/// The plan, for machines.
pub open spec fn json_plan(
    a: CliSetArgs,
    fan: Fan,
    target: u32,
    was_clamped: bool,
    version: Seq<char>,
    session: Seq<char>,
) -> Seq<Mark> {
    json_plan_head(version, session) + json_request(a, fan, target, was_clamped) + json_writes(
        a,
        target,
    )
}

fn put_request(m: &mut Vec<Glyph>, a: &CliSetArgs, fan: &Fan, target: u32, was_clamped: bool)
    ensures
        shown(final(m)@) == shown(old(m)@) + json_request(*a, *fan, target, was_clamped),
{
    let ghost before = shown(m@);
    put_text(m, "\",\"fan\":{\"index\":");
    put_number(m, a.fan_index as u64);
    put_text(m, ",\"min_rpm\":");
    put_fixed(m, fan.min_rpm, 0, 1);
    put_text(m, ",\"max_rpm\":");
    put_fixed(m, fan.max_rpm, 0, 1);
    put_text(m, ",\"mode_key\":\"");
    put_text(m, fourcc_display(fan.mode_key).as_str());
    put_text(m, "\"},\"request\":{\"raw_rpm\":");
    put_fixed(m, a.raw_rpm, 0, 1);
    put_text(m, ",\"clamped_rpm\":");
    put_number(m, target as u64);
    put_text(m, ",\"was_clamped\":");
    put_text(m, truth_text(was_clamped));
    assert(shown(m@) =~= before + json_request(*a, *fan, target, was_clamped));
}

fn put_writes(m: &mut Vec<Glyph>, a: &CliSetArgs, target: u32)
    ensures
        shown(final(m)@) == shown(old(m)@) + json_writes(*a, target),
{
    let ghost before = shown(m@);
    put_text(
        m,
        "},\"planned_writes\":[{\"step\":1,\"key\":\"Ftst\",\"value\":1},{\"step\":2,\"key\":\"F",
    );
    put_number(m, a.fan_index as u64);
    put_text(m, "Md\",\"value\":1},{\"step\":3,\"key\":\"F");
    put_number(m, a.fan_index as u64);
    put_text(m, "Tg\",\"value\":");
    put_number(m, target as u64);
    put_text(m, "}],\"planned_teardown\":[{\"step\":1,\"key\":\"F");
    put_number(m, a.fan_index as u64);
    put_text(m, "Md\",\"value\":0},{\"step\":2,\"key\":\"Ftst\",\"value\":0}]}");
    assert(shown(m@) =~= before + json_writes(*a, target));
}

/// The plan, for machines.
pub fn print_dry_run_json(
    a: &CliSetArgs,
    fan: &Fan,
    clamped: ClampedRpm,
    was_clamped: bool,
    version: &str,
    session: &str,
) -> (m: Vec<Glyph>)
    ensures
        shown(m@) == json_plan(*a, *fan, clamped@, was_clamped, version@, session@),
{
    let mut m: Vec<Glyph> = start(
        "{\"$schema\":\"https://pedrohbalbino.github.io/fand/schemas/dry-run-v1.json\",\"$id\":\"urn:fand:session:",
    );
    put_text(&mut m, session);
    put_text(
        &mut m,
        "\",\"schema_version\":1,\"subcommand\":\"set\",\"mode\":\"dry-run\",\"fand_version\":\"",
    );
    put_text(&mut m, version);
    put_text(&mut m, "\",\"session_id\":\"");
    put_text(&mut m, session);
    put_request(&mut m, a, fan, clamped.value(), was_clamped);
    put_writes(&mut m, a, clamped.value());
    m
}

/// What is said when there are no fans.
pub open spec fn no_fans() -> Seq<Said> {
    seq![err(plain("fand set: no fans on this machine — nothing to set"@))]
}

/// The plural of a count.
pub open spec fn plural(n: nat) -> Seq<char> {
    if n == 1 {
        ""@
    } else {
        "s"@
    }
}

/// What is said of a fan that is not there.
pub open spec fn no_such_fan(command: Seq<char>, fan_index: u8, n: nat) -> Seq<Said> {
    seq![
        err(
            plain(command) + plain(": --fan "@) + plain(decimal(fan_index as nat)) + plain(
                " is out of range (this machine has "@,
            ) + plain(decimal(n)) + plain(" fan"@) + plain(plural(n)) + plain(")"@),
        ),
    ]
}

/// The plural of a count.
pub fn plural_text(n: usize) -> (r: &'static str)
    ensures
        r@ == plural(n as nat),
{
    if n == 1 {
        ""
    } else {
        "s"
    }
}

/// What is said of a fan that is not there.
pub fn say_no_such_fan(command: &str, fan_index: u8, n: usize) -> (lines: Vec<Line>)
    ensures
        said(lines@) == no_such_fan(command@, fan_index, n as nat),
{
    let mut lines: Vec<Line> = silent();
    let mut m: Vec<Glyph> = start(command);
    put_text(&mut m, ": --fan ");
    put_number(&mut m, fan_index as u64);
    put_text(&mut m, " is out of range (this machine has ");
    put_number(&mut m, n as u64);
    put_text(&mut m, " fan");
    put_text(&mut m, plural_text(n));
    put_text(&mut m, ")");
    warn(&mut lines, m);
    assert(said(lines@) =~= no_such_fan(command@, fan_index, n as nat));
    lines
}

/// What is said before a fan is taken over.
pub open spec fn announcement(
    a: CliSetArgs,
    fan: Fan,
    target: u32,
    was_clamped: bool,
    session: Seq<char>,
) -> Seq<Said> {
    let none: Seq<Said> = Seq::empty();
    let notice = if was_clamped {
        none.push(
            err(
                plain("fand set: clamped "@) + fixed(a.raw_rpm, 0, 1) + plain(" → "@) + plain(
                    decimal(target as nat),
                ) + plain(" RPM (fan "@) + plain(decimal(a.fan_index as nat)) + plain(
                    " envelope ["@,
                ) + fixed(fan.min_rpm, 0, 1) + plain(", "@) + fixed(fan.max_rpm, 0, 1) + plain(
                    "])"@,
                ),
            ),
        )
    } else {
        none
    };
    notice.push(
        err(
            plain("fand set: committing "@) + plain(decimal(target as nat)) + plain(" RPM on fan "@)
                + plain(decimal(a.fan_index as nat)) + plain(" (session "@) + plain(session)
                + plain(")"@),
        ),
    )
}

fn announce(a: &CliSetArgs, fan: &Fan, target: u32, was_clamped: bool, session: &str) -> (lines: Vec<
    Line,
>)
    ensures
        said(lines@) == announcement(*a, *fan, target, was_clamped, session@),
{
    let mut lines: Vec<Line> = silent();
    if was_clamped {
        let mut m: Vec<Glyph> = start("fand set: clamped ");
        put_fixed(&mut m, a.raw_rpm, 0, 1);
        put_text(&mut m, " → ");
        put_number(&mut m, target as u64);
        put_text(&mut m, " RPM (fan ");
        put_number(&mut m, a.fan_index as u64);
        put_text(&mut m, " envelope [");
        put_fixed(&mut m, fan.min_rpm, 0, 1);
        put_text(&mut m, ", ");
        put_fixed(&mut m, fan.max_rpm, 0, 1);
        put_text(&mut m, "])");
        warn(&mut lines, m);
    }
    let mut m: Vec<Glyph> = start("fand set: committing ");
    put_number(&mut m, target as u64);
    put_text(&mut m, " RPM on fan ");
    put_number(&mut m, a.fan_index as u64);
    put_text(&mut m, " (session ");
    put_text(&mut m, session);
    put_text(&mut m, ")");
    warn(&mut lines, m);
    lines
}

/// What the command comes to, and whether the fan is now held.
#[derive(Debug, Clone, PartialEq, Eq)]
pub struct SetOutcome {
    pub outcome: Outcome,
    pub hold: bool,
}

impl SetOutcome {
    pub open spec fn view(&self) -> ((u8, Seq<Said>), bool) {
        (self.outcome@, self.hold)
    }
}

/// The command, with a session in hand: find the fan, bring the request into
/// its envelope, and show the plan or carry it out.
pub open spec fn setting(
    a: CliSetArgs,
    s: Session,
    safe_min: Option<Flt>,
    version: Seq<char>,
    d: Dialog,
) -> (((u8, Seq<Said>), bool), Session, Dialog) {
    if s.fans.len() == 0 {
        (((3, no_fans()), false), s, d)
    } else if a.fan_index >= s.fans.len() {
        (((64, no_such_fan("fand set"@, a.fan_index, s.fans.len())), false), s, d)
    } else {
        let fan = s.fans[a.fan_index as int];
        let target = target_of(a.raw_rpm, fan, safe_min);
        let was_clamped = changed(a.raw_rpm, fan, safe_min);
        match a.mode {
            Mode::DryRun => (
                (
                    (
                        0,
                        if a.json_output {
                            seq![
                                out(
                                    json_plan(a, fan, target, was_clamped, version, s.id.text()),
                                ),
                            ]
                        } else {
                            plan(a, fan, target, was_clamped)
                        },
                    ),
                    false,
                ),
                s,
                d,
            ),
            Mode::Commit => {
                let head = announcement(a, fan, target, was_clamped, s.id.text());
                let (r, s1, d1) = committing(s, a.fan_index, target, d);
                match r {
                    Ok(_) => (
                        (
                            (
                                0,
                                head.push(
                                    err(
                                        plain(
                                            "fand set: commit succeeded — holding override. Press Ctrl-C to release."@,
                                        ),
                                    ),
                                ),
                            ),
                            true,
                        ),
                        s1,
                        d1,
                    ),
                    Err(e) => (
                        (
                            (
                                error_outcome(e).0,
                                head.push(
                                    err(plain("fand set: commit failed: "@) + plain(e.text())),
                                ) + error_outcome(e).1,
                            ),
                            false,
                        ),
                        s1,
                        d1,
                    ),
                }
            },
        }
    }
}

/// The command, with a session in hand. A fan that is held stays so until the
/// session is torn down.
pub fn run_with_code(
    a: &CliSetArgs,
    session: &mut WriteSession,
    safe_min: Option<Flt>,
    version: &str,
    io: &mut Exchange,
) -> (r: SetOutcome)
    requires
        old(session).wf(),
    ensures
        final(session).wf(),
        (r@, final(session)@, final(io)@) == setting(
            *a,
            old(session)@,
            safe_min,
            version@,
            old(io)@,
        ),
{
    let n: usize = session.fan_count();
    if n == 0 {
        let mut lines: Vec<Line> = silent();
        warn_text(&mut lines, "fand set: no fans on this machine — nothing to set");
        assert(said(lines@) =~= no_fans());
        return SetOutcome { outcome: Outcome { code: 3, lines }, hold: false };
    }
    if a.fan_index as usize >= n {
        let lines: Vec<Line> = say_no_such_fan("fand set", a.fan_index, n);
        return SetOutcome { outcome: Outcome { code: 64, lines }, hold: false };
    }
    let fan: Fan = session.fans()[a.fan_index as usize];
    let clamped: ClampedRpm = ClampedRpm::new(a.raw_rpm, fan.min_rpm, fan.max_rpm, safe_min);
    let was_clamped: bool = ClampedRpm::was_clamped(
        a.raw_rpm,
        fan.min_rpm,
        fan.max_rpm,
        safe_min,
    );
    let id: String = session.session_id().as_str();
    match a.mode {
        Mode::DryRun => {
            if a.json_output {
                let mut lines: Vec<Line> = silent();
                let m: Vec<Glyph> = print_dry_run_json(
                    a,
                    &fan,
                    clamped,
                    was_clamped,
                    version,
                    id.as_str(),
                );
                let ghost t = shown(m@);
                say(&mut lines, m);
                assert(said(lines@) =~= seq![out(t)]);
                SetOutcome { outcome: Outcome { code: 0, lines }, hold: false }
            } else {
                let lines: Vec<Line> = print_dry_run_human(a, &fan, clamped, was_clamped);
                SetOutcome { outcome: Outcome { code: 0, lines }, hold: false }
            }
        },
        Mode::Commit => {
            let mut lines: Vec<Line> = announce(a, &fan, clamped.value(), was_clamped, id.as_str());
            match session.commit_set_fan(a.fan_index, clamped, io) {
                Ok(_) => {
                    warn_text(
                        &mut lines,
                        "fand set: commit succeeded — holding override. Press Ctrl-C to release.",
                    );
                    SetOutcome { outcome: Outcome { code: 0, lines }, hold: true }
                },
                Err(e) => {
                    let mut m: Vec<Glyph> = start("fand set: commit failed: ");
                    put_error(&mut m, &e);
                    warn(&mut lines, m);
                    let o: Outcome = code_from_smc_error(&e);
                    let code: u8 = o.code;
                    say_all(&mut lines, o.lines);
                    SetOutcome { outcome: Outcome { code, lines }, hold: false }
                },
            }
        },
    }
}

/// How often the heart beats while a fan is held, in milliseconds.
pub const HOLD_BEAT_MS: u64 = 500;

} // verus!
