//! The command `selftest`: does forcing the minimum change the speed of a fan?

use super::debug_write::{parse_unsigned, unsigned_number};
use super::parse::{fan_index, parse_fan_index};
use super::say::{
    err, out, put_error, said, say, say_all, say_text, silent, start, warn, warn_text, Line,
    Outcome, Said,
};
use super::set::{
    args_agree, joined, no_such_fan, plural, plural_text, say_no_such_fan,
};
use crate::flt::Flt;
use crate::glyph::{
    fixed, plain, put_fixed, put_number, put_text, shown, Glyph, Mark,
};
use crate::smc::error::SmcError;
use crate::smc::exchange::Exchange;
use crate::smc::selftest::{
    asked_for, SelftestFanReport, SelftestReport, SelftestResult, DEFAULT_ITERATIONS,
    DELTA_THRESHOLD_BITS, SAMPLES_PER_HOLD,
};
use crate::smc::write_session::{tested, Session, WriteSession};
use crate::text::{decimal, same_text, texts};
use vstd::prelude::*;

verus! {

/// The arguments.
#[derive(Debug, Clone, Copy, PartialEq, Eq)]
pub struct CliSelftestArgs {
    pub target_fan: Option<u8>,
    pub iterations: u8,
    pub json_output: bool,
}

/// The arguments from the `i`-th on, behind those that were read before.
pub open spec fn selftest_args(args: Seq<Seq<char>>, i: int, p: CliSelftestArgs) -> Result<
    CliSelftestArgs,
    Seq<char>,
>
    decreases args.len() - i,
{
    if i >= args.len() {
        Ok(p)
    } else if args[i] == "--fan"@ {
        if i + 1 >= args.len() {
            Err("--fan requires a value"@)
        } else {
            match fan_index(args[i + 1]) {
                Ok(n) => selftest_args(args, i + 2, CliSelftestArgs { target_fan: Some(n), ..p }),
                Err(e) => Err("--fan: "@ + e.words()),
            }
        }
    } else if args[i] == "--iterations"@ {
        if i + 1 >= args.len() {
            Err("--iterations requires a value"@)
        } else {
            match unsigned_number(args[i + 1], 255) {
                Ok(n) => if 1 <= n <= 100 {
                    selftest_args(args, i + 2, CliSelftestArgs { iterations: n as u8, ..p })
                } else {
                    Err("--iterations must be in range 1..=100"@)
                },
                Err(_) => Err("--iterations must be an integer 1..=100"@),
            }
        }
    } else if args[i] == "--json"@ {
        selftest_args(args, i + 1, CliSelftestArgs { json_output: true, ..p })
    } else if args[i] == "--help"@ || args[i] == "-h"@ {
        Err("see usage below"@)
    } else {
        Err("unknown flag: "@ + args[i])
    }
}

/// What holds without arguments.
pub open spec fn default_args() -> CliSelftestArgs {
    CliSelftestArgs { target_fan: None, iterations: DEFAULT_ITERATIONS, json_output: false }
}

/// Reads the arguments.
pub fn parse_args(args: &Vec<String>) -> (r: Result<CliSelftestArgs, String>)
    ensures
        args_agree(r, selftest_args(texts(args@), 0, default_args())),
{
    let ghost words = texts(args@);
    let mut target_fan: Option<u8> = None;
    let mut iterations: u8 = DEFAULT_ITERATIONS;
    let mut json_output: bool = false;
    let mut i: usize = 0;
    let len: usize = args.len();
    while i < len
        invariant
            i <= len,
            len == args@.len(),
            words == texts(args@),
            selftest_args(words, 0, default_args()) == selftest_args(
                words,
                i as int,
                CliSelftestArgs { target_fan, iterations, json_output },
            ),
        decreases len - i,
    {
        let arg: &str = args[i].as_str();
        assert(words[i as int] == arg@);
        if same_text(arg, "--fan") {
            if i + 1 >= len {
                return Err("--fan requires a value".to_owned());
            }
            i = i + 1;
            let v: &str = args[i].as_str();
            assert(words[i as int] == v@);
            match parse_fan_index(v) {
                Ok(n) => {
                    target_fan = Some(n);
                },
                Err(e) => {
                    return Err(joined("--fan: ", e.message()));
                },
            }
        } else if same_text(arg, "--iterations") {
            if i + 1 >= len {
                return Err("--iterations requires a value".to_owned());
            }
            i = i + 1;
            let v: &str = args[i].as_str();
            assert(words[i as int] == v@);
            match parse_unsigned(v, 255) {
                Ok(n) => {
                    if n < 1 || n > 100 {
                        return Err("--iterations must be in range 1..=100".to_owned());
                    }
                    iterations = n as u8;
                },
                Err(_) => {
                    return Err("--iterations must be an integer 1..=100".to_owned());
                },
            }
        } else if same_text(arg, "--json") {
            json_output = true;
        } else if same_text(arg, "--help") || same_text(arg, "-h") {
            return Err("see usage below".to_owned());
        } else {
            return Err(joined("unknown flag: ", arg));
        }
        i = i + 1;
    }
    Ok(CliSelftestArgs { target_fan, iterations, json_output })
}

/// What is said of arguments that cannot be used.
pub open spec fn usage_lines(why: Seq<char>) -> Seq<Said> {
    seq![
        err(plain("fand selftest: "@) + plain(why)),
        err(plain("usage: fand selftest [--fan N] [--iterations N (1..=100)] [--json]"@)),
    ]
}

/// What is said of arguments that cannot be used.
pub fn usage(why: &str) -> (r: Outcome)
    ensures
        r@ == (64u8, usage_lines(why@)),
{
    let mut lines: Vec<Line> = silent();
    let mut m: Vec<Glyph> = start("fand selftest: ");
    put_text(&mut m, why);
    warn(&mut lines, m);
    warn_text(&mut lines, "usage: fand selftest [--fan N] [--iterations N (1..=100)] [--json]");
    assert(said(lines@) =~= usage_lines(why@));
    Outcome { code: 64, lines }
}

/// What an error of the SMC comes to.
pub open spec fn error_outcome(e: SmcError) -> (u8, Seq<Said>) {
    let line = err(plain("fand selftest: "@) + plain(e.text()));
    match e {
        SmcError::ConflictDetected { .. } => (5, seq![line]),
        SmcError::OpenFailed(_) | SmcError::ServiceNotFound => (
            2,
            seq![line, err(plain("  hint: run as root (sudo fand selftest ...)"@))],
        ),
        SmcError::WatchdogFired { .. } => (4, seq![line]),
        _ => (1, seq![line]),
    }
}

/// What an error of the SMC comes to.
pub fn code_from_smc_error(e: &SmcError) -> (r: Outcome)
    ensures
        r@ == error_outcome(*e),
{
    let mut lines: Vec<Line> = silent();
    let mut m: Vec<Glyph> = start("fand selftest: ");
    put_error(&mut m, e);
    warn(&mut lines, m);
    let code: u8 = match e {
        SmcError::ConflictDetected { .. } => 5,
        SmcError::OpenFailed(_) | SmcError::ServiceNotFound => {
            warn_text(&mut lines, "  hint: run as root (sudo fand selftest ...)");
            2
        },
        SmcError::WatchdogFired { .. } => 4,
        _ => 1,
    };
    assert(said(lines@) =~= error_outcome(*e).1);
    Outcome { code, lines }
}

/// A verdict in words.
pub open spec fn verdict_words(result: SelftestResult) -> Seq<char> {
    match result {
        SelftestResult::Pass => "PASS"@,
        SelftestResult::Inconclusive =>
            "INCONCLUSIVE — observed delta too small to verify the write path"@,
        SelftestResult::Fail => "FAIL — round-trip mismatch detected"@,
        SelftestResult::WatchdogTimeout => "WATCHDOG TIMEOUT"@,
        SelftestResult::ConflictDetected => "CONFLICT"@,
    }
}

/// A verdict in words.
pub fn print_result_label(result: SelftestResult) -> (r: &'static str)
    ensures
        r@ == verdict_words(result),
{
    match result {
        SelftestResult::Pass => "PASS",
        SelftestResult::Inconclusive =>
            "INCONCLUSIVE — observed delta too small to verify the write path",
        SelftestResult::Fail => "FAIL — round-trip mismatch detected",
        SelftestResult::WatchdogTimeout => "WATCHDOG TIMEOUT",
        SelftestResult::ConflictDetected => "CONFLICT",
    }
}

/// The ending of a count of mismatches.
pub open spec fn mismatch_ending(n: u64) -> Seq<char> {
    if n == 1 {
        ""@
    } else {
        "es"@
    }
}

/// The mark of a difference.
pub open spec fn delta_marker(delta: Flt) -> Seq<char> {
    if (Flt { bits: DELTA_THRESHOLD_BITS }).at_most(delta) {
        "✓"@
    } else {
        "✗"@
    }
}

/// The report on a fan.
pub open spec fn fan_lines(f: SelftestFanReport) -> Seq<Said> {
    seq![
        out(plain("fan "@) + plain(decimal(f.fan_index as nat)) + plain(":"@)),
        out(
            plain("  iterations:        "@) + plain(decimal(f.iterations_completed as nat)) + plain(
                " / "@,
            ) + plain(decimal(f.iterations_requested as nat)),
        ),
        out(
            plain("  round trips:       "@) + plain(decimal(f.round_trip_count as nat)) + plain(
                " ("@,
            ) + plain(decimal(f.mismatch_count as nat)) + plain(" mismatch"@) + plain(
                mismatch_ending(f.mismatch_count),
            ) + plain(")"@),
        ),
        out(
            plain("  median @ min:      "@) + fixed(f.median_actual_at_min, 0, 1) + plain(
                " RPM  (target: F0md=1, ≈ Mn)"@,
            ),
        ),
        out(
            plain("  median @ auto:     "@) + fixed(f.median_actual_at_auto, 0, 1) + plain(
                " RPM  (target: F0md=0, system controlled)"@,
            ),
        ),
        out(
            plain("  delta:             "@) + fixed(f.delta_rpm, 0, 1) + plain(" RPM  "@) + plain(
                delta_marker(f.delta_rpm),
            ) + plain("  (>= 500 required)"@),
        ),
        out(plain("  result:            "@) + plain(verdict_words(f.result))),
        out(plain(""@)),
    ]
}

/// The report on fans, behind some lines.
pub open spec fn fans_lines(head: Seq<Said>, fans: Seq<SelftestFanReport>) -> Seq<Said>
    decreases fans.len(),
{
    if fans.len() == 0 {
        head
    } else {
        fans_lines(head, fans.drop_last()) + fan_lines(fans.last())
    }
}

/// The head of the report.
pub open spec fn report_head(r: SelftestReport) -> Seq<Said> {
    seq![
        out(plain(""@)),
        out(
            plain("fand selftest — wall-clock "@) + plain(decimal(r.wall_clock_ms as nat)) + plain(
                " ms"@,
            ),
        ),
        out(plain(""@)),
    ]
}

/// The end of the report.
pub open spec fn report_end(r: SelftestReport) -> Seq<Said> {
    seq![
        out(plain("summary:"@)),
        out(plain("  fans tested:       "@) + plain(decimal(r.per_fan@.len()))),
        out(plain("  total iterations:  "@) + plain(decimal(r.total_iterations as nat))),
        out(plain("  round trips:       "@) + plain(decimal(r.total_round_trips as nat))),
        out(plain("  mismatches:        "@) + plain(decimal(r.total_mismatches as nat))),
        out(
            plain("  wall clock:        "@) + plain(decimal(r.wall_clock_ms as nat)) + plain(
                " ms"@,
            ),
        ),
        out(plain("  result:            "@) + plain(verdict_words(r.overall_result))),
        out(plain(""@)),
    ]
}

/// The report.
pub open spec fn report_lines(r: SelftestReport) -> Seq<Said> {
    fans_lines(report_head(r), r.per_fan@) + report_end(r)
}

/// The report on a fan.
pub fn print_human_fan(f: &SelftestFanReport) -> (lines: Vec<Line>)
    ensures
        said(lines@) == fan_lines(*f),
{
    let mut lines: Vec<Line> = silent();
    let mut a: Vec<Glyph> = start("fan ");
    put_number(&mut a, f.fan_index as u64);
    put_text(&mut a, ":");
    say(&mut lines, a);
    let mut b: Vec<Glyph> = start("  iterations:        ");
    put_number(&mut b, f.iterations_completed as u64);
    put_text(&mut b, " / ");
    put_number(&mut b, f.iterations_requested as u64);
    say(&mut lines, b);
    let mut c: Vec<Glyph> = start("  round trips:       ");
    put_number(&mut c, f.round_trip_count);
    put_text(&mut c, " (");
    put_number(&mut c, f.mismatch_count);
    put_text(&mut c, " mismatch");
    let ending: &'static str = if f.mismatch_count == 1 {
        ""
    } else {
        "es"
    };
    put_text(&mut c, ending);
    put_text(&mut c, ")");
    say(&mut lines, c);
    let mut d: Vec<Glyph> = start("  median @ min:      ");
    put_fixed(&mut d, f.median_actual_at_min, 0, 1);
    put_text(&mut d, " RPM  (target: F0md=1, ≈ Mn)");
    say(&mut lines, d);
    let mut e: Vec<Glyph> = start("  median @ auto:     ");
    put_fixed(&mut e, f.median_actual_at_auto, 0, 1);
    put_text(&mut e, " RPM  (target: F0md=0, system controlled)");
    say(&mut lines, e);
    let threshold: Flt = Flt { bits: DELTA_THRESHOLD_BITS };
    let marker: &'static str = if threshold.le(f.delta_rpm) {
        "✓"
    } else {
        "✗"
    };
    let mut g: Vec<Glyph> = start("  delta:             ");
    put_fixed(&mut g, f.delta_rpm, 0, 1);
    put_text(&mut g, " RPM  ");
    put_text(&mut g, marker);
    put_text(&mut g, "  (>= 500 required)");
    say(&mut lines, g);
    let mut h: Vec<Glyph> = start("  result:            ");
    put_text(&mut h, print_result_label(f.result));
    say(&mut lines, h);
    say_text(&mut lines, "");
    assert(said(lines@) =~= fan_lines(*f));
    lines
}

fn say_count(lines: &mut Vec<Line>, before: &str, n: u64, after: &str)
    ensures
        said(final(lines)@) == said(old(lines)@).push(
            out(plain(before@) + plain(decimal(n as nat)) + plain(after@)),
        ),
{
    let mut m: Vec<Glyph> = start(before);
    put_number(&mut m, n);
    put_text(&mut m, after);
    say(lines, m);
}

fn say_number(lines: &mut Vec<Line>, before: &str, n: u64)
    ensures
        said(final(lines)@) == said(old(lines)@).push(
            out(plain(before@) + plain(decimal(n as nat))),
        ),
{
    let mut m: Vec<Glyph> = start(before);
    put_number(&mut m, n);
    say(lines, m);
}

/// The report.
pub fn print_human(r: &SelftestReport) -> (lines: Vec<Line>)
    ensures
        said(lines@) == report_lines(*r),
{
    let mut lines: Vec<Line> = silent();
    say_text(&mut lines, "");
    say_count(&mut lines, "fand selftest — wall-clock ", r.wall_clock_ms, " ms");
    say_text(&mut lines, "");
    assert(said(lines@) =~= report_head(*r));
    let mut i: usize = 0;
    assert(r.per_fan@.take(0) =~= Seq::<SelftestFanReport>::empty());
    while i < r.per_fan.len()
        invariant
            i <= r.per_fan@.len(),
            said(lines@) == fans_lines(report_head(*r), r.per_fan@.take(i as int)),
        decreases r.per_fan@.len() - i,
    {
        say_all(&mut lines, print_human_fan(&r.per_fan[i]));
        assert(r.per_fan@.take(i + 1).drop_last() =~= r.per_fan@.take(i as int));
        i = i + 1;
    }
    assert(r.per_fan@.take(r.per_fan@.len() as int) =~= r.per_fan@);
    let mut end: Vec<Line> = silent();
    say_text(&mut end, "summary:");
    say_number(&mut end, "  fans tested:       ", r.per_fan.len() as u64);
    say_number(&mut end, "  total iterations:  ", r.total_iterations as u64);
    say_number(&mut end, "  round trips:       ", r.total_round_trips);
    say_number(&mut end, "  mismatches:        ", r.total_mismatches);
    say_count(&mut end, "  wall clock:        ", r.wall_clock_ms, " ms");
    let mut m: Vec<Glyph> = start("  result:            ");
    put_text(&mut m, print_result_label(r.overall_result));
    say(&mut end, m);
    say_text(&mut end, "");
    assert(said(end@) =~= report_end(*r));
    say_all(&mut lines, end);
    lines
}

/// The head of the report, for machines.
pub open spec fn json_head(version: Seq<char>, session: Seq<char>) -> Seq<Mark> {
    plain(
        "{\"$schema\":\"https://pedrohbalbino.github.io/fand/schemas/selftest-v1.json\",\"$id\":\"urn:fand:session:"@,
    ) + plain(session) + plain(
        "\",\"schema_version\":1,\"subcommand\":\"selftest\",\"fand_version\":\""@,
    ) + plain(version) + plain("\",\"session_id\":\""@) + plain(session) + plain(
        "\",\"per_fan\":["@,
    )
}

/// The report on a fan, for machines.
pub open spec fn json_fan(f: SelftestFanReport) -> Seq<Mark> {
    plain("{\"fan_index\":"@) + plain(decimal(f.fan_index as nat)) + plain(
        ",\"iterations_completed\":"@,
    ) + plain(decimal(f.iterations_completed as nat)) + plain(",\"iterations_requested\":"@)
        + plain(decimal(f.iterations_requested as nat)) + plain(",\"round_trip_count\":"@) + plain(
        decimal(f.round_trip_count as nat),
    ) + plain(",\"mismatch_count\":"@) + plain(decimal(f.mismatch_count as nat)) + plain(
        ",\"median_actual_at_min\":"@,
    ) + fixed(f.median_actual_at_min, 0, 1) + plain(",\"median_actual_at_auto\":"@) + fixed(
        f.median_actual_at_auto,
        0,
        1,
    ) + plain(",\"delta_rpm\":"@) + fixed(f.delta_rpm, 0, 1) + plain(",\"result\":\""@) + plain(
        f.result.word(),
    ) + plain("\"}"@)
}

/// The report up to some fans, for machines.
pub open spec fn json_fans(head: Seq<Mark>, fans: Seq<SelftestFanReport>) -> Seq<Mark>
    decreases fans.len(),
{
    if fans.len() == 0 {
        head
    } else if fans.len() == 1 {
        json_fans(head, fans.drop_last()) + json_fan(fans.last())
    } else {
        json_fans(head, fans.drop_last()) + plain(","@) + json_fan(fans.last())
    }
}

/// The end of the report, for machines.
pub open spec fn json_end(r: SelftestReport) -> Seq<Mark> {
    plain("],\"summary\":{\"fans_tested\":"@) + plain(decimal(r.per_fan@.len())) + plain(
        ",\"total_iterations\":"@,
    ) + plain(decimal(r.total_iterations as nat)) + plain(",\"total_round_trips\":"@) + plain(
        decimal(r.total_round_trips as nat),
    ) + plain(",\"total_mismatches\":"@) + plain(decimal(r.total_mismatches as nat)) + plain(
        ",\"wall_clock_ms\":"@,
    ) + plain(decimal(r.wall_clock_ms as nat)) + plain(",\"overall_result\":\""@) + plain(
        r.overall_result.word(),
    ) + plain("\"}}"@)
}

/// The report, for machines.
pub open spec fn json_report(version: Seq<char>, session: Seq<char>, r: SelftestReport) -> Seq<
    Mark,
> {
    json_fans(json_head(version, session), r.per_fan@) + json_end(r)
}

/// The report where there is nothing to test, for machines.
pub open spec fn json_nothing(version: Seq<char>, session: Seq<char>) -> Seq<Mark> {
    json_head(version, session) + plain(
        "],\"summary\":{\"fans_tested\":0,\"total_iterations\":0,\"total_round_trips\":0,\"total_mismatches\":0,\"wall_clock_ms\":0,\"overall_result\":\"pass\"}}"@,
    )
}

fn begin_json(version: &str, session: &str) -> (m: Vec<Glyph>)
    ensures
        shown(m@) == json_head(version@, session@),
{
    let mut m: Vec<Glyph> = start(
        "{\"$schema\":\"https://pedrohbalbino.github.io/fand/schemas/selftest-v1.json\",\"$id\":\"urn:fand:session:",
    );
    put_text(&mut m, session);
    put_text(
        &mut m,
        "\",\"schema_version\":1,\"subcommand\":\"selftest\",\"fand_version\":\"",
    );
    put_text(&mut m, version);
    put_text(&mut m, "\",\"session_id\":\"");
    put_text(&mut m, session);
    put_text(&mut m, "\",\"per_fan\":[");
    m
}

fn put_json_fan(m: &mut Vec<Glyph>, f: &SelftestFanReport)
    ensures
        shown(final(m)@) == shown(old(m)@) + json_fan(*f),
{
    let ghost before = shown(m@);
    put_text(m, "{\"fan_index\":");
    put_number(m, f.fan_index as u64);
    put_text(m, ",\"iterations_completed\":");
    put_number(m, f.iterations_completed as u64);
    put_text(m, ",\"iterations_requested\":");
    put_number(m, f.iterations_requested as u64);
    put_text(m, ",\"round_trip_count\":");
    put_number(m, f.round_trip_count);
    put_text(m, ",\"mismatch_count\":");
    put_number(m, f.mismatch_count);
    put_text(m, ",\"median_actual_at_min\":");
    put_fixed(m, f.median_actual_at_min, 0, 1);
    put_text(m, ",\"median_actual_at_auto\":");
    put_fixed(m, f.median_actual_at_auto, 0, 1);
    put_text(m, ",\"delta_rpm\":");
    put_fixed(m, f.delta_rpm, 0, 1);
    put_text(m, ",\"result\":\"");
    put_text(m, f.result.as_str());
    put_text(m, "\"}");
    assert(shown(m@) =~= before + json_fan(*f));
}

fn put_json_end(m: &mut Vec<Glyph>, r: &SelftestReport)
    ensures
        shown(final(m)@) == shown(old(m)@) + json_end(*r),
{
    let ghost before = shown(m@);
    put_text(m, "],\"summary\":{\"fans_tested\":");
    put_number(m, r.per_fan.len() as u64);
    put_text(m, ",\"total_iterations\":");
    put_number(m, r.total_iterations as u64);
    put_text(m, ",\"total_round_trips\":");
    put_number(m, r.total_round_trips);
    put_text(m, ",\"total_mismatches\":");
    put_number(m, r.total_mismatches);
    put_text(m, ",\"wall_clock_ms\":");
    put_number(m, r.wall_clock_ms);
    put_text(m, ",\"overall_result\":\"");
    put_text(m, r.overall_result.as_str());
    put_text(m, "\"}}");
    assert(shown(m@) =~= before + json_end(*r));
}

/// The report, for machines.
pub fn print_json(version: &str, session: &str, r: &SelftestReport) -> (m: Vec<Glyph>)
    ensures
        shown(m@) == json_report(version@, session@, *r),
{
    let mut m: Vec<Glyph> = begin_json(version, session);
    let ghost head = json_head(version@, session@);
    let mut i: usize = 0;
    assert(r.per_fan@.take(0) =~= Seq::<SelftestFanReport>::empty());
    while i < r.per_fan.len()
        invariant
            i <= r.per_fan@.len(),
            shown(m@) == json_fans(head, r.per_fan@.take(i as int)),
        decreases r.per_fan@.len() - i,
    {
        if i > 0 {
            put_text(&mut m, ",");
        }
        put_json_fan(&mut m, &r.per_fan[i]);
        assert(r.per_fan@.take(i + 1).drop_last() =~= r.per_fan@.take(i as int));
        i = i + 1;
    }
    assert(r.per_fan@.take(r.per_fan@.len() as int) =~= r.per_fan@);
    put_json_end(&mut m, r);
    m
}

/// The report where there is nothing to test, for machines.
pub fn print_vacuous_pass_json(version: &str, session: &str) -> (m: Vec<Glyph>)
    ensures
        shown(m@) == json_nothing(version@, session@),
{
    let mut m: Vec<Glyph> = begin_json(version, session);
    put_text(
        &mut m,
        "],\"summary\":{\"fans_tested\":0,\"total_iterations\":0,\"total_round_trips\":0,\"total_mismatches\":0,\"wall_clock_ms\":0,\"overall_result\":\"pass\"}}",
    );
    m
}

/// What is said where there is nothing to test.
pub open spec fn nothing_lines(json: bool, version: Seq<char>, session: Seq<char>) -> Seq<Said> {
    if json {
        seq![out(json_nothing(version, session))]
    } else {
        seq![out(plain("fand selftest: no fans on this machine — vacuous pass"@))]
    }
}

/// What is said before the test.
pub open spec fn announcement(iterations: u8, fans: nat, session: Seq<char>) -> Seq<Said> {
    seq![
        err(
            plain("fand selftest: starting "@) + plain(decimal(iterations as nat)) + plain(
                " iterations × "@,
            ) + plain(decimal(fans)) + plain(" fan"@) + plain(plural(fans)) + plain(" (session "@)
                + plain(session) + plain(")"@),
        ),
        err(
            plain("fand selftest: budget ~"@) + plain(
                decimal(((iterations * 2 * SAMPLES_PER_HOLD * 200) / 1000) as nat),
            ) + plain(" s per fan ("@) + plain(decimal((iterations * 2) as nat)) + plain(
                " hold windows × "@,
            ) + plain(decimal(SAMPLES_PER_HOLD as nat)) + plain(" samples × 200 ms)"@),
        ),
    ]
}

fn announce(iterations: u8, fans: usize, session: &str) -> (lines: Vec<Line>)
    ensures
        said(lines@) == announcement(iterations, fans as nat, session@),
{
    let mut lines: Vec<Line> = silent();
    let mut m: Vec<Glyph> = start("fand selftest: starting ");
    put_number(&mut m, iterations as u64);
    put_text(&mut m, " iterations × ");
    put_number(&mut m, fans as u64);
    put_text(&mut m, " fan");
    put_text(&mut m, plural_text(fans));
    put_text(&mut m, " (session ");
    put_text(&mut m, session);
    put_text(&mut m, ")");
    warn(&mut lines, m);
    let samples: u64 = SAMPLES_PER_HOLD as u64;
    let windows: u64 = iterations as u64 * 2;
    let mut b: Vec<Glyph> = start("fand selftest: budget ~");
    put_number(&mut b, (windows * samples * 200) / 1000);
    put_text(&mut b, " s per fan (");
    put_number(&mut b, windows);
    put_text(&mut b, " hold windows × ");
    put_number(&mut b, samples);
    put_text(&mut b, " samples × 200 ms)");
    warn(&mut lines, b);
    assert(said(lines@) =~= announcement(iterations, fans as nat, session@));
    lines
}

/// The exit code of a verdict.
pub open spec fn verdict_code(result: SelftestResult) -> u8 {
    match result {
        SelftestResult::Pass => 0,
        SelftestResult::Inconclusive => 3,
        SelftestResult::Fail => 1,
        SelftestResult::WatchdogTimeout => 4,
        SelftestResult::ConflictDetected => 5,
    }
}

/// What the result of a test comes to.
pub open spec fn result_outcome(
    a: CliSelftestArgs,
    fans: nat,
    session: Seq<char>,
    version: Seq<char>,
    result: Result<SelftestReport, SmcError>,
) -> (u8, Seq<Said>) {
    let head = announcement(a.iterations, fans, session);
    match result {
        Ok(report) => (
            verdict_code(report.overall_result),
            if a.json_output {
                head.push(out(json_report(version, session, report)))
            } else {
                head + report_lines(report)
            },
        ),
        Err(e) => (
            error_outcome(e).0,
            head.push(err(plain("fand selftest: aborted: "@) + plain(e.text()))) + error_outcome(
                e,
            ).1,
        ),
    }
}

/// What the command comes to, and what it reports of the test if there was one.
#[derive(Debug, PartialEq, Eq)]
pub struct SelftestOutcome {
    pub outcome: Outcome,
    pub result: Option<Result<SelftestReport, SmcError>>,
}

/// What is reported of a test: the fan that was asked for, or all of them.
pub open spec fn reported(
    full: Result<SelftestReport, SmcError>,
    target: Option<u8>,
    r: Result<SelftestReport, SmcError>,
) -> bool {
    match full {
        Ok(x) => {
            &&& r is Ok
            &&& r->Ok_0.consistent()
            &&& r->Ok_0.per_fan@ == asked_for(x.per_fan@, target)
            &&& r->Ok_0.wall_clock_ms == x.wall_clock_ms
        },
        Err(e) => r == Err::<SelftestReport, SmcError>(e),
    }
}

/// Why there is nothing to test, if there is nothing.
pub open spec fn no_test(a: CliSelftestArgs, s: Session, version: Seq<char>) -> Option<
    (u8, Seq<Said>),
> {
    if s.fans.len() == 0 {
        Some((0, nothing_lines(a.json_output, version, s.id.text())))
    } else if a.target_fan is Some && a.target_fan->0 >= s.fans.len() {
        Some((64, no_such_fan("fand selftest"@, a.target_fan->0, s.fans.len())))
    } else {
        None
    }
}

fn conclude(
    a: &CliSelftestArgs,
    fans: usize,
    session: &str,
    version: &str,
    full: Result<SelftestReport, SmcError>,
) -> (r: SelftestOutcome)
    requires
        full is Ok ==> full->Ok_0.consistent(),
    ensures
        r.result is Some,
        reported(full, a.target_fan, r.result->0),
        r.outcome@ == result_outcome(*a, fans as nat, session@, version@, r.result->0),
{
    let mut lines: Vec<Line> = announce(a.iterations, fans, session);
    match full {
        Ok(all) => {
            let report: SelftestReport = all.narrowed(a.target_fan);
            if a.json_output {
                say(&mut lines, print_json(version, session, &report));
            } else {
                say_all(&mut lines, print_human(&report));
            }
            let code: u8 = report.overall_result.exit_code() as u8;
            SelftestOutcome { outcome: Outcome { code, lines }, result: Some(Ok(report)) }
        },
        Err(e) => {
            let mut m: Vec<Glyph> = start("fand selftest: aborted: ");
            put_error(&mut m, &e);
            warn(&mut lines, m);
            let o: Outcome = code_from_smc_error(&e);
            let code: u8 = o.code;
            say_all(&mut lines, o.lines);
            SelftestOutcome { outcome: Outcome { code, lines }, result: Some(Err(e)) }
        },
    }
}

/// The command, with a session in hand. Every fan is tested; the report, and
/// with it the verdict, is on the fan that was asked for, or on all of them.
pub fn run_with_code(
    a: &CliSelftestArgs,
    session: &mut WriteSession,
    version: &str,
    io: &mut Exchange,
) -> (r: SelftestOutcome)
    requires
        old(session).wf(),
    ensures
        final(session).wf(),
        match no_test(*a, old(session)@, version@) {
            Some(o) => {
                &&& r.outcome@ == o
                &&& r.result is None
                &&& final(session)@ == old(session)@
                &&& final(io)@ == old(io)@
            },
            None => {
                &&& r.result is Some
                &&& exists|full: Result<SelftestReport, SmcError>|
                    {
                        &&& #[trigger] tested(
                            old(session)@,
                            a.iterations,
                            old(io)@,
                            full,
                            final(session)@,
                            final(io)@,
                        )
                        &&& reported(full, a.target_fan, r.result->0)
                    }
                &&& r.outcome@ == result_outcome(
                    *a,
                    old(session)@.fans.len(),
                    old(session)@.id.text(),
                    version@,
                    r.result->0,
                )
            },
        },
{
    let ghost s0 = session@;
    let n: usize = session.fan_count();
    let id: String = session.session_id().as_str();
    if n == 0 {
        let mut lines: Vec<Line> = silent();
        if a.json_output {
            say(&mut lines, print_vacuous_pass_json(version, id.as_str()));
        } else {
            say_text(&mut lines, "fand selftest: no fans on this machine — vacuous pass");
        }
        assert(said(lines@) =~= nothing_lines(a.json_output, version@, s0.id.text()));
        return SelftestOutcome { outcome: Outcome { code: 0, lines }, result: None };
    }
    if let Some(idx) = a.target_fan {
        if idx as usize >= n {
            let lines: Vec<Line> = say_no_such_fan("fand selftest", idx, n);
            return SelftestOutcome { outcome: Outcome { code: 64, lines }, result: None };
        }
    }
    let full: Result<SelftestReport, SmcError> = session.run_selftest(a.iterations, io);
    assert(tested(s0, a.iterations, old(io)@, full, session@, io@));
    conclude(a, n, id.as_str(), version, full)
}

} // verus!
