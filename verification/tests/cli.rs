use fand::cli::curve_cmd::{self, print_curve, select, CurveArgs};
use fand::cli::daemon::{
    acquired_text, after_tick, code_from_acquire_error, loop_text, overrun_text, starting_text,
    wake_text,
};
use fand::cli::debug_write::{parse_payload, parse_unsigned, split_value};
use fand::cli::force::{self, ForceArgs};
use fand::cli::help::{self, dispatch, Command};
use fand::cli::keys::{self, fourcc_to_string, json_escape, Mode};
use fand::cli::probe::{self, fourcc_str, ProbeArgs};
use fand::cli::run::{self, is_plausible, say_config_failure, sleep_time};
use fand::cli::say::{Line, Outcome};
use fand::cli::selftest;
use fand::config::reload::ReloadError;
use fand::config::schema::{FanBinding, SensorRef, ValidationError};
use fand::flt::Flt;
use fand::glyph::Glyph;
use fand::launchd::{stalled, timer_ns};
use fand::log::{site_hash, LogLevel, Logger};
use fand::smc::error::SmcError;

fn flt(x: f32) -> Flt {
    Flt { bits: x.to_bits() }
}

fn num(v: Flt) -> f32 {
    f32::from_bits(v.bits)
}

fn words(xs: &[&str]) -> Vec<String> {
    xs.iter().map(|x| x.to_string()).collect()
}

fn floats(xs: &[String]) -> Vec<Option<Flt>> {
    xs.iter().map(|x| x.parse::<f32>().ok().map(flt)).collect()
}

fn text(m: &[Glyph]) -> String {
    let mut s = String::new();
    for g in m {
        match g {
            Glyph::Text(t) => s.push_str(t),
            Glyph::Num { value, width, decimals } => {
                let (v, w) = (num(*value), usize::from(*width));
                match decimals {
                    Some(d) => s.push_str(&format!("{v:w$.d$}", d = usize::from(*d))),
                    None => s.push_str(&format!("{v}")),
                }
            }
            Glyph::Signed { value, width, decimals } => {
                let (v, w) = (num(*value), usize::from(*width));
                s.push_str(&format!("{v:>+w$.d$}", d = usize::from(*decimals)));
            }
        }
    }
    s
}

fn texts(lines: &[Line]) -> Vec<String> {
    lines.iter().map(|l| format!("{}{}", if l.err { "! " } else { "" }, text(&l.text))).collect()
}

fn told(o: &Outcome) -> (u8, Vec<String>) {
    (o.code, texts(&o.lines))
}

#[test]
fn commands_have_their_names() {
    for (name, command) in [
        ("run", Command::Run),
        ("status", Command::Status),
        ("show", Command::Show),
        ("set", Command::SetSpeed),
        ("selftest", Command::Selftest),
        ("curve", Command::Curve),
        ("keys", Command::Keys),
        ("validate", Command::Validate),
        ("reload", Command::Reload),
        ("version", Command::Version),
        ("--version", Command::Version),
        ("-V", Command::Version),
        ("probe", Command::Probe),
        ("force-rpm", Command::ForceRpm),
        ("--help", Command::Help),
        ("-h", Command::Help),
    ] {
        assert_eq!(dispatch(&words(&["fand", name])), Ok(command));
    }
    assert_eq!(dispatch(&words(&["fand"])), Ok(Command::Status));
    assert_eq!(
        told(&dispatch(&words(&["fand", "fly"])).unwrap_err()),
        (
            64,
            words(&[
                "! fand: unknown subcommand 'fly'",
                "! usage: fand [run|curve|status|show|set|keys|validate|reload|version]",
            ])
        )
    );
    let (code, lines) = told(&help::execute());
    assert_eq!((code, lines.len()), (0, 13));
    assert_eq!(lines[0], "! usage: fand [subcommand] [options]");
}

#[test]
fn run_reads_its_arguments() {
    let a = run::parse_args(&words(&["--config", "x.toml", "--once", "--json"])).unwrap();
    assert_eq!((a.config_path.as_str(), a.dry_run, a.once, a.json), ("x.toml", false, true, true));
    let a = run::parse_args(&words(&[])).unwrap();
    assert_eq!((a.config_path.as_str(), a.dry_run), ("/etc/fand.toml", false));
    assert_eq!(
        told(&run::parse_args(&words(&["--config"])).unwrap_err()),
        (64, words(&["! fand run: --config requires a path"]))
    );
    assert_eq!(
        told(&run::parse_args(&words(&["--what"])).unwrap_err()),
        (64, words(&["! fand run: unknown option '--what'"]))
    );
    assert_eq!(run::parse_args(&words(&["--dry-run", "-h"])).unwrap_err().code, 0);
}

#[test]
fn set_reads_its_arguments() {
    let a = fand::cli::set::parse_args(&words(&["--fan", "1", "--rpm", "2500.5", "--commit"]));
    let a = a.unwrap();
    assert_eq!((a.fan_index, num(a.raw_rpm), a.json_output), (1, 2500.5, false));
    for (args, why) in [
        (vec!["--rpm", "1", "--commit"], "--fan is required"),
        (vec!["--fan", "1", "--commit"], "--rpm is required"),
        (vec!["--fan", "1", "--rpm", "1"], "one of --dry-run or --commit is required"),
        (
            vec!["--fan", "1", "--rpm", "1", "--commit", "--dry-run"],
            "exactly one of --dry-run or --commit is required",
        ),
        (vec!["--fan"], "--fan requires a value"),
        (vec!["--fan", ""], "--fan: value is empty"),
        (vec!["--rpm", "-1"], "--rpm: leading '+' or '-' is not allowed"),
        (vec!["--help"], "see usage below"),
        (vec!["--loud"], "unknown flag: --loud"),
    ] {
        assert_eq!(fand::cli::set::parse_args(&words(&args)).unwrap_err(), why);
    }
    assert_eq!(fand::cli::set::usage("why").code, 64);
}

#[test]
fn selftest_reads_its_arguments() {
    let a = selftest::parse_args(&words(&["--fan", "0", "--iterations", "100", "--json"])).unwrap();
    assert_eq!((a.target_fan, a.iterations, a.json_output), (Some(0), 100, true));
    assert_eq!(selftest::parse_args(&words(&[])).unwrap().iterations, 5);
    for (n, why) in [
        ("0", "--iterations must be in range 1..=100"),
        ("101", "--iterations must be in range 1..=100"),
        ("256", "--iterations must be an integer 1..=100"),
        ("x", "--iterations must be an integer 1..=100"),
    ] {
        assert_eq!(selftest::parse_args(&words(&["--iterations", n])).unwrap_err(), why);
    }
}

#[test]
fn keys_reads_its_arguments() {
    assert_eq!(keys::parse_args(&words(&[])), Ok(Mode::Default));
    assert_eq!(keys::parse_args(&words(&["--json"])), Ok(Mode::Json));
    assert_eq!(keys::parse_args(&words(&["--all"])), Ok(Mode::AllFanKeys));
    assert_eq!(keys::parse_args(&words(&["--debug-open"])), Ok(Mode::DebugOpen));
    assert_eq!(keys::parse_args(&words(&["--read", "Tf04"])), Ok(Mode::Read("Tf04".into())));
    assert_eq!(
        keys::parse_args(&words(&["--write", "F0md", "u8:1"])),
        Ok(Mode::DebugWrite { fourcc: "F0md".into(), value: "u8:1".into() })
    );
    for (args, why) in [
        (vec!["--json", "--all"], "--all is mutually exclusive with other modes"),
        (vec!["--all", "--json"], "--json is mutually exclusive"),
        (vec!["--all", "--debug-open"], "--debug-open is mutually exclusive"),
        (vec!["--write"], "--write requires <fourcc> <type:value>"),
        (vec!["--write", "abc"], "--write fourcc must be 4 bytes, got 3"),
        (vec!["--write", "abcd"], "--write requires a type:value argument"),
        (vec!["what"], "unknown flag: what"),
    ] {
        assert_eq!(keys::parse_args(&words(&args)).unwrap_err(), why);
    }
    assert_eq!(keys::usage("why").code, 64);
}

#[test]
fn texts_are_escaped_for_json() {
    assert_eq!(json_escape("a\"b\\c\nd\u{1}é"), "a\\\"b\\\\c\\nd\\u0001é");
    assert_eq!(fourcc_to_string(0x7569_3820), "ui8?");
    assert_eq!(fourcc_str(0x7569_3820), "ui8 ");
}

#[test]
fn values_for_debugging_are_read() {
    assert_eq!(split_value("u8:1:2"), Some(("u8".into(), "1:2".into())));
    assert_eq!(split_value("u8"), None);
    let none: Result<Flt, String> = Err("invalid float literal".into());
    assert_eq!(parse_payload("u8:255", &none), Ok(vec![255]));
    assert_eq!(parse_payload("f32:1.5", &Ok(flt(1.5))), Ok(1.5f32.to_le_bytes().to_vec()));
    assert!(parse_payload("f32:x", &none).is_err());
    assert!(parse_payload("u8:256", &none).is_err());
    assert!(parse_payload("i99:1", &none).is_err());
    for s in ["0", "255", "+7", "007", "18446744073709551615"] {
        assert_eq!(parse_unsigned(s, u64::MAX).ok(), s.parse::<u64>().ok(), "{s}");
    }
    for s in ["", "+", "-1", "1 ", "18446744073709551616", "1_0", "٣"] {
        assert!(parse_unsigned(s, u64::MAX).is_err(), "{s}");
        let want = s.parse::<u64>().unwrap_err().to_string();
        assert_eq!(parse_unsigned(s, u64::MAX).unwrap_err().message(), want, "{s}");
    }
}

fn probe_args(xs: &[&str]) -> Result<ProbeArgs, Outcome> {
    let args = words(xs);
    probe::parse_args(&args, &floats(&args))
}

#[test]
fn probe_reads_its_arguments() {
    let a = probe_args(&[]).unwrap();
    assert_eq!((a.settle_secs, num(a.target_rpm), a.json, a.enumerate), (4, 0.0, false, false));
    let a = probe_args(&["--settle-secs", "99", "--target-rpm", "3000", "--json", "--enumerate"]);
    let a = a.unwrap();
    assert_eq!((a.settle_secs, num(a.target_rpm), a.json, a.enumerate), (30, 3000.0, true, true));
    assert_eq!(probe_args(&["--settle-secs", "0"]).unwrap().settle_secs, 1);
    assert_eq!(probe_args(&["--settle-secs", "x"]).unwrap().settle_secs, 4);
    assert_eq!(probe_args(&["--settle-secs"]).unwrap().settle_secs, 4);
    assert_eq!(num(probe_args(&["--target-rpm", "-5"]).unwrap().target_rpm), 0.0);
    assert_eq!(num(probe_args(&["--target-rpm", "inf"]).unwrap().target_rpm), 0.0);
    assert_eq!(probe_args(&["-h"]).unwrap_err().code, 0);
    assert_eq!(
        told(&probe_args(&["--what"]).unwrap_err()),
        (64, words(&["! fand probe: unknown flag '--what'"]))
    );
}

fn force_args(xs: &[&str]) -> Result<ForceArgs, Outcome> {
    let args = words(xs);
    force::parse_args(&args, &floats(&args))
}

#[test]
fn force_reads_its_arguments() {
    let a = force_args(&["3000", "--hold-secs", "9999", "--settle-secs", "7", "--json"]).unwrap();
    assert_eq!(
        a,
        ForceArgs { target: Some(flt(3000.0)), settle_secs: 7, hold_secs: 3600, json: true }
    );
    assert_eq!(force_args(&["3000", "--hold-secs"]).unwrap().hold_secs, 0);
    let (code, lines) = told(&force_args(&["--json"]).unwrap_err());
    assert_eq!((code, lines[0].as_str()), (64, "! fand force-rpm: target RPM required"));
    assert!(lines[1].starts_with("! usage: fand force-rpm <rpm>"));
    assert_eq!(
        told(&force_args(&["-1"]).unwrap_err()),
        (64, words(&["! fand force-rpm: target must be positive finite RPM"]))
    );
    assert_eq!(
        told(&force_args(&["fast"]).unwrap_err()),
        (64, words(&["! fand force-rpm: unknown flag 'fast'"]))
    );
    assert_eq!(force_args(&["--help"]).unwrap_err().code, 0);
}

fn fan(index: u8) -> FanBinding {
    FanBinding {
        index,
        sensors: vec![SensorRef::Name("Tf04".into()), SensorRef::Smc { smc: "Tf09".into() }],
        fusion: "max".into(),
        curve: vec![(flt(50.0), 2317), (flt(65.0), 3500), (flt(85.0), 6550)],
        hysteresis_up: flt(1.0),
        hysteresis_down: flt(2.0),
        smoothing_alpha: flt(0.25),
        ramp_down_rpm_per_s: 600,
        panic_temp_c: flt(95.0),
        panic_hold_s: 10,
        min_start_rpm: None,
        low_power_attenuation: None,
        ac: None,
        battery: None,
    }
}

#[test]
fn curve_reads_its_arguments() {
    let a = curve_cmd::parse_args(&words(&["--config", "x", "--fan", "2"]));
    assert_eq!(a, Ok(CurveArgs { config_path: "x".into(), fan: Some(2) }));
    for (args, code, why) in [
        (vec!["--config"], 64, "! fand curve: --config requires a path"),
        (vec!["--fan"], 64, "! fand curve: --fan requires an index"),
        (vec!["--fan", "x"], 64, "! fand curve: hexadecimal literals are not allowed"),
        (vec!["-h"], 0, "! usage: fand curve [--config PATH] [--fan N]"),
        (vec!["--loud"], 64, "! fand curve: unknown option '--loud'"),
    ] {
        let (c, lines) = told(&curve_cmd::parse_args(&words(&args)).unwrap_err());
        assert_eq!((c, lines), (code, words(&[why])));
    }
}

#[test]
fn curves_are_chosen_and_drawn() {
    let fans = vec![fan(0), fan(3)];
    assert_eq!(select(&fans, None), Ok((0, 2)));
    assert_eq!(select(&fans, Some(3)), Ok((1, 2)));
    assert_eq!(
        told(&select(&fans, Some(1)).unwrap_err()),
        (1, words(&["! fand curve: fan index 1 not found in config"]))
    );
    let sheet = print_curve(&fans[1]);
    assert_eq!(
        texts(&sheet.above),
        words(&["Fan 3 — sensors: Tf04, Tf09 — hysteresis: 1.0/2.0°C"])
    );
    let p = sheet.picture.unwrap();
    assert_eq!((num(p.t_min), num(p.t_max), num(p.rpm_top)), (45.0, 90.0, 6750.0));
    assert_eq!(p.line.len(), 101);
    assert_eq!((num(p.line[0].0), num(p.line[0].1)), (45.0, 2317.0));
    assert_eq!((num(p.line[100].0), num(p.line[100].1)), (90.0, 6550.0));
    assert_eq!(num(p.line[37].0).to_bits(), (45.0f32 + 45.0 * 37.0 / 100.0).to_bits());
    assert_eq!((num(p.knots[1].0), num(p.knots[1].1)), (65.0, 3500.0));
    assert_eq!(
        texts(&sheet.below),
        words(&[
            "  Curve points:",
            "      50.0°C →  2317 RPM",
            "      65.0°C →  3500 RPM",
            "      85.0°C →  6550 RPM",
            "  Hysteresis band: cooling requires 2.0°C additional drop before RPM decreases.",
            "  (no SMC access — live sensor marker unavailable)",
            "",
        ])
    );
    let mut short = fan(0);
    short.curve.truncate(1);
    let sheet = print_curve(&short);
    assert_eq!(sheet.picture, None);
    assert_eq!(texts(&sheet.above)[1], "  (curve has fewer than 2 points — cannot plot)");
    assert!(sheet.below.is_empty());
}

#[test]
fn bad_configurations_are_told() {
    let e = ReloadError::Load(ValidationError::FileTooLarge { size_bytes: 70000 });
    assert_eq!(
        told(&say_config_failure("fand curve: ", &e)),
        (1, words(&["! fand curve: config file too large (70000 bytes, max 65536)"]))
    );
    let e = ReloadError::Validation(vec![
        ValidationError::DuplicateFanIndex { index: 1 },
        ValidationError::EmptySensors { fan_index: 2 },
    ]);
    assert_eq!(
        told(&say_config_failure("fand run: ", &e)),
        (
            1,
            words(&["! fand run: duplicate fan index 1", "! fand run: fan[2]: sensors list is empty"])
        )
    );
}

#[test]
fn ticks_are_spaced() {
    assert_eq!(sleep_time(500, 100_000_000), 400_000_000);
    assert_eq!(sleep_time(500, 495_000_000), 10_000_000);
    assert_eq!(sleep_time(500, 900_000_000), 10_000_000);
    let a = after_tick(500, 100_000_000);
    assert_eq!((a.woke, a.overrun, a.sleep_ns), (false, false, 400_000_000));
    let a = after_tick(500, 600_000_000);
    assert_eq!((a.woke, a.overrun), (false, true));
    let a = after_tick(500, 1_000_000_001);
    assert_eq!((a.woke, a.overrun), (true, true));
    assert!(is_plausible(flt(150.0)) && is_plausible(flt(0.0)));
    assert!(!is_plausible(flt(150.5)) && !is_plausible(flt(-0.5)) && !is_plausible(flt(f32::NAN)));
}

#[test]
fn the_daemon_tells_what_it_does() {
    assert_eq!(starting_text("0.1.0", " (dry run)", "S"), "fand 0.1.0 (dry run) starting (session S)");
    assert_eq!(acquired_text(2), "WriteSession acquired, 2 fans enumerated");
    assert_eq!(loop_text(500, 1), "tick loop starting, poll_interval=500ms, 1 fans");
    assert_eq!(
        wake_text(9, "3s"),
        "tick 9: detected wake from sleep (elapsed 3s), performing bumpless transfer"
    );
    assert_eq!(overrun_text(9, "5ms"), "tick 9: overrun by 5ms");
    let (code, lines) = told(&code_from_acquire_error(&SmcError::ServiceNotFound));
    assert_eq!((code, lines.len()), (2, 2));
    assert_eq!(code_from_acquire_error(&SmcError::OpenTimeout).code, 1);
    let busy = SmcError::ConflictDetected { holder_pid: 1, lockfile_path: "/l".into() };
    assert_eq!(code_from_acquire_error(&busy).code, 5);
}

#[test]
fn stalls_are_noticed() {
    assert!(!stalled(0, 10, 5));
    assert!(!stalled(5, 10, 5));
    assert!(stalled(5, 11, 5));
    assert!(!stalled(11, 5, 1));
    assert_eq!(timer_ns(500), 500_000_000);
}

#[test]
fn logs_are_limited() {
    let mut l = Logger::new();
    let site = site_hash("src/x.rs", 12);
    for _ in 0..3 {
        assert_eq!(
            l.rate_limited_emit(site, LogLevel::Warn, "hot", "1.5"),
            Some("[1.5s] WARN hot".to_string())
        );
    }
    assert_eq!(l.rate_limited_emit(site, LogLevel::Warn, "hot", "1.5"), None);
    assert_eq!(l.rate_limited_emit(site, LogLevel::Warn, "hot", "1.5"), None);
    assert!(l.rate_limited_emit(site + 1, LogLevel::Warn, "hot", "1.5").is_some());
    l.refill_buckets();
    assert_eq!(
        l.rate_limited_emit(site, LogLevel::Warn, "hot", "2.0"),
        Some("[2.0s] WARN hot (suppressed 2 similar)".to_string())
    );
    assert_eq!(l.current_level(), LogLevel::Info);
    assert_eq!(l.emit_raw(LogLevel::Debug, "x", "0"), None);
    l.set_level(LogLevel::from_str_lossy("debug"));
    assert!(l.is_enabled(LogLevel::Debug));
    assert_eq!(l.emit_raw(LogLevel::Debug, "x", "0"), Some("[0s] DEBUG x".to_string()));
    assert_eq!(LogLevel::from_str_lossy("nonsense"), LogLevel::Info);
    let mut h: usize = 5381;
    for b in "src/x.rs".bytes() {
        h = h.wrapping_mul(33).wrapping_add(b as usize);
    }
    assert_eq!(site, h + 12);
}
