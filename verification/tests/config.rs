use fand::config::load::{
    check_file, load_config, ContentError, FileFacts, OpenError, MAX_CONFIG_SIZE,
};
use fand::config::reload::{reload_config, ReloadError};
use fand::config::schema::{
    default_config_version, default_fusion, default_hysteresis_down, default_hysteresis_up,
    default_log_level, default_lp_attenuation, default_panic_hold, default_panic_temp,
    default_poll_interval, default_ramp_down, default_smoothing_alpha, default_socket_mode,
    default_socket_path, unknown_sensor_text, Config, FanBinding, SensorRef, ValidationError,
};
use fand::config::validate::{validate, validate_fan, validate_or_exit};
use fand::flt::Flt;
use fand::glyph::Glyph;

fn flt(x: f32) -> Flt {
    Flt { bits: x.to_bits() }
}

fn shown(m: &[Glyph]) -> String {
    let mut s = String::new();
    for g in m {
        match g {
            Glyph::Text(t) => s.push_str(t),
            Glyph::Num { value, width, decimals } => {
                let v = f32::from_bits(value.bits);
                let w = usize::from(*width);
                match decimals {
                    Some(d) => s.push_str(&format!("{v:w$.d$}", d = usize::from(*d))),
                    None => s.push_str(&format!("{v}")),
                }
            }
            Glyph::Signed { value, width, decimals } => {
                let v = f32::from_bits(value.bits);
                let w = usize::from(*width);
                s.push_str(&format!("{v:+w$.d$}", d = usize::from(*decimals)));
            }
        }
    }
    s
}

fn minimal_config() -> Config {
    Config {
        config_version: 1,
        poll_interval_ms: 500,
        log_level: "info".into(),
        control_socket_path: "/var/run/fand.sock".into(),
        control_socket_mode: 0o600,
        low_power_attenuation_default: flt(1.0),
        fan: vec![FanBinding {
            index: 0,
            sensors: vec![SensorRef::Name("Tf04".into())],
            fusion: "max".into(),
            curve: vec![(flt(50.0), 2317), (flt(80.0), 6550)],
            hysteresis_up: flt(1.0),
            hysteresis_down: flt(2.0),
            smoothing_alpha: flt(0.25),
            ramp_down_rpm_per_s: 600,
            panic_temp_c: flt(95.0),
            panic_hold_s: 10,
            min_start_rpm: None,
            low_power_attenuation: None,
            ac: None,
            battery: None,
        }],
    }
}

fn number(v: &toml::Value) -> f32 {
    match v {
        toml::Value::Float(x) => *x as f32,
        toml::Value::Integer(n) => *n as f32,
        other => panic!("no number: {other}"),
    }
}

/// The configuration that a text describes, as far as these tests need it.
fn parse(content: &str) -> Result<Config, ContentError> {
    let table: toml::Table = match toml::from_str(content) {
        Ok(t) => t,
        Err(e) => {
            return Err(ContentError::NotParsed {
                at: e.span().map_or(0, |s| s.start),
                message: e.to_string(),
            })
        }
    };
    let whole = |key: &str, default: u32| {
        table.get(key).and_then(toml::Value::as_integer).map_or(default, |n| n as u32)
    };
    let mut fans = Vec::new();
    for f in table["fan"].as_array().unwrap() {
        fans.push(FanBinding {
            index: f["index"].as_integer().unwrap() as u8,
            sensors: f["sensors"]
                .as_array()
                .unwrap()
                .iter()
                .map(|s| SensorRef::Name(s.as_str().unwrap().into()))
                .collect(),
            fusion: default_fusion(),
            curve: f["curve"]
                .as_array()
                .unwrap()
                .iter()
                .map(|p| (flt(number(&p[0])), p[1].as_integer().unwrap() as u32))
                .collect(),
            hysteresis_up: default_hysteresis_up(),
            hysteresis_down: default_hysteresis_down(),
            smoothing_alpha: default_smoothing_alpha(),
            ramp_down_rpm_per_s: default_ramp_down(),
            panic_temp_c: default_panic_temp(),
            panic_hold_s: default_panic_hold(),
            min_start_rpm: None,
            low_power_attenuation: None,
            ac: None,
            battery: None,
        });
    }
    Ok(Config {
        config_version: whole("config_version", default_config_version()),
        poll_interval_ms: whole("poll_interval_ms", default_poll_interval()),
        log_level: default_log_level(),
        control_socket_path: default_socket_path(),
        control_socket_mode: default_socket_mode(),
        low_power_attenuation_default: default_lp_attenuation(),
        fan: fans,
    })
}

fn private_file(content: &str) -> Result<FileFacts, OpenError> {
    Ok(FileFacts { owner: 0, mode: 0o100600, size: content.len() as u64, resolved: None })
}

fn load(content: &str) -> Result<Config, ValidationError> {
    load_config("/etc/fand.toml", private_file(content), parse(content))
}

fn reload(content: &str) -> Result<Config, ReloadError> {
    reload_config("/etc/fand.toml", private_file(content), parse(content))
}

fn missing() -> Result<FileFacts, OpenError> {
    Err(OpenError::NotOpened("No such file or directory (os error 2)".into()))
}

const VALID: &str = r#"
config_version = 1
poll_interval_ms = 500
[[fan]]
index = 0
sensors = ["Tf04"]
curve = [[50.0, 2317], [80.0, 6550]]
"#;

#[test]
fn load_valid_config() {
    let config = load(VALID);
    assert!(config.is_ok(), "expected ok, got {config:?}");
    let c = config.unwrap();
    assert_eq!(c.config_version, 1);
    assert_eq!(c.fan.len(), 1);
}

#[test]
fn reject_missing_file() {
    let result = load_config("/nonexistent/fand.toml", missing(), parse(VALID));
    assert!(result.is_err());
    let e = result.unwrap_err();
    assert_eq!(
        e,
        ValidationError::MissingRequired {
            field: "config file at /nonexistent/fand.toml: No such file or directory (os error 2)"
                .into(),
            fan_index: None,
        }
    );
}

#[test]
fn reject_bad_config_version() {
    let result = load(
        r#"
config_version = 99
[[fan]]
index = 0
sensors = ["Tf04"]
curve = [[50.0, 2317], [80.0, 6550]]
"#,
    );
    assert!(result.is_err());
}

#[test]
fn reload_valid_config_succeeds() {
    let result = reload(VALID);
    assert!(result.is_ok());
}

#[test]
fn reload_invalid_toml_fails() {
    let result = reload("this is not valid TOML {{{{");
    assert!(result.is_err());
}

#[test]
fn reload_bad_validation_fails() {
    let result = reload(
        r#"
config_version = 1
poll_interval_ms = 500
[[fan]]
index = 0
sensors = ["Tf04"]
curve = [[80.0, 6550]]
"#,
    );
    assert!(matches!(result, Err(ReloadError::Validation(_))));
}

#[test]
fn reload_missing_file_fails() {
    let result = reload_config("/no/such/file.toml", missing(), parse(VALID));
    assert!(matches!(result, Err(ReloadError::Load(_))));
}

#[test]
fn valid_config_passes() {
    assert!(validate(&minimal_config()).is_empty());
    assert!(validate_or_exit(&minimal_config()).is_ok());
}

#[test]
fn reject_empty_fans() {
    let mut c = minimal_config();
    c.fan.clear();
    let errs = validate(&c);
    assert!(!errs.is_empty());
}

#[test]
fn reject_duplicate_fan_index() {
    let mut c = minimal_config();
    let mut f2 = c.fan[0].clone();
    f2.index = 0;
    c.fan.push(f2);
    let errs = validate(&c);
    assert!(errs.iter().any(|e| matches!(e, ValidationError::DuplicateFanIndex { .. })));
}

#[test]
fn reject_single_curve_point() {
    let mut c = minimal_config();
    c.fan[0].curve = vec![(flt(50.0), 2317)];
    let errs = validate(&c);
    assert!(errs.iter().any(|e| matches!(e, ValidationError::CurveTooShort { .. })));
}

#[test]
fn a_short_curve_hides_nothing_else() {
    let mut c = minimal_config();
    c.fan[0].curve = vec![(flt(50.0), 2317)];
    c.fan[0].hysteresis_down = flt(20.0);
    let errs = validate(&c);
    assert_eq!(errs.len(), 2);
    assert!(matches!(errs[0], ValidationError::CurveTooShort { fan_index: 0, count: 1 }));
    assert!(matches!(errs[1], ValidationError::HysteresisInverted { fan_index: 0, .. }));
}

#[test]
fn reject_non_monotone_temps() {
    let mut c = minimal_config();
    c.fan[0].curve = vec![(flt(80.0), 6550), (flt(50.0), 2317)];
    let errs = validate(&c);
    assert!(errs.iter().any(|e| matches!(e, ValidationError::NonMonotoneTemp { .. })));
}

#[test]
fn reject_poll_interval_too_low() {
    let mut c = minimal_config();
    c.poll_interval_ms = 50;
    let errs = validate(&c);
    assert!(!errs.is_empty());
}

#[test]
fn reject_poll_interval_too_high() {
    let mut c = minimal_config();
    c.poll_interval_ms = 10000;
    let errs = validate(&c);
    assert!(!errs.is_empty());
}

#[test]
fn reject_bad_log_level() {
    let mut c = minimal_config();
    c.log_level = "verbose".into();
    let errs = validate(&c);
    assert!(!errs.is_empty());
}

#[test]
fn reject_empty_sensors() {
    let mut c = minimal_config();
    c.fan[0].sensors.clear();
    let errs = validate(&c);
    assert!(errs.iter().any(|e| matches!(e, ValidationError::EmptySensors { .. })));
}

#[test]
fn reject_bad_fourcc_length() {
    let mut c = minimal_config();
    c.fan[0].sensors = vec![SensorRef::Name("TooLong".into())];
    let errs = validate(&c);
    assert!(errs.iter().any(|e| matches!(e, ValidationError::UnknownSensor { .. })));
}

#[test]
fn accept_boundary_poll_interval() {
    let mut c = minimal_config();
    c.poll_interval_ms = 100;
    assert!(validate(&c).is_empty());
    c.poll_interval_ms = 5000;
    assert!(validate(&c).is_empty());
}

#[test]
fn files_that_others_can_write_are_refused() {
    for mode in [0o100620, 0o100602, 0o100666] {
        let file = FileFacts { owner: 501, mode, size: 10, resolved: None };
        assert_eq!(
            check_file("/etc/fand.toml", &file),
            Err(ValidationError::UnsafePermissions {
                path: "/etc/fand.toml".into(),
                owner: 501,
                mode: mode & 0o7777,
            })
        );
    }
    let file = FileFacts { owner: 501, mode: 0o100644, size: 10, resolved: None };
    assert_eq!(check_file("/etc/fand.toml", &file), Ok(()));
}

#[test]
fn large_files_are_refused() {
    let mut file =
        FileFacts { owner: 0, mode: 0o100600, size: MAX_CONFIG_SIZE, resolved: None };
    assert_eq!(check_file("/etc/fand.toml", &file), Ok(()));
    file.size += 1;
    assert_eq!(
        check_file("/etc/fand.toml", &file),
        Err(ValidationError::FileTooLarge { size_bytes: 65537 })
    );
}

#[test]
fn files_in_shared_places_are_refused() {
    for at in ["/tmp/x", "/var/tmp/x", "/private/tmp/x", "/private/var/tmp/x"] {
        let file =
            FileFacts { owner: 0, mode: 0o100600, size: 1, resolved: Some(at.to_string()) };
        assert_eq!(
            check_file("/etc/fand.toml", &file),
            Err(ValidationError::UnsafePermissions { path: at.into(), owner: 0, mode: 0o600 })
        );
    }
    let file =
        FileFacts { owner: 0, mode: 0o100600, size: 1, resolved: Some("/nix/store/x".into()) };
    assert_eq!(check_file("/etc/fand.toml", &file), Ok(()));
}

#[test]
fn every_step_of_a_load_has_its_error() {
    let path = "/etc/fand.toml";
    assert_eq!(
        load_config(path, Err(OpenError::NoStatus), parse(VALID)),
        Err(ValidationError::MissingRequired {
            field: "fstat failed on /etc/fand.toml".into(),
            fan_index: None
        })
    );
    assert_eq!(
        load_config(path, private_file(""), Err(ContentError::NotRead("bad".into()))),
        Err(ValidationError::MissingRequired {
            field: "read failed on /etc/fand.toml: bad".into(),
            fan_index: None
        })
    );
    assert_eq!(
        load_config(
            path,
            private_file(""),
            Err(ContentError::NotParsed { at: 7, message: "bad".into() })
        ),
        Err(ValidationError::TomlSyntax { line: 7, col: 0, message: "bad".into() })
    );
    let mut c = minimal_config();
    c.config_version = 2;
    assert_eq!(
        load_config(path, private_file(""), Ok(c)),
        Err(ValidationError::MissingRequired {
            field: "config_version must be 1, got 2".into(),
            fan_index: None
        })
    );
}

#[test]
fn a_refused_file_hides_its_content() {
    let open = FileFacts { owner: 0, mode: 0o100666, size: 1, resolved: None };
    assert!(load_config("/etc/fand.toml", Ok(open), Ok(minimal_config())).is_err());
}

fn errors_of(change: fn(&mut FanBinding)) -> Vec<ValidationError> {
    let mut fan = minimal_config().fan[0].clone();
    change(&mut fan);
    let mut errors = Vec::new();
    validate_fan(&fan, &mut errors);
    errors
}

#[test]
fn every_setting_of_a_fan_is_checked() {
    assert_eq!(
        errors_of(|f| f.curve = vec![(flt(50.0), 1), (flt(50.0), 2)]),
        vec![ValidationError::NonMonotoneTemp {
            fan_index: 0,
            bp: 1,
            prev_temp: flt(50.0),
            temp: flt(50.0)
        }]
    );
    assert_eq!(
        errors_of(|f| f.curve[0].0 = flt(-1.0)),
        vec![ValidationError::NonMonotoneTemp {
            fan_index: 0,
            bp: 0,
            prev_temp: flt(0.0),
            temp: flt(-1.0)
        }]
    );
    assert_eq!(
        errors_of(|f| f.curve[1].0 = flt(f32::INFINITY)),
        vec![ValidationError::NonMonotoneTemp {
            fan_index: 0,
            bp: 1,
            prev_temp: flt(0.0),
            temp: flt(f32::INFINITY)
        }]
    );
    for down in [-0.5, 10.5] {
        let mut c = minimal_config();
        c.fan[0].hysteresis_down = flt(down);
        assert_eq!(
            validate(&c),
            vec![ValidationError::HysteresisInverted {
                fan_index: 0,
                up: flt(1.0),
                down: flt(down)
            }]
        );
    }
    assert!(errors_of(|f| f.hysteresis_down = flt(10.0)).is_empty());
    assert!(errors_of(|f| f.sensors = vec![SensorRef::Smc { smc: "T 0!".into() }]).is_empty());
    assert_eq!(
        errors_of(|f| f.sensors = vec![SensorRef::Smc { smc: "Té0".into() }]),
        vec![ValidationError::UnknownSensor {
            sensor: "Té0".into(),
            available: vec!["must be exactly 4 printable ASCII bytes".into()]
        }]
    );
}

#[test]
fn all_errors_are_reported_in_order() {
    let mut c = minimal_config();
    c.poll_interval_ms = 99;
    c.log_level = "loud".into();
    let mut second = c.fan[0].clone();
    second.sensors.clear();
    c.fan.push(second);
    assert_eq!(
        validate(&c),
        vec![
            ValidationError::MissingRequired {
                field: "poll_interval_ms must be in [100, 5000], got 99".into(),
                fan_index: None
            },
            ValidationError::MissingRequired {
                field: "log_level must be error|warn|info|debug, got 'loud'".into(),
                fan_index: None
            },
            ValidationError::DuplicateFanIndex { index: 0 },
            ValidationError::EmptySensors { fan_index: 0 },
        ]
    );
    assert_eq!(validate_or_exit(&c).unwrap_err().len(), 4);
}

#[test]
fn errors_are_told_in_words() {
    let cases = vec![
        (
            ValidationError::TomlSyntax { line: 3, col: 4, message: "eh".into() },
            "line 3:4: TOML syntax error: eh",
        ),
        (
            ValidationError::MissingRequired { field: "x".into(), fan_index: Some(2) },
            "fan[2]: missing required field 'x'",
        ),
        (
            ValidationError::MissingRequired { field: "x".into(), fan_index: None },
            "missing required field 'x'",
        ),
        (ValidationError::DuplicateFanIndex { index: 7 }, "duplicate fan index 7"),
        (
            ValidationError::UnknownFanIndex { index: 7, available: vec![0, 1] },
            "fan index 7 not found; available: [0, 1]",
        ),
        (ValidationError::EmptySensors { fan_index: 1 }, "fan[1]: sensors list is empty"),
        (
            ValidationError::UnknownSensor {
                sensor: "Tx\"9".into(),
                available: vec!["a".into(), "b\\c\n\u{7f}é".into()],
            },
            "sensor 'Tx\"9' not found; available: [\"a\", \"b\\\\c\\n\\u{7f}é\"]",
        ),
        (
            ValidationError::CurveTooShort { fan_index: 0, count: 1 },
            "fan[0]: curve has 1 breakpoints (minimum 2)",
        ),
        (
            ValidationError::CurveTooLong { fan_index: 0, count: 101 },
            "fan[0]: curve has 101 breakpoints (maximum 100)",
        ),
        (
            ValidationError::NonMonotoneTemp {
                fan_index: 0,
                bp: 1,
                prev_temp: flt(50.5),
                temp: flt(40.0),
            },
            "fan[0]: breakpoint 1 temp (40°C) ≤ previous (50.5°C)",
        ),
        (
            ValidationError::NonMonotoneRpm { fan_index: 0, bp: 1, prev_rpm: 5, rpm: 4 },
            "fan[0]: breakpoint 1 RPM (4) < previous (5)",
        ),
        (
            ValidationError::RpmOutOfRange { fan_index: 0, bp: 1, rpm: 9000, max: flt(6550.0) },
            "fan[0]: breakpoint 1 RPM (9000) exceeds max (6550)",
        ),
        (
            ValidationError::HysteresisInverted { fan_index: 0, up: flt(2.0), down: flt(1.5) },
            "fan[0]: hysteresis_down (1.5) must be ≥ hysteresis_up (2)",
        ),
        (
            ValidationError::SmoothingAlphaRange { fan_index: 0, alpha: flt(1.25) },
            "fan[0]: smoothing_alpha (1.25) must be in (0.0, 1.0]",
        ),
        (
            ValidationError::PanicTempTooLow {
                fan_index: 0,
                panic: flt(70.0),
                last_curve_temp: flt(85.0),
            },
            "fan[0]: panic_temp_c (70) must be > last curve temp (85)",
        ),
        (
            ValidationError::LowPowerRange { value: flt(0.1) },
            "low_power_attenuation (0.1) must be in [0.3, 1.0]",
        ),
        (
            ValidationError::InvalidSocketMode { mode: 0o777 },
            "control_socket_mode (0o777) must be 0o600 or 0o660",
        ),
        (
            ValidationError::FileTooLarge { size_bytes: 70000 },
            "config file too large (70000 bytes, max 65536)",
        ),
        (
            ValidationError::NestingTooDeep { depth: 33 },
            "TOML nesting too deep (33 levels, max 32)",
        ),
        (
            ValidationError::UnknownField { key: "k".into(), context: "[[fan]]".into() },
            "unknown field 'k' in [[fan]]",
        ),
        (
            ValidationError::UnsafePermissions { path: "/p".into(), owner: 501, mode: 0o666 },
            "/p: unsafe permissions (owner uid 501, mode 0o666)",
        ),
    ];
    for (e, text) in cases {
        assert_eq!(shown(&e.message()), text);
    }
    let e = ReloadError::Load(ValidationError::FileTooLarge { size_bytes: 70000 });
    assert_eq!(
        shown(&e.message()),
        "config load failed: config file too large (70000 bytes, max 65536)"
    );
}

#[test]
fn sensors_that_are_known_are_listed() {
    assert_eq!(unknown_sensor_text("Tx", &vec![]), "sensor 'Tx' not found; available: []");
    assert_eq!(
        unknown_sensor_text("Tx", &vec!["\"a\"".into(), "\"b\"".into()]),
        "sensor 'Tx' not found; available: [\"a\", \"b\"]"
    );
}
