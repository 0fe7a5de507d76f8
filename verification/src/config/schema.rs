//! The shape of a configuration, its defaults, and what can be wrong with it.

use crate::flt::Flt;
use crate::glyph::{exact, plain, put_exact, put_number, put_text, shown, Glyph, Mark};
use crate::text::{decimal, digits, push_digits, texts};
use vstd::prelude::*;

verus! {

/// A breakpoint of a curve: degrees Celsius, and revolutions per minute.
pub type Breakpoint = (Flt, u32);

/// A configuration.
#[derive(Debug, Clone, PartialEq, Eq)]
pub struct Config {
    pub config_version: u32,
    pub poll_interval_ms: u32,
    pub log_level: String,
    pub control_socket_path: String,
    pub control_socket_mode: u16,
    pub low_power_attenuation_default: Flt,
    pub fan: Vec<FanBinding>,
}

/// The settings of one fan.
#[derive(Debug, Clone, PartialEq, Eq)]
pub struct FanBinding {
    pub index: u8,
    pub sensors: Vec<SensorRef>,
    pub fusion: String,
    pub curve: Vec<Breakpoint>,
    pub hysteresis_up: Flt,
    pub hysteresis_down: Flt,
    pub smoothing_alpha: Flt,
    pub ramp_down_rpm_per_s: u32,
    pub panic_temp_c: Flt,
    pub panic_hold_s: u32,
    pub min_start_rpm: Option<u32>,
    pub low_power_attenuation: Option<Flt>,
    pub ac: Option<PowerSourceOverride>,
    pub battery: Option<PowerSourceOverride>,
}

/// A sensor, by its key.
#[derive(Debug, Clone, PartialEq, Eq)]
pub enum SensorRef {
    Name(String),
    Smc { smc: String },
}

impl SensorRef {
    /// The key of the sensor.
    pub open spec fn key(self) -> Seq<char> {
        match self {
            SensorRef::Name(s) => s@,
            SensorRef::Smc { smc } => smc@,
        }
    }

    /// The key of the sensor.
    pub fn as_str(&self) -> (r: &str)
        ensures
            r@ == self.key(),
    {
        match self {
            SensorRef::Name(s) => s.as_str(),
            SensorRef::Smc { smc } => smc.as_str(),
        }
    }
}

/// Settings that differ by power source.
#[derive(Debug, Clone, PartialEq, Eq)]
pub struct PowerSourceOverride {
    pub curve: Option<Vec<Breakpoint>>,
    pub hysteresis_up: Option<Flt>,
    pub hysteresis_down: Option<Flt>,
    pub smoothing_alpha: Option<Flt>,
    pub ramp_down_rpm_per_s: Option<u32>,
    pub panic_temp_c: Option<Flt>,
    pub panic_hold_s: Option<u32>,
}

pub fn default_config_version() -> (r: u32)
    ensures
        r == 1,
{
    1
}

pub fn default_poll_interval() -> (r: u32)
    ensures
        r == 500,
{
    500
}

pub fn default_log_level() -> (r: String)
    ensures
        r@ == "info"@,
{
    "info".to_owned()
}

pub fn default_socket_path() -> (r: String)
    ensures
        r@ == "/var/run/fand.sock"@,
{
    "/var/run/fand.sock".to_owned()
}

pub fn default_socket_mode() -> (r: u16)
    ensures
        r == 0o600,
{
    0o600
}

/// 1.0
pub fn default_lp_attenuation() -> (r: Flt)
    ensures
        r.bits == 0x3F80_0000,
{
    Flt { bits: 0x3F80_0000 }
}

pub fn default_fusion() -> (r: String)
    ensures
        r@ == "max"@,
{
    "max".to_owned()
}

/// 1.0
pub fn default_hysteresis_up() -> (r: Flt)
    ensures
        r.bits == 0x3F80_0000,
{
    Flt { bits: 0x3F80_0000 }
}

/// 3.0
pub fn default_hysteresis_down() -> (r: Flt)
    ensures
        r.bits == 0x4040_0000,
{
    Flt { bits: 0x4040_0000 }
}

/// 0.25
pub fn default_smoothing_alpha() -> (r: Flt)
    ensures
        r.bits == 0x3E80_0000,
{
    Flt { bits: 0x3E80_0000 }
}

pub fn default_ramp_down() -> (r: u32)
    ensures
        r == 600,
{
    600
}

/// 95.0
pub fn default_panic_temp() -> (r: Flt)
    ensures
        r.bits == 0x42BE_0000,
{
    Flt { bits: 0x42BE_0000 }
}

pub fn default_panic_hold() -> (r: u32)
    ensures
        r == 10,
{
    10
}

/// What is wrong with a configuration.
#[derive(Debug, Clone, PartialEq, Eq)]
#[allow(inconsistent_fields)]
pub enum ValidationError {
    TomlSyntax { line: usize, col: usize, message: String },
    MissingRequired { field: String, fan_index: Option<u8> },
    DuplicateFanIndex { index: u8 },
    UnknownFanIndex { index: u8, available: Vec<u8> },
    EmptySensors { fan_index: u8 },
    UnknownSensor { sensor: String, available: Vec<String> },
    CurveTooShort { fan_index: u8, count: usize },
    CurveTooLong { fan_index: u8, count: usize },
    NonMonotoneTemp { fan_index: u8, bp: usize, prev_temp: Flt, temp: Flt },
    NonMonotoneRpm { fan_index: u8, bp: usize, prev_rpm: u32, rpm: u32 },
    RpmOutOfRange { fan_index: u8, bp: usize, rpm: u32, max: Flt },
    HysteresisInverted { fan_index: u8, up: Flt, down: Flt },
    SmoothingAlphaRange { fan_index: u8, alpha: Flt },
    PanicTempTooLow { fan_index: u8, panic: Flt, last_curve_temp: Flt },
    LowPowerRange { value: Flt },
    InvalidSocketMode { mode: u16 },
    FileTooLarge { size_bytes: u64 },
    NestingTooDeep { depth: usize },
    UnknownField { key: String, context: String },
    UnsafePermissions { path: String, owner: u32, mode: u32 },
}

/// What is wrong with a configuration, with texts as sequences.
#[allow(inconsistent_fields)]
pub enum Violation {
    TomlSyntax { line: nat, col: nat, message: Seq<char> },
    MissingRequired { field: Seq<char>, fan_index: Option<u8> },
    DuplicateFanIndex { index: u8 },
    UnknownFanIndex { index: u8, available: Seq<u8> },
    EmptySensors { fan_index: u8 },
    UnknownSensor { sensor: Seq<char>, available: Seq<Seq<char>> },
    CurveTooShort { fan_index: u8, count: nat },
    CurveTooLong { fan_index: u8, count: nat },
    NonMonotoneTemp { fan_index: u8, bp: nat, prev_temp: Flt, temp: Flt },
    NonMonotoneRpm { fan_index: u8, bp: nat, prev_rpm: u32, rpm: u32 },
    RpmOutOfRange { fan_index: u8, bp: nat, rpm: u32, max: Flt },
    HysteresisInverted { fan_index: u8, up: Flt, down: Flt },
    SmoothingAlphaRange { fan_index: u8, alpha: Flt },
    PanicTempTooLow { fan_index: u8, panic: Flt, last_curve_temp: Flt },
    LowPowerRange { value: Flt },
    InvalidSocketMode { mode: u16 },
    FileTooLarge { size_bytes: u64 },
    NestingTooDeep { depth: nat },
    UnknownField { key: Seq<char>, context: Seq<char> },
    UnsafePermissions { path: Seq<char>, owner: u32, mode: u32 },
}

/// How a text looks in quotation marks, with escapes.
pub uninterp spec fn quoted(s: Seq<char>) -> Seq<char>;

/// The `Debug` form of `str`: the text in double quotes, with special
/// characters escaped. The contract gives the result a name and says nothing
/// more of it.
#[verifier::external_body]
fn quote(s: &str) -> (r: String)
    ensures
        r@ == quoted(s@),
{
    format!("{s:?}")
}

/// Numbers in a list, with commas between them.
pub open spec fn number_items(v: Seq<u8>) -> Seq<char>
    decreases v.len(),
{
    if v.len() == 0 {
        Seq::empty()
    } else {
        number_items(v.drop_last()) + (if v.len() > 1 {
            ", "@
        } else {
            Seq::empty()
        }) + decimal(v.last() as nat)
    }
}

/// Texts in a list, with commas between them.
pub open spec fn text_items(v: Seq<Seq<char>>) -> Seq<char>
    decreases v.len(),
{
    if v.len() == 0 {
        Seq::empty()
    } else {
        text_items(v.drop_last()) + (if v.len() > 1 {
            ", "@
        } else {
            Seq::empty()
        }) + v.last()
    }
}

/// Texts, each in quotation marks.
pub open spec fn all_quoted(v: Seq<Seq<char>>) -> Seq<Seq<char>> {
    Seq::new(v.len(), |i: int| quoted(v[i]))
}

/// What is said of a sensor that is not known, with the names of those that are
/// as they are shown.
pub open spec fn unknown_sensor(sensor: Seq<char>, names: Seq<Seq<char>>) -> Seq<char> {
    "sensor '"@ + sensor + "' not found; available: ["@ + text_items(names) + "]"@
}

impl Violation {
    /// The violation in words.
    pub open spec fn words(self) -> Seq<Mark> {
        match self {
            Violation::TomlSyntax { line, col, message } => plain("line "@) + plain(decimal(line))
                + plain(":"@) + plain(decimal(col)) + plain(": TOML syntax error: "@) + plain(
                message,
            ),
            Violation::MissingRequired { field, fan_index } => match fan_index {
                Some(i) => plain("fan["@) + plain(decimal(i as nat)) + plain(
                    "]: missing required field '"@,
                ) + plain(field) + plain("'"@),
                None => plain("missing required field '"@) + plain(field) + plain("'"@),
            },
            Violation::DuplicateFanIndex { index } => plain("duplicate fan index "@) + plain(
                decimal(index as nat),
            ),
            Violation::UnknownFanIndex { index, available } => plain("fan index "@) + plain(
                decimal(index as nat),
            ) + plain(" not found; available: ["@) + plain(number_items(available)) + plain("]"@),
            Violation::EmptySensors { fan_index } => plain("fan["@) + plain(
                decimal(fan_index as nat),
            ) + plain("]: sensors list is empty"@),
            Violation::UnknownSensor { sensor, available } => plain(
                unknown_sensor(sensor, all_quoted(available)),
            ),
            Violation::CurveTooShort { fan_index, count } => plain("fan["@) + plain(
                decimal(fan_index as nat),
            ) + plain("]: curve has "@) + plain(decimal(count)) + plain(
                " breakpoints (minimum 2)"@,
            ),
            Violation::CurveTooLong { fan_index, count } => plain("fan["@) + plain(
                decimal(fan_index as nat),
            ) + plain("]: curve has "@) + plain(decimal(count)) + plain(
                " breakpoints (maximum 100)"@,
            ),
            Violation::NonMonotoneTemp { fan_index, bp, prev_temp, temp } => plain("fan["@) + plain(
                decimal(fan_index as nat),
            ) + plain("]: breakpoint "@) + plain(decimal(bp)) + plain(" temp ("@) + exact(temp)
                + plain("°C) ≤ previous ("@) + exact(prev_temp) + plain("°C)"@),
            Violation::NonMonotoneRpm { fan_index, bp, prev_rpm, rpm } => plain("fan["@) + plain(
                decimal(fan_index as nat),
            ) + plain("]: breakpoint "@) + plain(decimal(bp)) + plain(" RPM ("@) + plain(
                decimal(rpm as nat),
            ) + plain(") < previous ("@) + plain(decimal(prev_rpm as nat)) + plain(")"@),
            Violation::RpmOutOfRange { fan_index, bp, rpm, max } => plain("fan["@) + plain(
                decimal(fan_index as nat),
            ) + plain("]: breakpoint "@) + plain(decimal(bp)) + plain(" RPM ("@) + plain(
                decimal(rpm as nat),
            ) + plain(") exceeds max ("@) + exact(max) + plain(")"@),
            Violation::HysteresisInverted { fan_index, up, down } => plain("fan["@) + plain(
                decimal(fan_index as nat),
            ) + plain("]: hysteresis_down ("@) + exact(down) + plain(
                ") must be ≥ hysteresis_up ("@,
            ) + exact(up) + plain(")"@),
            Violation::SmoothingAlphaRange { fan_index, alpha } => plain("fan["@) + plain(
                decimal(fan_index as nat),
            ) + plain("]: smoothing_alpha ("@) + exact(alpha) + plain(
                ") must be in (0.0, 1.0]"@,
            ),
            Violation::PanicTempTooLow { fan_index, panic, last_curve_temp } => plain("fan["@)
                + plain(decimal(fan_index as nat)) + plain("]: panic_temp_c ("@) + exact(panic)
                + plain(") must be > last curve temp ("@) + exact(last_curve_temp) + plain(")"@),
            Violation::LowPowerRange { value } => plain("low_power_attenuation ("@) + exact(value)
                + plain(") must be in [0.3, 1.0]"@),
            Violation::InvalidSocketMode { mode } => plain("control_socket_mode (0o"@) + plain(
                digits(mode as nat, 8, 1),
            ) + plain(") must be 0o600 or 0o660"@),
            Violation::FileTooLarge { size_bytes } => plain("config file too large ("@) + plain(
                decimal(size_bytes as nat),
            ) + plain(" bytes, max 65536)"@),
            Violation::NestingTooDeep { depth } => plain("TOML nesting too deep ("@) + plain(
                decimal(depth),
            ) + plain(" levels, max 32)"@),
            Violation::UnknownField { key, context } => plain("unknown field '"@) + plain(key)
                + plain("' in "@) + plain(context),
            Violation::UnsafePermissions { path, owner, mode } => plain(path) + plain(
                ": unsafe permissions (owner uid "@,
            ) + plain(decimal(owner as nat)) + plain(", mode 0o"@) + plain(
                digits(mode as nat, 8, 1),
            ) + plain(")"@),
        }
    }
}

fn put_fan(m: &mut Vec<Glyph>, fan_index: u8)
    ensures
        shown(final(m)@) == shown(old(m)@) + plain("fan["@) + plain(decimal(fan_index as nat)),
{
    put_text(m, "fan[");
    put_number(m, fan_index as u64);
}

fn put_octal(m: &mut Vec<Glyph>, n: u32)
    ensures
        shown(final(m)@) == shown(old(m)@) + plain(digits(n as nat, 8, 1)),
{
    let mut s: String = String::new();
    push_digits(&mut s, n as u64, 8, 1);
    assert(s@ =~= digits(n as nat, 8, 1));
    put_text(m, s.as_str());
}

fn numbers_text(v: &Vec<u8>) -> (r: String)
    ensures
        r@ == number_items(v@),
{
    let mut s: String = String::new();
    let mut i: usize = 0;
    assert(v@.take(0) =~= Seq::<u8>::empty());
    while i < v.len()
        invariant
            i <= v@.len(),
            s@ == number_items(v@.take(i as int)),
        decreases v@.len() - i,
    {
        let ghost before = s@;
        if i > 0 {
            vstd::string::StringExecFns::append(&mut s, ", ");
        }
        crate::text::push_decimal(&mut s, v[i] as u64);
        proof {
            let next = v@.take(i + 1);
            assert(next.drop_last() =~= v@.take(i as int));
            assert(s@ =~= before + (if i > 0 {
                ", "@
            } else {
                Seq::empty()
            }) + decimal(v@[i as int] as nat));
        }
        i = i + 1;
    }
    assert(v@.take(v@.len() as int) =~= v@);
    s
}

fn items_text(v: &Vec<String>) -> (r: String)
    ensures
        r@ == text_items(texts(v@)),
{
    let mut s: String = String::new();
    let mut i: usize = 0;
    let ghost all = texts(v@);
    assert(all.take(0) =~= Seq::<Seq<char>>::empty());
    while i < v.len()
        invariant
            i <= v@.len(),
            all == texts(v@),
            s@ == text_items(all.take(i as int)),
        decreases v@.len() - i,
    {
        let ghost before = s@;
        if i > 0 {
            vstd::string::StringExecFns::append(&mut s, ", ");
        }
        vstd::string::StringExecFns::append(&mut s, v[i].as_str());
        proof {
            let next = all.take(i + 1);
            assert(next.drop_last() =~= all.take(i as int));
            assert(s@ =~= before + (if i > 0 {
                ", "@
            } else {
                Seq::empty()
            }) + v@[i as int]@);
        }
        i = i + 1;
    }
    assert(all.take(all.len() as int) =~= all);
    s
}

fn quote_all(v: &Vec<String>) -> (r: Vec<String>)
    ensures
        texts(r@) == all_quoted(texts(v@)),
{
    let mut r: Vec<String> = Vec::new();
    let mut i: usize = 0;
    while i < v.len()
        invariant
            i <= v@.len(),
            r@.len() == i,
            forall|j: int| 0 <= j < i ==> (#[trigger] r@[j])@ == quoted(v@[j]@),
        decreases v@.len() - i,
    {
        r.push(quote(v[i].as_str()));
        i = i + 1;
    }
    assert(texts(r@) =~= all_quoted(texts(v@)));
    r
}

/// What is said of a sensor that is not known. The names of those that are
/// known come as they are to be shown.
pub fn unknown_sensor_text(sensor: &str, names: &Vec<String>) -> (r: String)
    ensures
        r@ == unknown_sensor(sensor@, texts(names@)),
{
    let mut s: String = "sensor '".to_owned();
    vstd::string::StringExecFns::append(&mut s, sensor);
    vstd::string::StringExecFns::append(&mut s, "' not found; available: [");
    vstd::string::StringExecFns::append(&mut s, items_text(names).as_str());
    vstd::string::StringExecFns::append(&mut s, "]");
    s
}

impl ValidationError {
    /// The error, with texts as sequences.
    pub open spec fn view(&self) -> Violation {
        match *self {
            ValidationError::TomlSyntax { line, col, message } => Violation::TomlSyntax {
                line: line as nat,
                col: col as nat,
                message: message@,
            },
            ValidationError::MissingRequired { field, fan_index } => Violation::MissingRequired {
                field: field@,
                fan_index,
            },
            ValidationError::DuplicateFanIndex { index } => Violation::DuplicateFanIndex { index },
            ValidationError::UnknownFanIndex { index, available } => Violation::UnknownFanIndex {
                index,
                available: available@,
            },
            ValidationError::EmptySensors { fan_index } => Violation::EmptySensors { fan_index },
            ValidationError::UnknownSensor { sensor, available } => Violation::UnknownSensor {
                sensor: sensor@,
                available: texts(available@),
            },
            ValidationError::CurveTooShort { fan_index, count } => Violation::CurveTooShort {
                fan_index,
                count: count as nat,
            },
            ValidationError::CurveTooLong { fan_index, count } => Violation::CurveTooLong {
                fan_index,
                count: count as nat,
            },
            ValidationError::NonMonotoneTemp { fan_index, bp, prev_temp, temp } =>
                Violation::NonMonotoneTemp { fan_index, bp: bp as nat, prev_temp, temp },
            ValidationError::NonMonotoneRpm { fan_index, bp, prev_rpm, rpm } =>
                Violation::NonMonotoneRpm { fan_index, bp: bp as nat, prev_rpm, rpm },
            ValidationError::RpmOutOfRange { fan_index, bp, rpm, max } =>
                Violation::RpmOutOfRange { fan_index, bp: bp as nat, rpm, max },
            ValidationError::HysteresisInverted { fan_index, up, down } =>
                Violation::HysteresisInverted { fan_index, up, down },
            ValidationError::SmoothingAlphaRange { fan_index, alpha } =>
                Violation::SmoothingAlphaRange { fan_index, alpha },
            ValidationError::PanicTempTooLow { fan_index, panic, last_curve_temp } =>
                Violation::PanicTempTooLow { fan_index, panic, last_curve_temp },
            ValidationError::LowPowerRange { value } => Violation::LowPowerRange { value },
            ValidationError::InvalidSocketMode { mode } => Violation::InvalidSocketMode { mode },
            ValidationError::FileTooLarge { size_bytes } => Violation::FileTooLarge { size_bytes },
            ValidationError::NestingTooDeep { depth } => Violation::NestingTooDeep {
                depth: depth as nat,
            },
            ValidationError::UnknownField { key, context } => Violation::UnknownField {
                key: key@,
                context: context@,
            },
            ValidationError::UnsafePermissions { path, owner, mode } =>
                Violation::UnsafePermissions { path: path@, owner, mode },
        }
    }

    fn fan_message(&self) -> (m: Vec<Glyph>)
        requires
            self is NonMonotoneTemp || self is NonMonotoneRpm || self is RpmOutOfRange
                || self is HysteresisInverted || self is SmoothingAlphaRange
                || self is PanicTempTooLow || self is CurveTooShort || self is CurveTooLong
                || self is EmptySensors,
        ensures
            shown(m@) == self@.words(),
    {
        let mut m: Vec<Glyph> = Vec::new();
        match self {
            ValidationError::EmptySensors { fan_index } => {
                put_fan(&mut m, *fan_index);
                put_text(&mut m, "]: sensors list is empty");
            },
            ValidationError::CurveTooShort { fan_index, count } => {
                put_fan(&mut m, *fan_index);
                put_text(&mut m, "]: curve has ");
                put_number(&mut m, *count as u64);
                put_text(&mut m, " breakpoints (minimum 2)");
            },
            ValidationError::CurveTooLong { fan_index, count } => {
                put_fan(&mut m, *fan_index);
                put_text(&mut m, "]: curve has ");
                put_number(&mut m, *count as u64);
                put_text(&mut m, " breakpoints (maximum 100)");
            },
            ValidationError::NonMonotoneTemp { fan_index, bp, prev_temp, temp } => {
                put_fan(&mut m, *fan_index);
                put_text(&mut m, "]: breakpoint ");
                put_number(&mut m, *bp as u64);
                put_text(&mut m, " temp (");
                put_exact(&mut m, *temp);
                put_text(&mut m, "°C) ≤ previous (");
                put_exact(&mut m, *prev_temp);
                put_text(&mut m, "°C)");
            },
            ValidationError::NonMonotoneRpm { fan_index, bp, prev_rpm, rpm } => {
                put_fan(&mut m, *fan_index);
                put_text(&mut m, "]: breakpoint ");
                put_number(&mut m, *bp as u64);
                put_text(&mut m, " RPM (");
                put_number(&mut m, *rpm as u64);
                put_text(&mut m, ") < previous (");
                put_number(&mut m, *prev_rpm as u64);
                put_text(&mut m, ")");
            },
            ValidationError::RpmOutOfRange { fan_index, bp, rpm, max } => {
                put_fan(&mut m, *fan_index);
                put_text(&mut m, "]: breakpoint ");
                put_number(&mut m, *bp as u64);
                put_text(&mut m, " RPM (");
                put_number(&mut m, *rpm as u64);
                put_text(&mut m, ") exceeds max (");
                put_exact(&mut m, *max);
                put_text(&mut m, ")");
            },
            ValidationError::HysteresisInverted { fan_index, up, down } => {
                put_fan(&mut m, *fan_index);
                put_text(&mut m, "]: hysteresis_down (");
                put_exact(&mut m, *down);
                put_text(&mut m, ") must be ≥ hysteresis_up (");
                put_exact(&mut m, *up);
                put_text(&mut m, ")");
            },
            ValidationError::SmoothingAlphaRange { fan_index, alpha } => {
                put_fan(&mut m, *fan_index);
                put_text(&mut m, "]: smoothing_alpha (");
                put_exact(&mut m, *alpha);
                put_text(&mut m, ") must be in (0.0, 1.0]");
            },
            ValidationError::PanicTempTooLow { fan_index, panic, last_curve_temp } => {
                put_fan(&mut m, *fan_index);
                put_text(&mut m, "]: panic_temp_c (");
                put_exact(&mut m, *panic);
                put_text(&mut m, ") must be > last curve temp (");
                put_exact(&mut m, *last_curve_temp);
                put_text(&mut m, ")");
            },
            _ => {},
        }
        
        m
    }

    /// The error in words.
    pub fn message(&self) -> (m: Vec<Glyph>)
        ensures
            shown(m@) == self@.words(),
    {
        let mut m: Vec<Glyph> = Vec::new();
        match self {
            ValidationError::TomlSyntax { line, col, message } => {
                put_text(&mut m, "line ");
                assert(shown(m@) =~= plain("line "@));
                put_number(&mut m, *line as u64);
                put_text(&mut m, ":");
                put_number(&mut m, *col as u64);
                put_text(&mut m, ": TOML syntax error: ");
                put_text(&mut m, message.as_str());
            },
            ValidationError::MissingRequired { field, fan_index } => {
                match fan_index {
                    Some(i) => {
                        put_fan(&mut m, *i);
                        assert(shown(m@) =~= plain("fan["@) + plain(decimal(*i as nat)));
                        put_text(&mut m, "]: missing required field '");
                    },
                    None => {
                        put_text(&mut m, "missing required field '");
                        assert(shown(m@) =~= plain("missing required field '"@));
                    },
                }
                put_text(&mut m, field.as_str());
                put_text(&mut m, "'");
            },
            ValidationError::DuplicateFanIndex { index } => {
                put_text(&mut m, "duplicate fan index ");
                assert(shown(m@) =~= plain("duplicate fan index "@));
                put_number(&mut m, *index as u64);
            },
            ValidationError::UnknownFanIndex { index, available } => {
                put_text(&mut m, "fan index ");
                assert(shown(m@) =~= plain("fan index "@));
                put_number(&mut m, *index as u64);
                put_text(&mut m, " not found; available: [");
                let s: String = numbers_text(available);
                put_text(&mut m, s.as_str());
                put_text(&mut m, "]");
            },
            ValidationError::UnknownSensor { sensor, available } => {
                let s: String = unknown_sensor_text(sensor.as_str(), &quote_all(available));
                put_text(&mut m, s.as_str());
            },
            ValidationError::LowPowerRange { value } => {
                put_text(&mut m, "low_power_attenuation (");
                assert(shown(m@) =~= plain("low_power_attenuation ("@));
                put_exact(&mut m, *value);
                put_text(&mut m, ") must be in [0.3, 1.0]");
            },
            ValidationError::InvalidSocketMode { mode } => {
                put_text(&mut m, "control_socket_mode (0o");
                assert(shown(m@) =~= plain("control_socket_mode (0o"@));
                put_octal(&mut m, *mode as u32);
                put_text(&mut m, ") must be 0o600 or 0o660");
            },
            ValidationError::FileTooLarge { size_bytes } => {
                put_text(&mut m, "config file too large (");
                assert(shown(m@) =~= plain("config file too large ("@));
                put_number(&mut m, *size_bytes);
                put_text(&mut m, " bytes, max 65536)");
            },
            ValidationError::NestingTooDeep { depth } => {
                put_text(&mut m, "TOML nesting too deep (");
                assert(shown(m@) =~= plain("TOML nesting too deep ("@));
                put_number(&mut m, *depth as u64);
                put_text(&mut m, " levels, max 32)");
            },
            ValidationError::UnknownField { key, context } => {
                put_text(&mut m, "unknown field '");
                assert(shown(m@) =~= plain("unknown field '"@));
                put_text(&mut m, key.as_str());
                put_text(&mut m, "' in ");
                put_text(&mut m, context.as_str());
            },
            ValidationError::UnsafePermissions { path, owner, mode } => {
                put_text(&mut m, path.as_str());
                assert(shown(m@) =~= plain(path@));
                put_text(&mut m, ": unsafe permissions (owner uid ");
                put_number(&mut m, *owner as u64);
                put_text(&mut m, ", mode 0o");
                put_octal(&mut m, *mode);
                put_text(&mut m, ")");
            },
            _ => {
                return self.fan_message();
            },
        }
        m
    }
}

} // verus!
