//! The rules that a configuration has to meet.

use super::schema::{Config, FanBinding, SensorRef, ValidationError, Violation};
use crate::control::curve::rising;
use crate::flt::lemmas::lemma_units_decoded;
use crate::flt::model::{one, units};
use crate::flt::Flt;
use crate::text::{chars_of, decimal, push_decimal, same_text, texts};
use vstd::arithmetic::power2::{lemma2_to64, lemma_pow2_adds, pow2};
use vstd::prelude::*;
use vstd::string::StringExecFns;

verus! {

/// 10.0
pub const MAX_HYSTERESIS_BITS: u32 = 0x4120_0000;

/// Errors, with their texts as sequences.
pub open spec fn listed(errors: Seq<ValidationError>) -> Seq<Violation> {
    Seq::new(errors.len(), |i: int| errors[i]@)
}

/// A key is four printable ASCII characters.
pub open spec fn sensor_key(name: Seq<char>) -> bool {
    &&& name.len() == 4
    &&& forall|i: int| 0 <= i < 4 ==> ' ' <= #[trigger] name[i] <= '~'
}

/// The sensors whose names are no keys.
pub open spec fn sensor_violations(sensors: Seq<SensorRef>) -> Seq<Violation>
    decreases sensors.len(),
{
    if sensors.len() == 0 {
        Seq::empty()
    } else {
        let before = sensor_violations(sensors.drop_last());
        if sensor_key(sensors.last().key()) {
            before
        } else {
            before.push(
                Violation::UnknownSensor {
                    sensor: sensors.last().key(),
                    available: seq!["must be exactly 4 printable ASCII bytes"@],
                },
            )
        }
    }
}

/// A temperature that a curve can have.
pub open spec fn curve_temp(temp: Flt) -> bool {
    temp.finite() && !temp.less(Flt { bits: 0 })
}

/// What is wrong with the first `n` breakpoints of a curve: temperatures that
/// are no numbers or negative, and those that do not rise.
pub open spec fn curve_violations(fan_index: u8, curve: Seq<(Flt, u32)>, n: nat) -> Seq<Violation>
    decreases n,
{
    if n == 0 {
        Seq::empty()
    } else {
        let i = (n - 1) as nat;
        let temp = curve[i as int].0;
        let before = curve_violations(fan_index, curve, i);
        let ranged = if curve_temp(temp) {
            before
        } else {
            before.push(
                Violation::NonMonotoneTemp { fan_index, bp: i, prev_temp: Flt { bits: 0 }, temp },
            )
        };
        if i > 0 && temp.at_most(curve[i - 1].0) {
            ranged.push(
                Violation::NonMonotoneTemp { fan_index, bp: i, prev_temp: curve[i - 1].0, temp },
            )
        } else {
            ranged
        }
    }
}

/// The margin is below 0 or above 10.
pub open spec fn hysteresis_off(down: Flt) -> bool {
    down.less(Flt { bits: 0 }) || (Flt { bits: MAX_HYSTERESIS_BITS }).less(down)
}

/// What is wrong with a fan.
pub open spec fn fan_violations(fan: FanBinding) -> Seq<Violation> {
    let none: Seq<Violation> = Seq::empty();
    let sensors = if fan.sensors@.len() == 0 {
        none.push(Violation::EmptySensors { fan_index: fan.index })
    } else {
        sensor_violations(fan.sensors@)
    };
    let length = if fan.curve@.len() < 2 {
        sensors.push(
            Violation::CurveTooShort { fan_index: fan.index, count: fan.curve@.len() },
        )
    } else {
        sensors
    };
    let curve = length + curve_violations(fan.index, fan.curve@, fan.curve@.len());
    if hysteresis_off(fan.hysteresis_down) {
        curve.push(
            Violation::HysteresisInverted {
                fan_index: fan.index,
                up: fan.hysteresis_up,
                down: fan.hysteresis_down,
            },
        )
    } else {
        curve
    }
}

/// What is wrong with the first `n` fans, fan by fan.
pub open spec fn fans_violations(fans: Seq<FanBinding>, n: nat) -> Seq<Violation>
    decreases n,
{
    if n == 0 {
        Seq::empty()
    } else {
        fans_violations(fans, (n - 1) as nat) + fan_violations(fans[n - 1])
    }
}

/// One of the first `n` fans has the index.
pub open spec fn seen(fans: Seq<FanBinding>, n: int, index: u8) -> bool {
    exists|j: int| 0 <= j < n && (#[trigger] fans[j]).index == index
}

/// Among the first `n` fans, those whose index an earlier one has.
pub open spec fn duplicates(fans: Seq<FanBinding>, n: nat) -> Seq<Violation>
    decreases n,
{
    if n == 0 {
        Seq::empty()
    } else {
        let before = duplicates(fans, (n - 1) as nat);
        if seen(fans, n - 1, fans[n - 1].index) {
            before.push(Violation::DuplicateFanIndex { index: fans[n - 1].index })
        } else {
            before
        }
    }
}

/// A level that the log has.
pub open spec fn known_level(level: Seq<char>) -> bool {
    level == "error"@ || level == "warn"@ || level == "info"@ || level == "debug"@
}

/// What is wrong with the settings that are not a fan's.
pub open spec fn general_violations(config: Config) -> Seq<Violation> {
    let none: Seq<Violation> = Seq::empty();
    let poll = if config.poll_interval_ms < 100 || config.poll_interval_ms > 5000 {
        none.push(
            Violation::MissingRequired {
                field: "poll_interval_ms must be in [100, 5000], got "@ + decimal(
                    config.poll_interval_ms as nat,
                ),
                fan_index: None,
            },
        )
    } else {
        none
    };
    if known_level(config.log_level@) {
        poll
    } else {
        poll.push(
            Violation::MissingRequired {
                field: "log_level must be error|warn|info|debug, got '"@ + config.log_level@ + "'"@,
                fan_index: None,
            },
        )
    }
}

/// Everything that is wrong with a configuration, in order.
pub open spec fn violations(config: Config) -> Seq<Violation> {
    let general = general_violations(config);
    if config.fan@.len() == 0 {
        general.push(
            Violation::MissingRequired {
                field: "fan: at least one [[fan]] section required"@,
                fan_index: None,
            },
        )
    } else {
        general + duplicates(config.fan@, config.fan@.len()) + fans_violations(
            config.fan@,
            config.fan@.len(),
        )
    }
}

fn report(errors: &mut Vec<ValidationError>, e: ValidationError)
    ensures
        listed(final(errors)@) == listed(old(errors)@).push(e@),
{
    errors.push(e);
    assert(listed(errors@) =~= listed(old(errors)@).push(e@));
}

fn is_sensor_key(name: &str) -> (r: bool)
    ensures
        r == sensor_key(name@),
{
    let cs: Vec<char> = chars_of(name);
    if cs.len() != 4 {
        return false;
    }
    let mut i: usize = 0;
    while i < 4
        invariant
            i <= 4,
            cs@.len() == 4,
            cs@ == name@,
            forall|j: int| 0 <= j < i ==> ' ' <= #[trigger] name@[j] <= '~',
        decreases 4 - i,
    {
        if cs[i] < ' ' || cs[i] > '~' {
            assert(!(' ' <= name@[i as int] <= '~'));
            return false;
        }
        i = i + 1;
    }
    true
}

fn validate_sensors(sensors: &Vec<SensorRef>, errors: &mut Vec<ValidationError>)
    ensures
        listed(final(errors)@) == listed(old(errors)@) + sensor_violations(sensors@),
{
    let mut i: usize = 0;
    assert(sensors@.take(0) =~= Seq::<SensorRef>::empty());
    assert(listed(errors@) =~= listed(old(errors)@) + sensor_violations(sensors@.take(0)));
    while i < sensors.len()
        invariant
            i <= sensors@.len(),
            listed(errors@) == listed(old(errors)@) + sensor_violations(sensors@.take(i as int)),
        decreases sensors@.len() - i,
    {
        let name: &str = sensors[i].as_str();
        proof {
            let next = sensors@.take(i + 1);
            assert(next.drop_last() =~= sensors@.take(i as int));
        }
        if !is_sensor_key(name) {
            let mut available: Vec<String> = Vec::new();
            available.push("must be exactly 4 printable ASCII bytes".to_owned());
            assert(texts(available@) =~= seq!["must be exactly 4 printable ASCII bytes"@]);
            report(errors, ValidationError::UnknownSensor { sensor: name.to_owned(), available });
            assert(listed(errors@) =~= listed(old(errors)@) + sensor_violations(
                sensors@.take(i + 1),
            ));
        }
        i = i + 1;
    }
    assert(sensors@.take(sensors@.len() as int) =~= sensors@);
}

fn validate_curve(fan_index: u8, curve: &Vec<(Flt, u32)>, errors: &mut Vec<ValidationError>)
    ensures
        listed(final(errors)@) == listed(old(errors)@) + curve_violations(
            fan_index,
            curve@,
            curve@.len(),
        ),
{
    let mut i: usize = 0;
    assert(listed(errors@) =~= listed(old(errors)@) + curve_violations(fan_index, curve@, 0));
    while i < curve.len()
        invariant
            i <= curve@.len(),
            listed(errors@) == listed(old(errors)@) + curve_violations(fan_index, curve@, i as nat),
        decreases curve@.len() - i,
    {
        let ghost before = listed(errors@);
        let temp: Flt = curve[i].0;
        let zero: Flt = Flt { bits: 0 };
        if !temp.is_finite() || temp.lt(zero) {
            report(
                errors,
                ValidationError::NonMonotoneTemp { fan_index, bp: i, prev_temp: zero, temp },
            );
        }
        if i > 0 {
            let prev_temp: Flt = curve[i - 1].0;
            if temp.le(prev_temp) {
                report(
                    errors,
                    ValidationError::NonMonotoneTemp { fan_index, bp: i, prev_temp, temp },
                );
            }
        }
        assert(listed(errors@) =~= listed(old(errors)@) + curve_violations(
            fan_index,
            curve@,
            (i + 1) as nat,
        ));
        i = i + 1;
    }
}

/// Appends what is wrong with a fan.
pub fn validate_fan(fan: &FanBinding, errors: &mut Vec<ValidationError>)
    ensures
        listed(final(errors)@) == listed(old(errors)@) + fan_violations(*fan),
{
    if fan.sensors.len() == 0 {
        report(errors, ValidationError::EmptySensors { fan_index: fan.index });
    } else {
        validate_sensors(&fan.sensors, errors);
    }
    let count: usize = fan.curve.len();
    if count < 2 {
        report(errors, ValidationError::CurveTooShort { fan_index: fan.index, count });
    }
    validate_curve(fan.index, &fan.curve, errors);
    let zero: Flt = Flt { bits: 0 };
    let ten: Flt = Flt { bits: MAX_HYSTERESIS_BITS };
    if fan.hysteresis_down.lt(zero) || ten.lt(fan.hysteresis_down) {
        report(
            errors,
            ValidationError::HysteresisInverted {
                fan_index: fan.index,
                up: fan.hysteresis_up,
                down: fan.hysteresis_down,
            },
        );
    }
    assert(listed(errors@) =~= listed(old(errors)@) + fan_violations(*fan));
}

fn validate_general(config: &Config) -> (errors: Vec<ValidationError>)
    ensures
        listed(errors@) == general_violations(*config),
{
    let mut errors: Vec<ValidationError> = Vec::new();
    assert(listed(errors@) =~= Seq::<Violation>::empty());
    if config.poll_interval_ms < 100 || config.poll_interval_ms > 5000 {
        let mut field: String = "poll_interval_ms must be in [100, 5000], got ".to_owned();
        push_decimal(&mut field, config.poll_interval_ms as u64);
        report(&mut errors, ValidationError::MissingRequired { field, fan_index: None });
    }
    let level: &str = config.log_level.as_str();
    if !(same_text(level, "error") || same_text(level, "warn") || same_text(level, "info")
        || same_text(level, "debug")) {
        let mut field: String = "log_level must be error|warn|info|debug, got '".to_owned();
        field.append(level);
        field.append("'");
        report(&mut errors, ValidationError::MissingRequired { field, fan_index: None });
    }
    errors
}

fn is_seen(fans: &Vec<FanBinding>, n: usize) -> (r: bool)
    requires
        n < fans@.len(),
    ensures
        r == seen(fans@, n as int, fans@[n as int].index),
{
    let mut j: usize = 0;
    while j < n
        invariant
            j <= n < fans@.len(),
            forall|k: int| 0 <= k < j ==> (#[trigger] fans@[k]).index != fans@[n as int].index,
        decreases n - j,
    {
        if fans[j].index == fans[n].index {
            return true;
        }
        j = j + 1;
    }
    false
}

/// Everything that is wrong with a configuration, so that all of it can be
/// mended at once.
pub fn validate(config: &Config) -> (errors: Vec<ValidationError>)
    ensures
        listed(errors@) == violations(*config),
{
    let mut errors: Vec<ValidationError> = validate_general(config);
    if config.fan.len() == 0 {
        report(
            &mut errors,
            ValidationError::MissingRequired {
                field: "fan: at least one [[fan]] section required".to_owned(),
                fan_index: None,
            },
        );
        return errors;
    }
    let ghost general = general_violations(*config);
    let mut i: usize = 0;
    assert(general + duplicates(config.fan@, 0) =~= general);
    while i < config.fan.len()
        invariant
            i <= config.fan@.len(),
            listed(errors@) == general + duplicates(config.fan@, i as nat),
        decreases config.fan@.len() - i,
    {
        if is_seen(&config.fan, i) {
            report(&mut errors, ValidationError::DuplicateFanIndex { index: config.fan[i].index });
        }
        assert(listed(errors@) =~= general + duplicates(config.fan@, (i + 1) as nat));
        i = i + 1;
    }
    let ghost checked = listed(errors@);
    let mut k: usize = 0;
    assert(checked + fans_violations(config.fan@, 0) =~= checked);
    while k < config.fan.len()
        invariant
            k <= config.fan@.len(),
            listed(errors@) == checked + fans_violations(config.fan@, k as nat),
        decreases config.fan@.len() - k,
    {
        validate_fan(&config.fan[k], &mut errors);
        assert(listed(errors@) =~= checked + fans_violations(config.fan@, (k + 1) as nat));
        k = k + 1;
    }
    errors
}

/// Nothing, or everything that is wrong with a configuration.
pub fn validate_or_exit(config: &Config) -> (r: Result<(), Vec<ValidationError>>)
    ensures
        r is Ok <==> violations(*config).len() == 0,
        r is Err ==> listed(r->Err_0@) == violations(*config),
{
    let errors: Vec<ValidationError> = validate(config);
    assert(listed(errors@).len() == errors@.len());
    if errors.len() == 0 {
        Ok(())
    } else {
        Err(errors)
    }
}

/// A fan as it should be: at least one sensor, each named by a key; a curve of
/// at least two breakpoints whose temperatures are not negative and rise; a
/// margin that is neither below 0 nor above 10.
pub open spec fn sound_fan(fan: FanBinding) -> bool {
    &&& fan.sensors@.len() > 0
    &&& forall|i: int|
        0 <= i < fan.sensors@.len() ==> sensor_key((#[trigger] fan.sensors@[i]).key())
    &&& fan.curve@.len() >= 2
    &&& rising(fan.curve@)
    &&& forall|i: int|
        0 <= i < fan.curve@.len() ==> !(#[trigger] fan.curve@[i]).0.less(Flt { bits: 0 })
    &&& !hysteresis_off(fan.hysteresis_down)
}

/// A configuration as it should be.
pub open spec fn sound(config: Config) -> bool {
    &&& 100 <= config.poll_interval_ms <= 5000
    &&& known_level(config.log_level@)
    &&& config.fan@.len() > 0
    &&& forall|i: int, j: int|
        0 <= i < j < config.fan@.len() ==> (#[trigger] config.fan@[i]).index != (
        #[trigger] config.fan@[j]).index
    &&& forall|i: int| 0 <= i < config.fan@.len() ==> sound_fan(#[trigger] config.fan@[i])
}

proof fn lemma_sensors(sensors: Seq<SensorRef>)
    ensures
        sensor_violations(sensors).len() == 0 <==> forall|i: int|
            0 <= i < sensors.len() ==> sensor_key((#[trigger] sensors[i]).key()),
    decreases sensors.len(),
{
    if sensors.len() > 0 {
        let front = sensors.drop_last();
        lemma_sensors(front);
        assert forall|i: int|
            0 <= i < front.len() && sensor_violations(sensors).len() == 0 implies sensor_key(
            (#[trigger] sensors[i]).key(),
        ) by {
            assert(front[i] == sensors[i]);
        }
        assert(sensors[sensors.len() - 1] == sensors.last());
    }
}

proof fn lemma_curve(fan_index: u8, curve: Seq<(Flt, u32)>, n: nat)
    requires
        n <= curve.len(),
    ensures
        curve_violations(fan_index, curve, n).len() == 0 <==> {
            &&& rising(curve.take(n as int))
            &&& forall|i: int| 0 <= i < n ==> !(#[trigger] curve[i]).0.less(Flt { bits: 0 })
        },
    decreases n,
{
    let part = curve.take(n as int);
    if n > 0 {
        let before = curve.take(n - 1);
        lemma_curve(fan_index, curve, (n - 1) as nat);
        if curve_violations(fan_index, curve, n).len() == 0 {
            assert forall|i: int| 0 <= i < n implies (#[trigger] part[i]).0.finite() by {
                if i < n - 1 {
                    assert(before[i] == part[i]);
                }
            }
            assert forall|i: int, j: int| 0 <= i < j < n implies (#[trigger] part[i]).0.less(
                (#[trigger] part[j]).0,
            ) by {
                assert(before[i] == part[i]);
                if j < n - 1 {
                    assert(before[j] == part[j]);
                } else {
                    let prev = curve[n - 2];
                    assert(prev.0 == before[n - 2].0);
                    assert(prev.0.finite());
                    assert(prev.0.less(part[j].0));
                    if i < n - 2 {
                        assert(before[i].0.less(before[n - 2].0));
                    }
                }
            }
        }
        if rising(part) && (forall|i: int|
            0 <= i < n ==> !(#[trigger] curve[i]).0.less(Flt { bits: 0 })) {
            assert forall|i: int| 0 <= i < n - 1 implies (#[trigger] before[i]).0.finite() by {
                assert(before[i] == part[i]);
            }
            assert forall|i: int, j: int| 0 <= i < j < n - 1 implies (#[trigger] before[i]).0.less(
                (#[trigger] before[j]).0,
            ) by {
                assert(before[i] == part[i] && before[j] == part[j]);
            }
            assert(part[n - 1] == curve[n - 1]);
            if n > 1 {
                assert(part[n - 2] == curve[n - 2]);
                assert(part[n - 2].0.less(part[n - 1].0));
            }
        }
    }
}

proof fn lemma_fan(fan: FanBinding)
    ensures
        fan_violations(fan).len() == 0 <==> sound_fan(fan),
{
    lemma_sensors(fan.sensors@);
    lemma_curve(fan.index, fan.curve@, fan.curve@.len());
    assert(fan.curve@.take(fan.curve@.len() as int) =~= fan.curve@);
}

proof fn lemma_fans(fans: Seq<FanBinding>, n: nat)
    requires
        n <= fans.len(),
    ensures
        fans_violations(fans, n).len() == 0 <==> forall|i: int|
            0 <= i < n ==> sound_fan(#[trigger] fans[i]),
    decreases n,
{
    if n > 0 {
        lemma_fans(fans, (n - 1) as nat);
        lemma_fan(fans[n - 1]);
    }
}

proof fn lemma_duplicates(fans: Seq<FanBinding>, n: nat)
    requires
        n <= fans.len(),
    ensures
        duplicates(fans, n).len() == 0 <==> forall|i: int, j: int|
            0 <= i < j < n ==> (#[trigger] fans[i]).index != (#[trigger] fans[j]).index,
    decreases n,
{
    if n > 0 {
        lemma_duplicates(fans, (n - 1) as nat);
        if seen(fans, n - 1, fans[n - 1].index) {
            let j = choose|j: int| 0 <= j < n - 1 && (#[trigger] fans[j]).index == fans[n - 1].index;
            assert(fans[j].index == fans[n - 1].index);
        }
    }
}

/// A configuration in which nothing is found wrong is as it should be, and the
/// other way round.
pub proof fn law_nothing_wrong_means_sound(config: Config)
    ensures
        violations(config).len() == 0 <==> sound(config),
{
    if config.fan@.len() > 0 {
        lemma_duplicates(config.fan@, config.fan@.len());
        lemma_fans(config.fan@, config.fan@.len());
    }
}

/// A margin is off exactly if it is a number below 0 or above 10.
pub proof fn law_margin_by_values(down: Flt)
    ensures
        hysteresis_off(down) <==> !down.nan() && (down.value() < 0 || down.value() > 10 * one()),
{
    lemma_units_decoded(MAX_HYSTERESIS_BITS as nat, 0x00A0_0000, 129);
    lemma2_to64();
    lemma_pow2_adds(20, 129);
    assert(0x00A0_0000 * pow2(129) == 10 * (0x10_0000 * pow2(129)));
    assert(units(0) == 0);
}

/// A configuration passes exactly if the interval lies between 100 and 5000
/// milliseconds, the level is known, there is a fan, no two fans have the same
/// index, and each fan has sensors that are four printable ASCII characters, at
/// least two breakpoints with rising temperatures that are not negative, and a
/// margin that is neither below 0 nor above 10.
pub proof fn law_validation_by_values(config: Config)
    ensures
        violations(config).len() == 0 <==> {
            let fans = config.fan@;
            &&& 100 <= config.poll_interval_ms <= 5000
            &&& (config.log_level@ == "error"@ || config.log_level@ == "warn"@ || config.log_level@
                == "info"@ || config.log_level@ == "debug"@)
            &&& fans.len() > 0
            &&& forall|i: int, j: int|
                0 <= i < j < fans.len() ==> (#[trigger] fans[i]).index != (#[trigger] fans[j]).index
            &&& forall|i: int| 0 <= i < fans.len() ==> passes(#[trigger] fans[i])
        },
{
    law_nothing_wrong_means_sound(config);
    assert forall|i: int| 0 <= i < config.fan@.len() implies sound_fan(#[trigger] config.fan@[i])
        == passes(config.fan@[i]) by {
        lemma_passes(config.fan@[i]);
    }
}

/// What a fan has to have, by values.
pub open spec fn passes(fan: FanBinding) -> bool {
    let (curve, down) = (fan.curve@, fan.hysteresis_down);
    &&& fan.sensors@.len() > 0
    &&& forall|i: int| 0 <= i < fan.sensors@.len() ==> four_printable((#[trigger] fan.sensors@[i]).key())
    &&& curve.len() >= 2
    &&& forall|i: int|
        0 <= i < curve.len() ==> (#[trigger] curve[i]).0.finite() && curve[i].0.value() >= 0
    &&& forall|i: int, j: int|
        0 <= i < j < curve.len() ==> (#[trigger] curve[i]).0.value() < (
        #[trigger] curve[j]).0.value()
    &&& down.nan() || 0 <= down.value() <= 10 * one()
}

/// Four characters from the space to the tilde.
pub open spec fn four_printable(name: Seq<char>) -> bool {
    name.len() == 4 && forall|i: int|
        0 <= i < 4 ==> 0x20 <= #[trigger] name[i] as int && name[i] as int <= 0x7E
}

proof fn lemma_passes(fan: FanBinding)
    ensures
        sound_fan(fan) == passes(fan),
{
    law_margin_by_values(fan.hysteresis_down);
    assert((Flt { bits: 0 }).value() == 0) by {
        assert(units(0) == 0);
    }
    assert forall|i: int| 0 <= i < fan.sensors@.len() implies sensor_key(
        (#[trigger] fan.sensors@[i]).key(),
    ) == four_printable(fan.sensors@[i].key()) by {
        lemma_printable(fan.sensors@[i].key());
    }
}

proof fn lemma_printable(name: Seq<char>)
    ensures
        sensor_key(name) == four_printable(name),
{
    if four_printable(name) {
        assert forall|i: int| 0 <= i < 4 implies ' ' <= #[trigger] name[i] <= '~' by {
            assert(0x20 <= name[i] as int);
        }
    }
    if sensor_key(name) {
        assert forall|i: int| 0 <= i < 4 implies 0x20 <= #[trigger] name[i] as int && name[i] as int
            <= 0x7E by {
            assert(' ' <= name[i] <= '~');
        }
    }
}

} // verus!
