use fand::control::adapter::{AppleSiliconAdapter, AppleSiliconDecision};
use fand::control::control_loop::{DaemonState, FanControlState};
use fand::control::curve::evaluate;
use fand::control::ema::smooth;
use fand::control::fusion::{fuse, FusionMode};
use fand::control::hysteresis::{apply, Direction, HysteresisState};
use fand::control::panic::{check, PanicAction, PanicState};
use fand::control::slew::limit;
use fand::control::state::{effective_safe_min, ClampedRpm};
use fand::flt::Flt;

fn flt(x: f32) -> Flt {
    Flt { bits: x.to_bits() }
}

fn num(v: Flt) -> f32 {
    f32::from_bits(v.bits)
}

fn flts(xs: &[f32]) -> Vec<Flt> {
    xs.iter().map(|x| flt(*x)).collect()
}

fn points(xs: &[(f32, u32)]) -> Vec<(Flt, u32)> {
    xs.iter().map(|(t, r)| (flt(*t), *r)).collect()
}

const MIN: f32 = 2317.0;
const MAX: f32 = 6550.0;

fn decide(a: &mut AppleSiliconAdapter, target: f32) -> AppleSiliconDecision {
    a.decide(flt(target), flt(MIN), flt(MAX))
}

#[test]
fn starts_as_auto() {
    let adapter = AppleSiliconAdapter::new();
    assert_eq!(adapter.current, AppleSiliconDecision::Auto);
}

#[test]
fn engage_at_min_rpm() {
    let mut a = AppleSiliconAdapter::new();
    assert_eq!(decide(&mut a, MIN), AppleSiliconDecision::ForcedMinimum);
}

#[test]
fn stay_auto_above_engage_threshold() {
    let mut a = AppleSiliconAdapter::new();
    assert_eq!(decide(&mut a, 3000.0), AppleSiliconDecision::Auto);
}

#[test]
fn hysteresis_prevents_rapid_toggle() {
    let mut a = AppleSiliconAdapter::new();
    assert_eq!(decide(&mut a, 2400.0), AppleSiliconDecision::ForcedMinimum);
    assert_eq!(decide(&mut a, 2600.0), AppleSiliconDecision::ForcedMinimum);
    assert_eq!(decide(&mut a, 2800.0), AppleSiliconDecision::Auto);
    assert_eq!(decide(&mut a, 2600.0), AppleSiliconDecision::Auto);
    assert_eq!(decide(&mut a, 2400.0), AppleSiliconDecision::ForcedMinimum);
}

#[test]
fn mode_byte_values() {
    assert_eq!(AppleSiliconDecision::ForcedMinimum.mode_byte(), 1);
    assert_eq!(AppleSiliconDecision::Auto.mode_byte(), 0);
}

fn curve(bp: &[(f32, u32)], temp: f32) -> f32 {
    num(evaluate(&points(bp), flt(temp)))
}

#[test]
fn below_first() {
    let bp = vec![(50.0, 0), (80.0, 6000)];
    assert!((curve(&bp, 30.0) - 0.0).abs() < 0.01);
}

#[test]
fn above_last() {
    let bp = vec![(50.0, 0), (80.0, 6000)];
    assert!((curve(&bp, 100.0) - 6000.0).abs() < 0.01);
}

#[test]
fn midpoint() {
    let bp = vec![(50.0, 0), (80.0, 6000)];
    assert!((curve(&bp, 65.0) - 3000.0).abs() < 1.0);
}

#[test]
fn on_breakpoint() {
    let bp = vec![(50.0, 1000), (65.0, 2500), (80.0, 6000)];
    assert!((curve(&bp, 65.0) - 2500.0).abs() < 0.01);
}

#[test]
fn endpoint_exactness_t0() {
    let bp = vec![(50.0, 1000), (80.0, 6000)];
    assert_eq!(curve(&bp, 50.0), 1000.0);
}

#[test]
fn endpoint_exactness_t1() {
    let bp = vec![(50.0, 1000), (80.0, 6000)];
    assert_eq!(curve(&bp, 80.0), 6000.0);
}

#[test]
fn zero_width_breakpoints() {
    let bp = vec![(65.0, 1000), (65.0, 5000)];
    assert_eq!(curve(&bp, 65.0), 1000.0);
}

#[test]
fn two_breakpoint_minimum() {
    let bp = vec![(40.0, 1300), (90.0, 6400)];
    let rpm = curve(&bp, 65.0);
    let expected = 1300.0 + (6400.0 - 1300.0) * (65.0 - 40.0) / (90.0 - 40.0);
    assert!((rpm - expected).abs() < 1.0);
}

#[test]
fn curves_of_few_points() {
    assert_eq!(curve(&[], 65.0), 0.0);
    assert_eq!(curve(&[(50.0, 1234)], 10.0), 1234.0);
    assert_eq!(curve(&[(50.0, 1234)], 90.0), 1234.0);
    assert_eq!(curve(&[(50.0, 0), (60.0, 100), (70.0, 300)], f32::NAN), 300.0);
}

#[test]
fn curves_interpolate_as_the_machine_does() {
    let (t_lo, a, t_hi, b) = (50.0f32, 2317.0f32, 65.0f32, 3500.0f32);
    for k in 1..150 {
        let temp = 50.0 + k as f32 * 0.1;
        let t = (temp - t_lo) / (t_hi - t_lo);
        let expected = (1.0 - t) * a + t * b;
        let got = curve(&[(50.0, 2317), (65.0, 3500), (75.0, 5000)], temp);
        if temp < t_hi {
            assert_eq!(got.to_bits(), expected.to_bits(), "at {temp}");
        }
    }
}

fn ema(prev: f32, raw: f32, alpha: f32) -> f32 {
    num(smooth(flt(prev), flt(raw), flt(alpha)))
}

#[test]
fn alpha_one_passthrough() {
    assert_eq!(ema(70.0, 45.0, 1.0), 45.0);
}

#[test]
fn alpha_quarter() {
    let result = ema(70.0, 50.0, 0.25);
    let expected = 0.25 * 50.0 + 0.75 * 70.0;
    assert!((result - expected).abs() < 0.001);
}

#[test]
fn convergence() {
    let mut s = 70.0;
    for _ in 0..100 {
        s = ema(s, 50.0, 0.25);
    }
    assert!((s - 50.0).abs() < 0.01);
}

#[test]
fn reinit_on_resume() {
    let raw = 40.0;
    let result = ema(raw, raw, 0.25);
    assert_eq!(result, 40.0);
}

fn fused(vals: &[f32], drops: &[bool], mode: FusionMode, last: f32) -> f32 {
    num(fuse(&flts(vals), drops, mode, flt(last)))
}

#[test]
fn max_of_three() {
    let vals = [60.0, 72.5, 65.0];
    let drops = [false, false, false];
    assert_eq!(fused(&vals, &drops, FusionMode::Max, 50.0), 72.5);
}

#[test]
fn mean_of_three() {
    let vals = [60.0, 72.0, 66.0];
    let drops = [false, false, false];
    let result = fused(&vals, &drops, FusionMode::Mean, 50.0);
    assert!((result - 66.0).abs() < 0.01);
}

#[test]
fn excludes_dropout() {
    let vals = [60.0, 72.5, 65.0];
    let drops = [false, true, false];
    assert_eq!(fused(&vals, &drops, FusionMode::Max, 50.0), 65.0);
}

#[test]
fn all_dropout_uses_fallback() {
    let vals = [60.0, 72.5];
    let drops = [true, true];
    assert_eq!(fused(&vals, &drops, FusionMode::Max, 42.0), 42.0);
}

#[test]
fn single_sensor() {
    let vals = [71.3];
    let drops = [false];
    assert_eq!(fused(&vals, &drops, FusionMode::Max, 50.0), 71.3);
}

#[test]
fn nan_guard() {
    let vals: [f32; 0] = [];
    let drops: [bool; 0] = [];
    assert_eq!(fused(&vals, &drops, FusionMode::Mean, 55.0), 55.0);
}

#[test]
fn fusion_modes_by_name() {
    assert_eq!(FusionMode::from_str_lossy("mean"), FusionMode::Mean);
    assert_eq!(FusionMode::from_str_lossy("max"), FusionMode::Max);
    assert_eq!(FusionMode::from_str_lossy("other"), FusionMode::Max);
}

fn hysteresis(s: &mut HysteresisState, rpm: f32, temp: f32, up: f32, down: f32) -> f32 {
    num(apply(s, flt(rpm), flt(temp), flt(up), flt(down)))
}

#[test]
fn rising_crosses_up() {
    let mut s = HysteresisState::new(flt(2000.0), flt(60.0));
    let rpm = hysteresis(&mut s, 3000.0, 62.0, 1.0, 3.0);
    assert_eq!(rpm, 3000.0);
    assert_eq!(s.direction, Direction::Rising);
}

#[test]
fn held_in_band() {
    let mut s = HysteresisState::new(flt(2000.0), flt(60.0));
    let rpm = hysteresis(&mut s, 2100.0, 60.5, 1.0, 3.0);
    assert_eq!(rpm, 2000.0);
    assert_eq!(s.direction, Direction::Held);
}

#[test]
fn falling_crosses_down() {
    let mut s = HysteresisState::new(flt(3000.0), flt(70.0));
    s.direction = Direction::Falling;
    let rpm = hysteresis(&mut s, 1500.0, 66.0, 1.0, 3.0);
    assert_eq!(rpm, 1500.0);
    assert_eq!(s.direction, Direction::Falling);
}

#[test]
fn asymmetric_margins() {
    let mut s = HysteresisState::new(flt(2000.0), flt(60.0));
    let rpm_small_rise = hysteresis(&mut s, 2200.0, 60.8, 1.0, 3.0);
    assert_eq!(rpm_small_rise, 2000.0);

    let rpm_small_fall = hysteresis(&mut s, 1800.0, 58.0, 1.0, 3.0);
    assert_eq!(rpm_small_fall, 2000.0);

    let rpm_big_fall = hysteresis(&mut s, 1500.0, 56.5, 1.0, 3.0);
    assert_eq!(rpm_big_fall, 1500.0);
}

#[test]
fn reinit_resets() {
    let mut s = HysteresisState::new(flt(5000.0), flt(80.0));
    s.direction = Direction::Rising;
    s.reinit(flt(3000.0), flt(65.0));
    assert_eq!(num(s.hold_rpm), 3000.0);
    assert_eq!(s.direction, Direction::Held);
    assert_eq!(num(s.last_temp), 65.0);
}

const NOW: u64 = 5_000_000_000;
const SECOND: u64 = 1_000_000_000;

fn heat(s: &mut PanicState, temp: f32, now: u64) -> PanicAction {
    check(s, flt(temp), flt(95.0), 10, now)
}

#[test]
fn single_tick_no_trigger() {
    let mut s = PanicState::new();
    let action = heat(&mut s, 96.0, NOW);
    assert_eq!(action, PanicAction::Passthrough);
    assert!(!s.latched);
}

#[test]
fn two_ticks_triggers() {
    let mut s = PanicState::new();
    heat(&mut s, 96.0, NOW);
    let action = heat(&mut s, 96.0, NOW);
    assert_eq!(action, PanicAction::ForceFxMx);
    assert!(s.latched);
}

#[test]
fn hold_prevents_exit() {
    let mut s = PanicState::new();
    heat(&mut s, 96.0, NOW);
    heat(&mut s, 96.0, NOW);
    assert!(s.latched);

    let action = heat(&mut s, 90.0, NOW + 5 * SECOND);
    assert_eq!(action, PanicAction::ForceFxMx);
}

#[test]
fn exit_after_hold() {
    let mut s = PanicState::new();
    heat(&mut s, 96.0, NOW);
    heat(&mut s, 96.0, NOW);
    assert!(s.latched);

    let action = heat(&mut s, 90.0, NOW + 11 * SECOND);
    assert_eq!(action, PanicAction::Passthrough);
    assert!(!s.latched);
}

#[test]
fn panic_preserves_across_reinit() {
    let mut s = PanicState::new();
    heat(&mut s, 96.0, NOW);
    heat(&mut s, 96.0, NOW);
    assert!(s.latched);

    let action = heat(&mut s, 96.0, NOW);
    assert_eq!(action, PanicAction::ForceFxMx);
    assert!(s.latched);
}

#[test]
fn intermittent_does_not_trigger() {
    let mut s = PanicState::new();
    heat(&mut s, 96.0, NOW);
    heat(&mut s, 94.0, NOW);
    let action = heat(&mut s, 96.0, NOW);
    assert_eq!(action, PanicAction::Passthrough);
    assert!(!s.latched);
}

fn slew(prev: f32, target: f32, ramp: f32, dt: f32) -> f32 {
    num(limit(flt(prev), flt(target), flt(ramp), flt(dt)))
}

#[test]
fn ramp_up_unlimited() {
    assert_eq!(slew(1000.0, 5000.0, 600.0, 0.5), 5000.0);
}

#[test]
fn ramp_down_capped() {
    let result = slew(5000.0, 1000.0, 600.0, 0.5);
    assert!((result - 4700.0).abs() < 0.01);
}

#[test]
fn zero_delta() {
    assert_eq!(slew(3000.0, 3000.0, 600.0, 0.5), 3000.0);
}

#[test]
fn actual_dt_based() {
    let result_short = slew(5000.0, 1000.0, 600.0, 0.3);
    let result_long = slew(5000.0, 1000.0, 600.0, 0.6);
    assert!(result_short > result_long);
}

#[test]
fn dt_sanity_clamp() {
    let result = slew(5000.0, 1000.0, 600.0, 5.0);
    let expected = slew(5000.0, 1000.0, 600.0, 1.0);
    assert_eq!(result, expected);
}

#[test]
fn seed_from_actual() {
    let actual_rpm = 3200.0;
    let curve_rpm = 2800.0;
    let result = slew(actual_rpm, curve_rpm, 600.0, 0.5);
    assert!((result - 2900.0).abs() < 0.01);
}

fn clamped(raw: f32, min: f32, max: f32) -> ClampedRpm {
    ClampedRpm::new(flt(raw), flt(min), flt(max), None)
}

/// With a floor as the environment would give it.
fn floored(raw: f32, min: f32, max: f32, floor: &str) -> u32 {
    let safe = floor.parse::<f32>().ok().map(flt);
    ClampedRpm::new(flt(raw), flt(min), flt(max), safe).value()
}

#[test]
fn clamp_to_min() {
    assert_eq!(clamped(500.0, 1300.0, 6400.0).value(), 1300);
}

#[test]
fn clamp_to_max() {
    assert_eq!(clamped(9000.0, 1300.0, 6400.0).value(), 6400);
}

#[test]
fn passthrough_in_range() {
    assert_eq!(clamped(3500.0, 1300.0, 6400.0).value(), 3500);
}

#[test]
fn nan_clamps_to_min() {
    assert_eq!(clamped(f32::NAN, 1300.0, 6400.0).value(), 1300);
}

#[test]
fn infinity_clamps_to_min() {
    assert_eq!(clamped(f32::INFINITY, 1300.0, 6400.0).value(), 1300);
    assert_eq!(clamped(f32::NEG_INFINITY, 1300.0, 6400.0).value(), 1300);
}

#[test]
fn negative_clamps_to_min() {
    assert_eq!(clamped(-100.0, 1300.0, 6400.0).value(), 1300);
}

#[test]
fn rounds_correctly() {
    assert_eq!(clamped(3500.6, 1300.0, 6400.0).value(), 3501);
    assert_eq!(clamped(3500.4, 1300.0, 6400.0).value(), 3500);
}

#[test]
fn zero_min_allowed_when_no_safe_floor() {
    assert_eq!(clamped(0.0, 0.0, 7200.0).value(), 0);
}

#[test]
fn safe_min_env_lifts_floor_above_hardware_min() {
    assert_eq!(floored(100.0, 1300.0, 6400.0, "3000"), 3000, "safe-min override MUST lift floor");
}

#[test]
fn safe_min_env_below_hardware_min_is_ignored() {
    assert_eq!(floored(100.0, 1300.0, 6400.0, "500"), 1300);
}

#[test]
fn safe_min_env_malformed_falls_back_to_hardware_min() {
    assert_eq!(floored(100.0, 1300.0, 6400.0, "not-a-number"), 1300);
    assert_eq!(floored(100.0, 1300.0, 6400.0, "NaN"), 1300);
    assert_eq!(floored(100.0, 1300.0, 6400.0, ""), 1300);
}

#[test]
fn zero_request_with_safe_min_floor_never_reaches_hardware() {
    assert_eq!(floored(0.0, 0.0, 6400.0, "2000"), 2000, "zero MUST be lifted by safe floor");
}

fn was_clamped(raw: f32) -> bool {
    ClampedRpm::was_clamped(flt(raw), flt(1300.0), flt(6400.0), None)
}

#[test]
fn was_clamped_reports_clamping_correctly() {
    assert!(was_clamped(100.0));
    assert!(was_clamped(9999.0));
    assert!(was_clamped(f32::NAN));
    assert!(!was_clamped(3000.0));
    assert!(!was_clamped(1300.0));
    assert!(!was_clamped(6400.0));
}

#[test]
fn as_f32_round_trips_value() {
    assert_eq!(num(clamped(3000.0, 1300.0, 6400.0).as_f32()), 3000.0);
}

#[test]
fn clamped_speeds_are_shown() {
    assert_eq!(clamped(3000.0, 1300.0, 6400.0).message(), "3000 RPM");
    assert_eq!(num(effective_safe_min(flt(1300.0), Some(flt(2000.0)))), 2000.0);
    assert_eq!(num(effective_safe_min(flt(1300.0), Some(flt(f32::INFINITY)))), 1300.0);
    assert_eq!(num(effective_safe_min(flt(1300.0), None)), 1300.0);
}

#[test]
fn clamped_speeds_stay_in_the_envelope() {
    for k in 0..2000u32 {
        let raw = f32::from_bits(k.wrapping_mul(2_654_435_761));
        let rpm = clamped(raw, 1300.0, 6400.0).value();
        assert!((1300..=6400).contains(&rpm), "{raw} gave {rpm}");
    }
}

fn tick(s: &mut FanControlState, temps: &[f32], drops: &[bool], dt: f32, now: u64) -> f32 {
    let bp = points(&[(50.0, 2317), (65.0, 3500), (75.0, 5000), (85.0, 6550)]);
    let target = s.tick(
        &flts(temps),
        drops,
        FusionMode::Max,
        &bp,
        flt(1.0),
        flt(1.0),
        flt(2.0),
        flt(600.0),
        flt(95.0),
        10,
        flt(dt),
        now,
        None,
    );
    num(target)
}

fn fresh(actual: f32, temp: f32) -> FanControlState {
    FanControlState::new(0, flt(MIN), flt(MAX), flt(actual), flt(temp))
}

#[test]
fn a_hot_fan_follows_its_curve_at_once() {
    let mut s = fresh(2317.0, 40.0);
    assert_eq!(tick(&mut s, &[75.0], &[false], 0.5, NOW), 5000.0);
}

#[test]
fn a_cooling_fan_ramps_down_slowly() {
    let mut s = fresh(5000.0, 75.0);
    assert_eq!(tick(&mut s, &[40.0], &[false], 0.5, NOW), 4700.0);
    assert_eq!(tick(&mut s, &[40.0], &[false], 0.5, NOW + SECOND), 4400.0);
}

#[test]
fn takeover_is_bumpless() {
    let mut s = fresh(3210.0, 60.0);
    assert_eq!(tick(&mut s, &[60.0], &[false], 0.5, NOW), 3210.0);
    s.reinit_bumpless(flt(2900.0), flt(55.0));
    assert_eq!(tick(&mut s, &[55.0], &[false], 0.5, NOW + SECOND), 2900.0);
}

#[test]
fn panic_commands_the_maximum() {
    let mut s = fresh(2317.0, 40.0);
    tick(&mut s, &[96.0], &[false], 0.5, NOW);
    assert_eq!(tick(&mut s, &[96.0], &[false], 0.5, NOW + SECOND), MAX);
    assert_eq!(tick(&mut s, &[40.0], &[false], 0.5, NOW + 2 * SECOND), MAX);
}

#[test]
fn blind_fans_run_at_the_maximum() {
    let mut s = fresh(2317.0, 40.0);
    let mut last = 0.0;
    for k in 0..70 {
        last = tick(&mut s, &[f32::NAN], &[true], 0.5, NOW + k * SECOND);
    }
    assert_eq!(last, MAX);
}

#[test]
fn targets_stay_in_the_envelope() {
    let mut s = fresh(2317.0, 40.0);
    for k in 0..500u64 {
        let temp = ((k * 37) % 110) as f32;
        let target = tick(&mut s, &[temp], &[k % 7 == 0], 0.5, NOW + k * SECOND);
        assert!((MIN..=MAX).contains(&target), "{target}");
    }
}

#[test]
fn latencies_are_counted_in_buckets() {
    let mut d = DaemonState::new(0, false, false, false, false, 0);
    for us in [50, 99, 100, 999, 5_000, 50_000, 500_000, 5_000_000] {
        d.record_latency(us);
    }
    assert_eq!(d.tick_latency_us.iter().sum::<u64>(), 8);
    assert_eq!(d.tick_latency_us[0], 2);
    assert_eq!(d.tick_latency_us[1], 2);
    d.tick_latency_us[0] = u64::MAX;
    d.record_latency(1);
    assert_eq!(d.tick_latency_us[0], u64::MAX);
}
