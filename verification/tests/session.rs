use fand::correlation::SessionId;
use fand::flt::Flt;
use fand::smc::error::SmcError;
use fand::smc::selftest::{
    classify_fan, classify_iteration, median_f32, IterationSample, SelftestReport, SelftestResult,
    DELTA_THRESHOLD_BITS,
};
use fand::smc::signal::{
    on_signal, stderr_is_trusted, teardown_exit_code, FileStatus, Signal, SignalAction,
    SignalThreadState,
};
use fand::smc::single_instance::{
    check_filesystem, classify_open_error, flock_error_to_smc_error, holder_pid_in,
    lockfile_contents, FlockError, ELOOP,
};
use fand::smc::types::{
    decode_flt, decode_ui32, decode_ui8, encode_flt, encode_ui32, encode_ui8, SmcValueError,
};
use fand::smc::unlock::{watchdog_step, DiagnosticUnlockSession, ReleaseFlag, WatchdogStep};

fn flt(x: f32) -> Flt {
    Flt { bits: x.to_bits() }
}

fn num(v: Flt) -> f32 {
    f32::from_bits(v.bits)
}

fn flts(xs: &[f32]) -> Vec<Flt> {
    xs.iter().map(|x| flt(*x)).collect()
}

fn med(xs: &[f32]) -> f32 {
    num(median_f32(&flts(xs)))
}

fn iteration(n: u8, auto: Vec<f32>, min: Vec<f32>) -> IterationSample {
    classify_iteration(n, flts(&auto), flts(&min))
}

fn encode(v: f32) -> Result<[u8; 4], SmcValueError> {
    encode_flt(flt(v))
}

#[test]
fn median_odd_count() {
    assert_eq!(med(&[3.0, 1.0, 2.0]), 2.0);
    assert_eq!(med(&[5.0]), 5.0);
    assert_eq!(med(&[1.0, 2.0, 3.0, 4.0, 5.0]), 3.0);
}

#[test]
fn median_even_count() {
    assert_eq!(med(&[1.0, 2.0, 3.0, 4.0]), 2.5);
    assert_eq!(med(&[10.0, 20.0]), 15.0);
}

#[test]
fn median_empty_returns_zero() {
    assert_eq!(med(&[]), 0.0);
}

#[test]
fn median_handles_outlier() {
    // Median is robust to a single outlier; mean would be skewed.
    assert_eq!(
        med(&[2300.0, 2310.0, 2320.0, 2330.0, 9999.0]),
        2320.0
    );
}

#[test]
fn classify_iteration_computes_delta() {
    let s = iteration(
        0,
        vec![5000.0, 5100.0, 4900.0],
        vec![2300.0, 2320.0, 2310.0],
    );
    assert_eq!(s.iteration, 0);
    assert_eq!(num(s.auto_median), 5000.0);
    assert_eq!(num(s.min_median), 2310.0);
    assert_eq!(num(s.delta_rpm), 2690.0);
}

#[test]
fn classify_fan_pass_when_delta_above_threshold() {
    let samples = vec![iteration(
        0,
        vec![5000.0, 5050.0, 5100.0],
        vec![2310.0, 2320.0, 2330.0],
    )];
    let report = classify_fan(0, 5, 5, 30, 0, samples);
    assert_eq!(report.result, SelftestResult::Pass);
    assert!(num(report.delta_rpm) >= f32::from_bits(DELTA_THRESHOLD_BITS));
}

#[test]
fn classify_fan_inconclusive_when_delta_below_threshold() {
    let samples = vec![iteration(
        0,
        vec![2400.0, 2400.0, 2400.0],
        vec![2300.0, 2300.0, 2300.0],
    )];
    let report = classify_fan(0, 5, 5, 30, 0, samples);
    assert_eq!(report.result, SelftestResult::Inconclusive);
    assert!(num(report.delta_rpm) < f32::from_bits(DELTA_THRESHOLD_BITS));
}

#[test]
fn classify_fan_fail_on_mismatch() {
    let samples = vec![];
    let report = classify_fan(0, 5, 5, 30, 1, samples);
    assert_eq!(report.result, SelftestResult::Fail);
}

#[test]
fn classify_fan_fail_on_incomplete_iterations() {
    let samples = vec![];
    let report = classify_fan(0, 3, 5, 30, 0, samples);
    assert_eq!(report.result, SelftestResult::Fail);
}

#[test]
fn selftest_result_exit_codes_match_fr039() {
    assert_eq!(SelftestResult::Pass.exit_code(), 0);
    assert_eq!(SelftestResult::Fail.exit_code(), 1);
    assert_eq!(SelftestResult::Inconclusive.exit_code(), 3);
    assert_eq!(SelftestResult::WatchdogTimeout.exit_code(), 4);
    assert_eq!(SelftestResult::ConflictDetected.exit_code(), 5);
}

#[test]
fn selftest_report_aggregates_fail_when_any_mismatch() {
    let pass_fan = classify_fan(
        0,
        5,
        5,
        30,
        0,
        vec![iteration(0, vec![5000.0], vec![2300.0])],
    );
    let fail_fan = classify_fan(1, 5, 5, 30, 1, vec![]);
    let report = SelftestReport::classify(vec![pass_fan, fail_fan], 15_000);
    assert_eq!(report.overall_result, SelftestResult::Fail);
    assert_eq!(report.total_mismatches, 1);
}

#[test]
fn selftest_report_aggregates_inconclusive_dominates_pass() {
    // If any fan is inconclusive, the overall result is inconclusive
    // even if other fans pass.
    let pass = classify_fan(
        0,
        5,
        5,
        30,
        0,
        vec![iteration(0, vec![5000.0], vec![2300.0])],
    );
    let inconclusive = classify_fan(
        1,
        5,
        5,
        30,
        0,
        vec![iteration(0, vec![2400.0], vec![2300.0])],
    );
    let report = SelftestReport::classify(vec![pass, inconclusive], 15_000);
    assert_eq!(report.overall_result, SelftestResult::Inconclusive);
}

#[test]
fn an_incomplete_fan_fails_the_whole() {
    let pass = classify_fan(0, 5, 5, 30, 0, vec![iteration(0, vec![5000.0], vec![2300.0])]);
    let cut_short = classify_fan(1, 2, 5, 12, 0, vec![iteration(0, vec![5000.0], vec![2300.0])]);
    let report = SelftestReport::classify(vec![pass, cut_short], 15_000);
    assert_eq!(report.total_mismatches, 0);
    assert_eq!(report.overall_result, SelftestResult::Fail);
    let first = report.narrowed(Some(0));
    assert_eq!(first.overall_result, SelftestResult::Pass);
    assert_eq!((first.per_fan.len(), first.total_iterations, first.wall_clock_ms), (1, 5, 15_000));
}

#[test]
fn flt_round_trip() {
    let values: &[f32] = &[0.0, 1.0, -1.0, 72.5, 6400.0, f32::MIN_POSITIVE, f32::MAX];
    for &v in values {
        let encoded = encode(v).expect("encode");
        let decoded = num(decode_flt(&encoded, 4).expect("decode"));
        assert!(
            (decoded - v).abs() < f32::EPSILON || decoded == v,
            "round-trip failed for {v}"
        );
    }
}

#[test]
fn flt_rejects_nan() {
    let nan_bytes = f32::NAN.to_le_bytes();
    assert!(matches!(
        decode_flt(&nan_bytes, 4),
        Err(SmcValueError::InvalidFloat)
    ));
    assert!(matches!(
        encode(f32::NAN),
        Err(SmcValueError::InvalidFloat)
    ));
}

#[test]
fn flt_rejects_infinity() {
    let inf_bytes = f32::INFINITY.to_le_bytes();
    assert!(matches!(
        decode_flt(&inf_bytes, 4),
        Err(SmcValueError::InvalidFloat)
    ));
    assert!(matches!(
        encode(f32::INFINITY),
        Err(SmcValueError::InvalidFloat)
    ));
    assert!(matches!(
        encode(f32::NEG_INFINITY),
        Err(SmcValueError::InvalidFloat)
    ));
}

#[test]
fn flt_wrong_size() {
    assert!(matches!(
        decode_flt(&[0; 32], 2),
        Err(SmcValueError::SizeMismatch {
            expected: 4,
            got: 2
        })
    ));
}

#[test]
fn ui8_round_trip() {
    for v in [0u8, 1, 127, 255] {
        let encoded = encode_ui8(v);
        let decoded = decode_ui8(&encoded, 1).expect("decode");
        assert_eq!(decoded, v);
    }
}

#[test]
fn ui32_round_trip_be() {
    for v in [0u32, 1, 0xDEAD_BEEF, u32::MAX] {
        let encoded = encode_ui32(v);
        let decoded = decode_ui32(&encoded, 4).expect("decode");
        assert_eq!(decoded, v);
    }
}

#[test]
fn ui32_ground_truth_endianness() {
    // [0x00, 0x00, 0x02, 0x34]:
    // - BE decode: 0x0000_0234 == 564
    // - LE decode: 0x3402_0000 == 872_546_304
    let bytes = [0x00_u8, 0x00, 0x02, 0x34];
    let decoded = decode_ui32(&bytes, 4).expect("decode");
    assert_eq!(decoded, 564, "decode_ui32 must be big-endian");
}

#[test]
fn flt_property_based() {
    let mut rng_state: u32 = 0xDEAD_BEEF;
    for _ in 0..10_000 {
        rng_state ^= rng_state << 13;
        rng_state ^= rng_state >> 17;
        rng_state ^= rng_state << 5;
        let bits = rng_state;
        let val = f32::from_bits(bits);
        if val.is_nan() || val.is_infinite() {
            assert!(encode(val).is_err());
            continue;
        }
        let encoded = encode(val).expect("encode");
        let decoded = num(decode_flt(&encoded, 4).expect("decode"));
        assert_eq!(
            decoded.to_bits(),
            val.to_bits(),
            "round-trip failed for bits {bits:#010X}"
        );
    }
}

#[test]
fn values_have_their_sizes() {
    assert_eq!(decode_ui8(&[7], 2), Err(SmcValueError::SizeMismatch { expected: 1, got: 2 }));
    assert_eq!(decode_ui32(&[0, 0, 1, 0], 4), Ok(256));
    assert_eq!(
        decode_ui32(&[0, 0, 1, 0], 3),
        Err(SmcValueError::SizeMismatch { expected: 4, got: 3 })
    );
    assert_eq!(SmcValueError::InvalidFloat.message(), "NaN or infinity in flt decode");
    assert!(SmcValueError::SizeMismatch { expected: 4, got: 2 }.message().contains('2'));
}

#[test]
fn medians_of_strange_values() {
    assert_eq!(med(&[f32::INFINITY, 1.0, 2.0]), 2.0);
    assert_eq!(med(&[-3.0, -1.0, -2.0]), -2.0);
    assert_eq!(med(&[7.0, 7.0]), 7.0);
}

const MS: u64 = 1_000_000;
const START: u64 = 1_700_000_000_000 * MS;

fn fresh_session() -> DiagnosticUnlockSession {
    let id = SessionId::new(1_700_000_000_000, [0; 10]);
    DiagnosticUnlockSession::new(id, 0, START)
}

#[test]
fn new_session_not_released() {
    let session = fresh_session();
    assert!(!session.released);
}

#[test]
fn heartbeat_updates_elapsed() {
    let mut session = fresh_session();
    let initial = session.ms_since_last_heartbeat(START);
    let after_sleep = session.ms_since_last_heartbeat(START + 50 * MS);
    assert!(after_sleep >= 50, "elapsed should grow, got {after_sleep}");

    session.heartbeat(START + 50 * MS);
    let after_heartbeat = session.ms_since_last_heartbeat(START + 51 * MS);
    assert!(after_heartbeat < 50, "heartbeat should reset elapsed, got {after_heartbeat}");
    assert!(initial <= after_sleep);
}

#[test]
fn watchdog_not_fired_immediately() {
    let session = fresh_session();
    assert!(!session.watchdog_fired(START));
}

#[test]
fn watchdog_fires_at_its_deadline() {
    let session = fresh_session();
    assert!(!session.watchdog_fired(START + 3999 * MS));
    assert!(session.watchdog_fired(START + 4000 * MS));
    assert_eq!(watchdog_step(false, false, START, START + 4000 * MS), WatchdogStep::Fire);
    assert_eq!(watchdog_step(false, false, START, START + 250 * MS), WatchdogStep::Wait);
    assert_eq!(watchdog_step(true, false, START, START + 9000 * MS), WatchdogStep::Exit);
    assert_eq!(watchdog_step(false, true, START, START + 9000 * MS), WatchdogStep::Exit);
    assert_eq!(watchdog_step(false, false, START, START - 1), WatchdogStep::Wait);
}

#[test]
fn try_begin_release_is_one_shot() {
    let mut session = fresh_session();
    let mut flag = ReleaseFlag::new();
    assert!(session.try_begin_release(&mut flag), "first call must win");
    assert!(!session.try_begin_release(&mut flag), "second call must lose");
    assert!(!session.try_begin_release(&mut flag), "third call must lose");
}

#[test]
fn shared_release_flag_coordinates_across_holders() {
    let mut flag = ReleaseFlag::new();
    let mut main_session = fresh_session();

    assert!(main_session.try_begin_release(&mut flag));

    let signal_won = flag.claim();
    assert!(!signal_won, "signal thread must lose after main wins");
}

#[test]
fn release_in_progress_handle_shares_state() {
    let mut session = fresh_session();
    let mut flag = ReleaseFlag::new();
    assert!(!flag.is_claimed());
    assert!(flag.claim());
    assert!(flag.is_claimed());
    assert!(!session.try_begin_release(&mut flag));
}

#[test]
fn session_id_is_stable_across_calls() {
    let session = fresh_session();
    let id1 = session.session_id();
    let id2 = session.session_id();
    assert_eq!(id1, id2);
}

#[test]
fn the_watchdog_starts_once() {
    let mut session = fresh_session();
    assert!(session.start_watchdog());
    assert!(!session.start_watchdog());
    session.stop_watchdog();
    assert!(session.watchdog_stop && !session.watching);
    assert_eq!(session.acquired_elapsed(5), 5);
}

#[test]
fn flock_error_maps_to_smc_error() {
    let err = flock_error_to_smc_error(FlockError::AlreadyHeld { holder_pid: Some(1234) });
    assert!(matches!(err, SmcError::ConflictDetected { holder_pid: 1234, .. }));
    assert_eq!(err.error_code(), "CONFLICT_DETECTED");
}

#[test]
fn flock_symlink_rejection_maps_to_conflict() {
    let err = flock_error_to_smc_error(FlockError::SymlinkRejected);
    let msg = err.message();
    assert!(msg.contains("symlink"), "diagnostic must mention symlink");
}

#[test]
fn flock_nfs_rejection_maps_to_conflict() {
    let err = flock_error_to_smc_error(FlockError::UnreliableFilesystem("nfs".to_string()));
    let msg = err.message();
    assert!(msg.contains("nfs"));
    assert!(msg.contains("unreliable") || msg.contains("FR-102"));
}

#[test]
fn other_lock_failures_are_conflicts_too() {
    let create = FlockError::CreateFailed { permission_denied: false, words: "why".into() };
    assert!(flock_error_to_smc_error(create).message().contains("(create failed: why)"));
    let denied = FlockError::CreateFailed { permission_denied: true, words: "why".into() };
    assert_eq!(flock_error_to_smc_error(denied), SmcError::ServiceNotFound);
    assert_eq!(
        classify_open_error(ELOOP, false, "x".into()),
        FlockError::SymlinkRejected
    );
    assert_eq!(
        classify_open_error(2, true, "x".into()),
        FlockError::CreateFailed { permission_denied: true, words: "x".into() }
    );
}

#[test]
fn lock_files_hold_a_pid() {
    assert_eq!(lockfile_contents(4321), "4321\n");
    assert_eq!(holder_pid_in(&lockfile_contents(4321)), Some(4321));
    assert_eq!(holder_pid_in("  -7 \n"), Some(-7));
    assert_eq!(holder_pid_in("pid"), None);
    assert_eq!(holder_pid_in("99999999999"), None);
}

#[test]
fn locks_need_a_reliable_filesystem() {
    assert_eq!(check_filesystem("apfs"), Ok(()));
    for name in ["nfs", "smbfs", "msdos"] {
        assert_eq!(
            check_filesystem(name),
            Err(FlockError::UnreliableFilesystem(name.to_string()))
        );
    }
}

#[test]
fn stderr_is_trusted_returns_a_bool() {
    assert!(!stderr_is_trusted(None));
    let tty = FileStatus { is_tty: true, is_regular: false, uid: 501, mode: 0o666 };
    assert!(stderr_is_trusted(Some(tty)));
    let mine = FileStatus { is_tty: false, is_regular: true, uid: 0, mode: 0o600 };
    assert!(stderr_is_trusted(Some(mine)));
    let theirs = FileStatus { is_tty: false, is_regular: true, uid: 501, mode: 0o600 };
    assert!(!stderr_is_trusted(Some(theirs)));
}

#[test]
fn signal_thread_state_is_sendable() {
    fn assert_send<T: Send>() {}
    assert_send::<SignalThreadState>();
}

#[test]
fn signals_have_their_actions() {
    assert_eq!(on_signal(Signal::Term, false), SignalAction::Teardown);
    assert_eq!(on_signal(Signal::Int, true), SignalAction::Teardown);
    assert_eq!(on_signal(Signal::Hup, true), SignalAction::RequestReload);
    assert_eq!(on_signal(Signal::Info, true), SignalAction::Drain);
    assert_eq!(on_signal(Signal::Info, false), SignalAction::SuppressDrain);
    assert_eq!((teardown_exit_code(true), teardown_exit_code(false)), (0, 1));
}
