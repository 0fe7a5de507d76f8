//! Whole operations, against a machine that is played here.

use fand::cli::daemon::{
    apply_reload, begin, commit_tick, resume, Active, ReloadFailure,
};
use fand::cli::debug_write::run_debug_write;
use fand::cli::force::{self, ForceArgs, Forced};
use fand::cli::keys::{run_debug_open, run_default, run_json, Host};
use fand::cli::keyspace::{run_all_fan_keys, run_read_key};
use fand::cli::probe::{self, ProbeArgs};
use fand::cli::run::dry_run_tick;
use fand::cli::say::{Line, Outcome};
use fand::cli::selftest::{self, CliSelftestArgs};
use fand::cli::set::CliSetArgs;
use fand::config::schema::{
    default_config_version, default_fusion, default_log_level, default_lp_attenuation,
    default_panic_hold, default_panic_temp, default_poll_interval, default_ramp_down,
    default_socket_mode, default_socket_path, Config, FanBinding, SensorRef, ValidationError,
};
use fand::config::reload::ReloadError;
use fand::control::adapter::{AppleSiliconAdapter, AppleSiliconDecision};
use fand::control::control_loop::FanControlState;
use fand::control::state::ClampedRpm;
use fand::correlation::SessionId;
use fand::flt::Flt;
use fand::glyph::Glyph;
use fand::log::LogLevel;
use fand::smc::connection::SmcConnection;
use fand::smc::enumerate::enumerate_fans;
use fand::smc::error::{SmcError, K_IO_RETURN_BUSY, K_IO_RETURN_NOT_PRIVILEGED};
use fand::smc::exchange::{Exchange, Reply, Request};
use fand::smc::keys::{
    WritableKey, SMC_CMD_GET_KEY_FROM_IDX, SMC_CMD_GET_KEY_INFO, SMC_CMD_READ_KEY,
    SMC_CMD_WRITE_KEY, TYPE_FLT, TYPE_UI32, TYPE_UI8,
};
use fand::smc::panic_hook::{seal_for_panic, PanicSeal};
use fand::smc::param::SMCParamStruct;
use fand::smc::round_trip::{RoundTripOutcome, RoundTripRing};
use fand::smc::selftest::SelftestResult;
use fand::smc::single_instance::FlockError;
use fand::smc::unlock::ReleaseFlag;
use fand::smc::warning::Warning;
use fand::smc::write_session::{emergency_release, WriteSession};

fn flt(x: f32) -> Flt {
    Flt { bits: x.to_bits() }
}

fn num(v: Flt) -> f32 {
    f32::from_bits(v.bits)
}

fn key(name: &str) -> u32 {
    let b = name.as_bytes();
    u32::from_be_bytes([b[0], b[1], b[2], b[3]])
}

fn text(m: &[Glyph]) -> String {
    let mut s = String::new();
    for g in m {
        match g {
            Glyph::Text(t) => s.push_str(t),
            Glyph::Num { value, width, decimals } => {
                let (v, w) = (num(*value), usize::from(*width));
                match decimals {
                    Some(d) => s.push_str(&format!("{v:w$.d$}", d = usize::from(*d))),
                    None => s.push_str(&format!("{v}")),
                }
            }
            Glyph::Signed { value, width, decimals } => {
                let (v, w) = (num(*value), usize::from(*width));
                s.push_str(&format!("{v:>+w$.d$}", d = usize::from(*decimals)));
            }
        }
    }
    s
}

fn texts(lines: &[Line]) -> Vec<String> {
    lines.iter().map(|l| format!("{}{}", if l.err { "! " } else { "" }, text(&l.text))).collect()
}

fn told(o: &Outcome) -> (u8, Vec<String>) {
    (o.code, texts(&o.lines))
}

struct Key {
    name: u32,
    kind: u32,
    attributes: u8,
    value: Vec<u8>,
}

/// A machine with an SMC. The first fan runs at its minimum in mode 1, and at
/// 5000 otherwise, unless a firmware is played that follows other keys.
struct Machine {
    keys: Vec<Key>,
    writes: Vec<(u32, Vec<u8>)>,
    requests: Vec<Request>,
    clock: u64,
    open_kr: i32,
    guard_kr: i32,
    refused: Option<u32>,
    busy: u32,
    /// The key that moves the fan, besides its mode.
    follows: Option<u32>,
    deaf: bool,
}

impl Machine {
    fn new() -> Machine {
        let mut m = Machine {
            keys: Vec::new(),
            writes: Vec::new(),
            requests: Vec::new(),
            clock: 1_700_000_000_000_000_000,
            open_kr: 0,
            guard_kr: 0,
            refused: None,
            busy: 0,
            follows: None,
            deaf: false,
        };
        m.put("#KEY", TYPE_UI32, 0x80, vec![0, 0, 0, 14]);
        m.put("FNum", TYPE_UI8, 0x80, vec![1]);
        for (name, v) in [
            ("F0Mn", 2317.0f32),
            ("F0Mx", 6550.0),
            ("F0Ac", 5000.0),
            ("F0Tg", 0.0),
            ("F0Dc", 0.0),
            ("Tp0a", 45.0),
            ("Tf04", 60.0),
            ("Tf09", 72.5),
        ] {
            m.put(name, TYPE_FLT, 0xD0, v.to_le_bytes().to_vec());
        }
        m.put("F0md", TYPE_UI8, 0xD0, vec![0]);
        m.put("Ftst", TYPE_UI8, 0xD0, vec![0]);
        m.put("odd1", key("ch8*"), 0x80, vec![1, 2, 3]);
        m.put("huge", key("ch8*"), 0x80, vec![0; 100]);
        m
    }

    fn put(&mut self, name: &str, kind: u32, attributes: u8, value: Vec<u8>) {
        self.keys.push(Key { name: key(name), kind, attributes, value });
    }

    fn remove(&mut self, name: &str) {
        self.keys.retain(|k| k.name != key(name));
    }

    fn find(&self, name: u32) -> Option<&Key> {
        self.keys.iter().find(|k| k.name == name)
    }

    fn set_float(&mut self, name: &str, v: f32) {
        for k in &mut self.keys {
            if k.name == key(name) {
                k.value = v.to_le_bytes().to_vec();
            }
        }
    }

    fn float(&self, name: &str) -> f32 {
        let v = &self.find(key(name)).unwrap().value;
        f32::from_le_bytes([v[0], v[1], v[2], v[3]])
    }

    fn byte(&self, name: &str) -> u8 {
        self.find(key(name)).unwrap().value[0]
    }

    fn written(&self, name: &str) -> Vec<Vec<u8>> {
        self.writes.iter().filter(|w| w.0 == key(name)).map(|w| w.1.clone()).collect()
    }

    fn move_fan(&mut self, name: u32, value: &[u8]) {
        if self.deaf {
            return;
        }
        if name == key("F0md") {
            let v = if value[0] == 1 { self.float("F0Mn") } else { 5000.0 };
            self.set_float("F0Ac", v);
        } else if Some(name) == self.follows && name != key("F0Mn") {
            self.set_float("F0Ac", 3000.0);
        }
    }

    fn call(&mut self, p: &SMCParamStruct) -> SMCParamStruct {
        let mut r = SMCParamStruct::zeroed();
        if p.data8 == SMC_CMD_GET_KEY_FROM_IDX {
            match self.keys.get(p.data32 as usize) {
                Some(k) => r.key = k.name,
                None => r.result = 0x84,
            }
            return r;
        }
        let Some(k) = self.keys.iter().position(|k| k.name == p.key) else {
            r.result = 0x84;
            return r;
        };
        match p.data8 {
            SMC_CMD_GET_KEY_INFO => {
                r.key_info.data_size = self.keys[k].value.len() as u32;
                r.key_info.data_type = self.keys[k].kind;
                r.key_info.data_attributes = self.keys[k].attributes;
            }
            SMC_CMD_READ_KEY => {
                for (i, b) in self.keys[k].value.iter().take(32).enumerate() {
                    r.bytes[i] = *b;
                }
            }
            SMC_CMD_WRITE_KEY => {
                let size = p.key_info.data_size as usize;
                let value = p.bytes[..size].to_vec();
                self.writes.push((p.key, value.clone()));
                if self.refused == Some(p.key) {
                    r.result = 0x82;
                } else {
                    let big = p.key == key("F0Mn") || p.key == key("Tp0a");
                    self.keys[k].value = if big && size == 4 {
                        vec![value[3], value[2], value[1], value[0]]
                    } else {
                        value.clone()
                    };
                    self.move_fan(p.key, &value);
                }
            }
            other => panic!("command {other}"),
        }
        r
    }

    fn perform(&mut self, request: Request) -> Reply {
        self.requests.push(request);
        let mut r = Reply { kr: 0, value: 0, output: SMCParamStruct::zeroed() };
        match request {
            Request::FindService => r.value = 7,
            Request::ConformsTo(_) => r.value = 1,
            Request::OpenService(_) => {
                r.kr = self.open_kr;
                r.value = 42;
            }
            Request::Entropy => r.value = 0x0123_4567_89AB_CDEF,
            Request::GuardPort(..) => r.kr = self.guard_kr,
            Request::Call(_, p) => {
                if self.busy > 0 {
                    self.busy -= 1;
                    r.kr = K_IO_RETURN_BUSY;
                } else {
                    r.output = self.call(&p);
                }
            }
            Request::Sleep(ms) => self.clock += ms * 1_000_000,
            Request::Clock | Request::Timer => {
                self.clock += 1_000;
                r.value = self.clock;
            }
            _ => {}
        }
        r
    }

    fn sleeps(&self) -> Vec<u64> {
        self.requests
            .iter()
            .filter_map(|r| match r {
                Request::Sleep(ms) => Some(*ms),
                _ => None,
            })
            .collect()
    }

    fn warnings(&self) -> Vec<Warning> {
        self.requests
            .iter()
            .filter_map(|r| match r {
                Request::Warn(w) => Some(*w),
                _ => None,
            })
            .collect()
    }

    fn closed(&self) -> usize {
        self.requests.iter().filter(|r| matches!(r, Request::CloseService(_))).count()
    }
}

/// Runs an operation until every request has its reply.
fn drive<R>(m: &mut Machine, mut op: impl FnMut(&mut Exchange) -> R) -> R {
    let mut io = Exchange::new();
    loop {
        let r = op(&mut io);
        match io.pending() {
            None => return r,
            Some(request) => {
                let reply = m.perform(request);
                io.supply(reply);
            }
        }
    }
}

fn open(m: &mut Machine) -> SmcConnection {
    match drive(m, SmcConnection::open) {
        Ok(c) => c,
        Err(e) => panic!("{}", e.message()),
    }
}

fn with<R>(
    m: &mut Machine,
    c: &mut SmcConnection,
    mut op: impl FnMut(&mut SmcConnection, &mut Exchange) -> R,
) -> R {
    let mark = c.mark();
    drive(m, |io| {
        c.restore(&mark);
        op(c, io)
    })
}

fn acquire(m: &mut Machine) -> WriteSession {
    let id = SessionId::new(1_700_000_000_000, [1, 2, 3, 4, 5, 6, 7, 8, 9, 10]);
    let lock = "/var/run/fand-smc.lock".to_string();
    match drive(m, |io| WriteSession::acquire(id, Ok(lock.clone()), io)) {
        Ok((s, _, _)) => s,
        Err(e) => panic!("{}", e.message()),
    }
}

fn in_session<R>(
    m: &mut Machine,
    s: &mut WriteSession,
    mut op: impl FnMut(&mut WriteSession, &mut Exchange) -> R,
) -> R {
    let mark = s.mark();
    drive(m, |io| {
        s.restore(&mark);
        op(s, io)
    })
}

fn rpm(x: f32) -> ClampedRpm {
    ClampedRpm::new(flt(x), flt(2317.0), flt(6550.0), None)
}

fn words(xs: &[&str]) -> Vec<String> {
    xs.iter().map(|x| x.to_string()).collect()
}

#[test]
fn an_open_finds_guards_and_closes() {
    let mut m = Machine::new();
    let mut c = open(&mut m);
    assert!(c.is_open());
    assert!(m.requests.contains(&Request::GuardPort(42, 0x0123_4567_89AB_CDEF)));
    assert!(m.requests.contains(&Request::ReleaseService(7)));
    with(&mut m, &mut c, |c, io| c.close(io));
    assert!(!c.is_open());
    assert!(m.requests.contains(&Request::UnguardPort(42, 0x0123_4567_89AB_CDEF)));
    assert_eq!(m.closed(), 1);
    with(&mut m, &mut c, |c, io| c.close(io));
    assert_eq!(m.closed(), 1);
    let r = with(&mut m, &mut c, |c, io| c.read_f32(key("F0Ac"), io));
    assert_eq!(r, Err(SmcError::AlreadyClosed));
}

#[test]
fn an_open_that_fails_says_why() {
    let mut m = Machine::new();
    m.open_kr = K_IO_RETURN_NOT_PRIVILEGED;
    let r = drive(&mut m, SmcConnection::open);
    assert!(matches!(r, Err(SmcError::OpenFailed(K_IO_RETURN_NOT_PRIVILEGED))));
    assert!(m.requests.contains(&Request::ReleaseService(7)));
    assert_eq!(m.closed(), 0);
}

#[test]
fn values_are_read_by_their_types() {
    let mut m = Machine::new();
    let mut c = open(&mut m);
    assert_eq!(with(&mut m, &mut c, |c, io| c.read_f32(key("Tf09"), io)), Ok(flt(72.5)));
    assert_eq!(with(&mut m, &mut c, |c, io| c.read_u8(key("FNum"), io)), Ok(1));
    assert_eq!(with(&mut m, &mut c, |c, io| c.read_u32(key("#KEY"), io)), Ok(14));
    assert_eq!(
        with(&mut m, &mut c, |c, io| c.read_f32(key("FNum"), io)),
        Err(SmcError::TypeMismatch { fourcc: key("FNum"), expected: TYPE_FLT, got: TYPE_UI8 })
    );
    assert_eq!(
        with(&mut m, &mut c, |c, io| c.read_f32(key("none"), io)),
        Err(SmcError::KeyNotFound(key("none")))
    );
    m.set_float("Tf04", f32::NAN);
    assert_eq!(
        with(&mut m, &mut c, |c, io| c.read_f32(key("Tf04"), io)),
        Err(SmcError::InvalidFloat { fourcc: key("Tf04") })
    );
}

#[test]
fn data_size_clamp_defensive() {
    let mut m = Machine::new();
    let mut c = open(&mut m);
    let info = with(&mut m, &mut c, |c, io| c.read_key_info(key("huge"), io));
    assert_eq!(info.map(|i| i.data_size), Ok(32));
    let reported: u32 = 100;
    let clamped = reported.min(32);
    assert_eq!(clamped, 32);
    let bytes = [0u8; 32];
    let slice = &bytes[..clamped as usize];
    assert_eq!(slice.len(), 32);
}

#[test]
fn sizes_are_read_once() {
    let mut m = Machine::new();
    let mut c = open(&mut m);
    let _ = with(&mut m, &mut c, |c, io| c.read_f32(key("Tf04"), io));
    let before = m.requests.len();
    let _ = with(&mut m, &mut c, |c, io| c.read_f32(key("Tf04"), io));
    assert_eq!(m.requests.len(), before + 1);
}

#[test]
fn keys_with_one_slot_are_not_mixed_up() {
    let mut m = Machine::new();
    m.put("Tf0d", TYPE_FLT, 0xD0, 55.5f32.to_le_bytes().to_vec());
    m.put("Tf0t", TYPE_FLT, 0xD0, 44.5f32.to_le_bytes().to_vec());
    let mut s = acquire(&mut m);
    for (name, v) in [("Tf0d", 55.5), ("Tf0t", 44.5)] {
        let r = in_session(&mut m, &mut s, |s, io| s.connection_mut().read_f32(key(name), io));
        assert_eq!(r.map(num), Ok(v));
    }
    let r = in_session(&mut m, &mut s, |s, io| s.commit_set_fan(0, rpm(2317.0), io));
    assert_eq!(r, Ok(()));
    for (name, v) in [("Tf0d", 55.5), ("Tf0t", 44.5)] {
        let r = in_session(&mut m, &mut s, |s, io| s.connection_mut().read_f32(key(name), io));
        assert_eq!(r.map(num), Ok(v));
    }
    let before = m.writes.len();
    let text = in_session(&mut m, &mut s, |s, io| s.teardown(&mut ReleaseFlag::new(), io));
    assert!(text.unwrap().contains("# count=3 capacity=256"));
    assert!(m.writes[before..].contains(&(key("F0md"), vec![0])));
    assert!(m.writes[before..].contains(&(key("Ftst"), vec![0])));
}

#[test]
fn a_busy_machine_is_asked_again_once() {
    let mut m = Machine::new();
    let mut c = open(&mut m);
    m.busy = 1;
    assert_eq!(with(&mut m, &mut c, |c, io| c.read_u8(key("FNum"), io)), Ok(1));
    m.busy = 2;
    assert_eq!(
        with(&mut m, &mut c, |c, io| c.read_u8(key("F0md"), io)),
        Err(SmcError::Busy { retried: true })
    );
}

#[test]
fn a_number_is_written_and_read_back() {
    let mut m = Machine::new();
    let mut c = open(&mut m);
    let id = SessionId::new(1_700_000_000_000, [0; 10]);
    let duty = WritableKey::fan_target(0);
    let written = with(&mut m, &mut c, |c, io| {
        let mut ring = RoundTripRing::new(id);
        let r = c.write_f32_verified(&duty, flt(0.25), "duty", id, &mut ring, io);
        (r, ring.recent(1))
    });
    assert_eq!(written.0, Ok(()));
    assert_eq!(written.1.len(), 1);
    assert_eq!(written.1[0].fourcc, key("F0Dc"));
    assert!(written.1[0].outcome == RoundTripOutcome::Match);
    assert_eq!(m.writes, vec![(key("F0Dc"), 0.25f32.to_le_bytes().to_vec())]);

    let refused = with(&mut m, &mut c, |c, io| {
        let mut ring = RoundTripRing::new(id);
        let r = c.write_f32_verified(&duty, flt(f32::NAN), "duty", id, &mut ring, io);
        (r, ring.count())
    });
    assert_eq!(refused, (Err(SmcError::InvalidFloat { fourcc: key("F0Dc") }), 0));
    assert_eq!(m.writes.len(), 1);
}

#[test]
fn fans_are_found() {
    let mut m = Machine::new();
    let mut c = open(&mut m);
    let fans = with(&mut m, &mut c, enumerate_fans).unwrap();
    assert_eq!(fans.len(), 1);
    assert_eq!((num(fans[0].min_rpm), num(fans[0].max_rpm)), (2317.0, 6550.0));
    assert_eq!(fans[0].mode_key, key("F0md"));
    assert_eq!(fans[0].safe_rpm, None);
    assert!(m.writes.is_empty());
    m.remove("FNum");
    let mut c = open(&mut m);
    assert_eq!(with(&mut m, &mut c, enumerate_fans).unwrap(), vec![]);
}

#[test]
fn swapped_numbers_are_noticed() {
    let mut m = Machine::new();
    m.remove("#KEY");
    m.put("#KEY", TYPE_UI32, 0x80, vec![14, 0, 0, 0]);
    let mut c = open(&mut m);
    let r = with(&mut m, &mut c, enumerate_fans);
    assert_eq!(
        r,
        Err(SmcError::EndiannessUnplausible { fourcc: key("#KEY"), got: 0x0E00_0000 })
    );
}

#[test]
fn a_session_needs_the_lock() {
    let mut m = Machine::new();
    let id = SessionId::new(1, [0; 10]);
    let r = drive(&mut m, |io| {
        WriteSession::acquire(id, Err(FlockError::AlreadyHeld { holder_pid: Some(99) }), io)
    });
    match r {
        Err(SmcError::ConflictDetected { holder_pid, .. }) => assert_eq!(holder_pid, 99),
        _ => panic!("no conflict"),
    }
    assert!(m.requests.is_empty());
}

#[test]
fn a_commit_forces_the_minimum() {
    let mut m = Machine::new();
    let mut s = acquire(&mut m);
    let r = in_session(&mut m, &mut s, |s, io| s.commit_set_fan(0, rpm(2317.0), io));
    assert_eq!(r, Ok(()));
    assert_eq!((m.byte("Ftst"), m.byte("F0md")), (1, 1));
    assert!(m.requests.contains(&Request::StartWatchdog));
    assert_eq!(s.round_trips().count(), 2);
    for (k, v) in &m.writes {
        assert!(*k == key("Ftst") || *k == key("F0md"));
        assert!(v == &vec![0] || v == &vec![1]);
    }
}

#[test]
fn a_commit_far_from_the_minimum_is_refused() {
    let mut m = Machine::new();
    let mut s = acquire(&mut m);
    let r = in_session(&mut m, &mut s, |s, io| s.commit_set_fan(0, rpm(4000.0), io));
    match r {
        Err(SmcError::WriteRefused { fourcc, context, .. }) => {
            assert_eq!(fourcc, key("F0md"));
            assert_eq!(context, "apple_silicon_m_series_only_supports_min_mode");
        }
        other => panic!("{other:?}"),
    }
    assert!(m.written("F0md").is_empty());
    let r = in_session(&mut m, &mut s, |s, io| s.commit_set_fan(3, rpm(2317.0), io));
    assert_eq!(r, Err(SmcError::KeyNotFound(key("F3Tg"))));
}

#[test]
fn refused_writes_are_reported() {
    let mut m = Machine::new();
    m.refused = Some(key("F0md"));
    let mut s = acquire(&mut m);
    let r = in_session(&mut m, &mut s, |s, io| s.commit_set_fan(0, rpm(2317.0), io));
    assert!(matches!(r, Err(SmcError::WriteRefused { result_byte: 0x82, .. })), "{r:?}");
    let mut m = Machine::new();
    m.refused = Some(key("Ftst"));
    let mut s = acquire(&mut m);
    let r = in_session(&mut m, &mut s, |s, io| s.begin_diagnostic_unlock(io));
    assert!(matches!(r, Err(SmcError::UnlockRejected { result_byte: 0x82, .. })), "{r:?}");
}

#[test]
fn machines_without_the_unlock_key_are_served() {
    let mut m = Machine::new();
    m.remove("Ftst");
    let mut s = acquire(&mut m);
    let r = in_session(&mut m, &mut s, |s, io| s.commit_set_fan(0, rpm(2317.0), io));
    assert_eq!(r, Ok(()));
    assert_eq!(m.byte("F0md"), 1);
    assert_eq!(m.warnings(), vec![Warning::UnlockAbsent]);
    let _ = in_session(&mut m, &mut s, |s, io| s.commit_set_fan(0, rpm(2317.0), io));
    assert_eq!(m.warnings().len(), 1);
    assert_eq!(
        Warning::UnlockAbsent.message(),
        "Ftst diagnostic unlock key is absent on this SoC — \
         proceeding without unlock (feature 005 RD-01 fallback). \
         F<i>Md writes will surface SMC result 0x82 if a \
         different unlock mechanism is required."
    );
}

#[test]
fn a_port_without_a_guard_is_warned_of() {
    let mut m = Machine::new();
    m.guard_kr = 0x11;
    let mut c = open(&mut m);
    assert_eq!(m.warnings(), vec![Warning::Unguarded]);
    assert_eq!(Warning::Unguarded.level(), LogLevel::Warn);
    assert!(Warning::Unguarded.message().ends_with("per FR-073 documented fallback"));
    with(&mut m, &mut c, |c, io| c.close(io));
    assert!(!m.requests.iter().any(|r| matches!(r, Request::UnguardPort(..))));
}

#[test]
fn a_size_that_is_too_large_is_warned_of_once() {
    let mut m = Machine::new();
    let mut c = open(&mut m);
    let info = with(&mut m, &mut c, |c, io| c.read_key_info(key("huge"), io)).unwrap();
    assert_eq!(info.data_size, 32);
    let said = Warning::SizeClamped { fourcc: key("huge"), size: 100 };
    assert_eq!(m.warnings(), vec![said]);
    assert_eq!(said.message(), "SMC key huge reported data_size=100, clamped to 32");
    let _ = with(&mut m, &mut c, |c, io| c.read_key(key("huge"), io));
    assert_eq!(m.warnings().len(), 1);
    m.put("full", key("ch8*"), 0x80, vec![0; 32]);
    let _ = with(&mut m, &mut c, |c, io| c.read_key(key("full"), io));
    assert_eq!(m.warnings().len(), 1);
}

#[test]
fn every_verified_write_beats() {
    let mut m = Machine::new();
    let mut s = acquire(&mut m);
    let beats = |m: &Machine| {
        m.requests.iter().filter(|r| matches!(r, Request::Heartbeat(_))).count()
    };
    let _ = in_session(&mut m, &mut s, |s, io| s.commit_set_fan(0, rpm(2317.0), io));
    assert_eq!(beats(&m), 2);
    let first = m.requests.iter().position(|r| matches!(r, Request::Heartbeat(_))).unwrap();
    assert_eq!(m.requests[first + 1], Request::StartWatchdog);
    let _ = in_session(&mut m, &mut s, |s, io| s.commit_set_fan(0, rpm(2317.0), io));
    assert_eq!(beats(&m), 3);
    in_session(&mut m, &mut s, |s, io| s.heartbeat_unlock(io));
    assert_eq!(beats(&m), 4);
    assert_eq!(m.requests.last(), Some(&Request::Heartbeat(m.clock)));
}

#[test]
fn a_teardown_gives_everything_back_once() {
    let mut m = Machine::new();
    let mut s = acquire(&mut m);
    let _ = in_session(&mut m, &mut s, |s, io| s.commit_set_fan(0, rpm(2317.0), io));
    let mut flag = ReleaseFlag::new();
    let drained = in_session(&mut m, &mut s, |s, io| {
        flag = ReleaseFlag::new();
        s.teardown(&mut flag, io)
    });
    assert!(drained.is_some());
    assert_eq!((m.byte("Ftst"), m.byte("F0md")), (0, 0));
    assert!(m.requests.contains(&Request::StopWatchdog));
    assert_eq!(m.closed(), 1);
    let n = m.requests.len();
    let again = drive(&mut m, |io| s.teardown(&mut flag, io));
    assert_eq!(again, None);
    assert_eq!(m.requests.len(), n);
}

#[test]
fn an_emergency_release_reaches_every_fan() {
    let mut m = Machine::new();
    m.put("F1md", TYPE_UI8, 0xD0, vec![1]);
    let mut s = acquire(&mut m);
    let _ = in_session(&mut m, &mut s, |s, io| s.commit_set_fan(0, rpm(2317.0), io));
    let mut c = open(&mut m);
    let mut flag = ReleaseFlag::new();
    let won = with(&mut m, &mut c, |c, io| {
        flag = ReleaseFlag::new();
        emergency_release(c, &vec![0, 1], &mut flag, io)
    });
    assert!(won);
    assert_eq!((m.byte("F0md"), m.byte("F1md"), m.byte("Ftst")), (0, 0, 0));
    let n = m.requests.len();
    assert!(!drive(&mut m, |io| emergency_release(&mut c, &vec![0, 1], &mut flag, io)));
    assert_eq!(m.requests.len(), n);
}

#[test]
fn a_panic_gives_the_fans_back() {
    let mut m = Machine::new();
    let mut s = acquire(&mut m);
    let _ = in_session(&mut m, &mut s, |s, io| s.commit_set_fan(0, rpm(2317.0), io));
    let mut seal = PanicSeal::new();
    assert!(seal.connection().is_none());
    let c = open(&mut m);
    let mark = c.mark();
    seal_for_panic(&mut seal, c, vec![0]);
    let other = open(&mut m);
    seal_for_panic(&mut seal, other, vec![7, 8]);
    assert!(seal.begin());
    assert!(!seal.begin());
    drive(&mut m, |io| {
        if let Some(c) = seal.connection() {
            c.restore(&mark);
        }
        seal.give_back(io);
    });
    assert_eq!((m.byte("F0md"), m.byte("Ftst")), (0, 0));
    assert!(m.written("F7md").is_empty());
}

#[test]
fn a_self_test_passes_where_the_fan_moves() {
    let mut m = Machine::new();
    let mut s = acquire(&mut m);
    let report = in_session(&mut m, &mut s, |s, io| s.run_selftest(2, io)).unwrap();
    assert_eq!(report.overall_result, SelftestResult::Pass);
    assert_eq!(report.total_iterations, 2);
    assert_eq!(report.total_round_trips, 4);
    assert_eq!(num(report.per_fan[0].delta_rpm), 2683.0);
    assert_eq!(m.written("F0md"), vec![vec![1], vec![0], vec![1], vec![0]]);
    let mut m = Machine::new();
    m.deaf = true;
    let mut s = acquire(&mut m);
    let report = in_session(&mut m, &mut s, |s, io| s.run_selftest(1, io)).unwrap();
    assert_eq!(report.overall_result, SelftestResult::Inconclusive);
}

#[test]
fn the_self_test_command_reports() {
    let mut m = Machine::new();
    let mut s = acquire(&mut m);
    let args = selftest::parse_args(&words(&["--iterations", "1"])).unwrap();
    let r = in_session(&mut m, &mut s, |s, io| selftest::run_with_code(&args, s, "0.1.0", io));
    assert_eq!(r.outcome.code, 0);
    assert!(texts(&r.outcome.lines).iter().any(|l| l.contains("PASS")), "{:?}", r.outcome);
    let json = CliSelftestArgs { target_fan: None, iterations: 1, json_output: true };
    let r = in_session(&mut m, &mut s, |s, io| selftest::run_with_code(&json, s, "0.1.0", io));
    let out = texts(&r.outcome.lines);
    assert!(out.iter().any(|l| l.contains("\"overall_result\":\"pass\"")), "{out:?}");
    let one = CliSelftestArgs { target_fan: Some(0), iterations: 1, json_output: false };
    let r = in_session(&mut m, &mut s, |s, io| selftest::run_with_code(&one, s, "0.1.0", io));
    assert_eq!(r.outcome.code, 0);
    assert!(texts(&r.outcome.lines).contains(&"  fans tested:       1".to_string()));
    let none = CliSelftestArgs { target_fan: Some(4), iterations: 1, json_output: false };
    let r = in_session(&mut m, &mut s, |s, io| selftest::run_with_code(&none, s, "0.1.0", io));
    assert_eq!(r.outcome.code, 64);
}

fn set_args(rpm: &str, mode: &str, json: bool) -> CliSetArgs {
    let mut args = words(&["--fan", "0", "--rpm", rpm, mode]);
    if json {
        args.push("--json".to_string());
    }
    fand::cli::set::parse_args(&args).unwrap()
}

#[test]
fn a_dry_set_writes_nothing() {
    let mut m = Machine::new();
    let mut s = acquire(&mut m);
    let n = m.requests.len();
    for json in [false, true] {
        let a = set_args("3000", "--dry-run", json);
        let r = in_session(&mut m, &mut s, |s, io| fand::cli::set::run_with_code(&a, s, None, "0.1.0", io));
        assert_eq!((r.outcome.code, r.hold), (0, false));
        assert!(texts(&r.outcome.lines).iter().any(|l| l.contains("3000")));
    }
    assert_eq!(m.requests.len(), n);
}

#[test]
fn a_committed_set_holds_the_fan() {
    let mut m = Machine::new();
    let mut s = acquire(&mut m);
    let a = set_args("100", "--commit", false);
    let r = in_session(&mut m, &mut s, |s, io| fand::cli::set::run_with_code(&a, s, None, "0.1.0", io));
    assert!(r.hold);
    assert_eq!(
        texts(&r.outcome.lines),
        vec![
            "! fand set: clamped 100.0 → 2317 RPM (fan 0 envelope [2317.0, 6550.0])".to_string(),
            format!("! fand set: committing 2317 RPM on fan 0 (session {})", s.session_id().as_str()),
            "! fand set: commit succeeded — holding override. Press Ctrl-C to release.".to_string(),
        ]
    );
    assert_eq!(m.byte("F0md"), 1);
    let a = set_args("5000", "--commit", false);
    let r = in_session(&mut m, &mut s, |s, io| fand::cli::set::run_with_code(&a, s, None, "0.1.0", io));
    assert!(!r.hold && r.outcome.code != 0);
}

#[test]
fn set_needs_a_fan_that_is_there() {
    let mut m = Machine::new();
    let mut s = acquire(&mut m);
    let mut a = set_args("3000", "--dry-run", false);
    a.fan_index = 2;
    let r = in_session(&mut m, &mut s, |s, io| fand::cli::set::run_with_code(&a, s, None, "0.1.0", io));
    assert_eq!(
        told(&r.outcome),
        (64, vec!["! fand set: --fan 2 is out of range (this machine has 1 fan)".to_string()])
    );
    m.remove("FNum");
    let mut s = acquire(&mut m);
    let r = in_session(&mut m, &mut s, |s, io| fand::cli::set::run_with_code(&a, s, None, "0.1.0", io));
    assert_eq!(r.outcome.code, 3);
}

fn host() -> Host {
    Host {
        version: "0.1.0".into(),
        macos: "15.0".into(),
        model: "Mac17,2".into(),
        arch: "arm64".into(),
    }
}

#[test]
fn the_catalogue_is_shown() {
    let mut m = Machine::new();
    let o = drive(&mut m, |io| run_default(&host(), io));
    assert_eq!(o.code, 0);
    assert!(texts(&o.lines).iter().any(|l| l.contains("2317") && l.contains("6550")));
    assert_eq!(m.written("Ftst"), vec![vec![0], vec![0]]);
    assert_eq!(m.closed(), 1);
    let mut m = Machine::new();
    let o = drive(&mut m, |io| run_json(&host(), io));
    assert_eq!(o.code, 0);
    assert!(texts(&o.lines)[0].starts_with("{\"schema_version\":1,\"fand_version\":\"0.1.0\""));
    assert!(m.writes.is_empty());
    let mut m = Machine::new();
    m.open_kr = K_IO_RETURN_NOT_PRIVILEGED;
    let o = drive(&mut m, |io| run_default(&host(), io));
    assert_ne!(o.code, 0);
}

#[test]
fn opening_can_be_tried() {
    let mut m = Machine::new();
    let o = drive(&mut m, run_debug_open);
    assert_eq!(told(&o), (0, words(&["fand keys --debug-open: IOServiceOpen success"])));
    m.open_kr = K_IO_RETURN_NOT_PRIVILEGED;
    assert_eq!(drive(&mut m, run_debug_open).code, 1);
}

#[test]
fn keys_of_fans_are_listed() {
    let mut m = Machine::new();
    let o = drive(&mut m, run_all_fan_keys);
    let lines = texts(&o.lines);
    assert_eq!(o.code, 0);
    assert_eq!(lines[0], "fand keys --all — 14 keys in SMC keyspace");
    assert!(lines.contains(&"matched: 8 F-prefixed keys".to_string()), "{lines:?}");
    assert!(!lines.iter().any(|l| l.contains("Tf04")));
    assert!(m.writes.is_empty());
}

#[test]
fn a_key_is_shown() {
    let mut m = Machine::new();
    let o = drive(&mut m, |io| run_read_key("#KEY", io));
    assert_eq!(
        told(&o),
        (0, words(&["fand keys --read #KEY: type=ui32 size=4", "  ui32 = 14 (0x0000000E)"]))
    );
    let o = drive(&mut m, |io| run_read_key("Tf09", io));
    let (code, lines) = told(&o);
    assert_eq!((code, lines[0].as_str()), (0, "fand keys --read Tf09: type=flt? size=4"));
    assert_eq!(lines[1], "  raw  = [00, 00, 91, 42]");
    assert_eq!(lines.last().unwrap(), "  flt  = 72.5");
    let o = drive(&mut m, |io| run_read_key("FNum", io));
    assert_eq!(
        told(&o),
        (
            0,
            words(&[
                "fand keys --read FNum: type=ui8? size=1",
                "  raw  = [01]",
                "  ui8  = 1 (0x01)",
            ])
        )
    );
    let o = drive(&mut m, |io| run_read_key("abc", io));
    assert_eq!(
        told(&o),
        (64, words(&["! fand keys --read: fourcc must be exactly 4 bytes"]))
    );
    let o = drive(&mut m, |io| run_read_key("none", io));
    assert_eq!(o.code, 1);
}

#[test]
fn a_key_can_be_written_for_debugging() {
    let mut m = Machine::new();
    let none: Result<Flt, String> = Err("no float".to_string());
    let o = drive(&mut m, |io| run_debug_write("F0md", "u8:1", &none, io));
    assert_eq!(m.byte("F0md"), 1, "{o:?}");
    assert_eq!(o.code, 0);
    let o = drive(&mut m, |io| run_debug_write("F0md", "u8:300", &none, io));
    assert_eq!(o.code, 64);
    let o = drive(&mut m, |io| run_debug_write("F0Tg", "f32:2500", &Ok(flt(2500.0)), io));
    assert_eq!(o.code, 0);
    assert_eq!(m.written("F0Tg"), vec![2500.0f32.to_le_bytes().to_vec()]);
}

fn fan_binding() -> FanBinding {
    FanBinding {
        index: 0,
        sensors: vec![SensorRef::Name("Tf04".into()), SensorRef::Smc { smc: "Tf09".into() }],
        fusion: default_fusion(),
        curve: vec![(flt(50.0), 2317), (flt(65.0), 3500), (flt(75.0), 5000), (flt(85.0), 6550)],
        hysteresis_up: flt(1.0),
        hysteresis_down: flt(2.0),
        smoothing_alpha: flt(1.0),
        ramp_down_rpm_per_s: default_ramp_down(),
        panic_temp_c: default_panic_temp(),
        panic_hold_s: default_panic_hold(),
        min_start_rpm: None,
        low_power_attenuation: None,
        ac: None,
        battery: None,
    }
}

#[test]
fn a_dry_tick_shows_and_writes_nothing() {
    let mut m = Machine::new();
    let fans = vec![fan_binding()];
    let mut c = open(&mut m);
    let mark = c.mark();
    let mut conn = Some(c);
    let mut adapters = vec![AppleSiliconAdapter::new()];
    let lines = drive(&mut m, |io| {
        if let Some(c) = &mut conn {
            c.restore(&mark);
        }
        adapters = vec![AppleSiliconAdapter::new()];
        dry_run_tick(&fans, &mut conn, &mut adapters, 3, false, "S", None, io)
    });
    assert_eq!(
        texts(&lines),
        words(&["[tick 3] fan 0 | temp=72.5°C | curve=4625 RPM | clamped=4625 RPM | mode=auto"])
    );
    assert!(m.writes.is_empty());
    let mut blind = None;
    let lines = drive(&mut m, |io| {
        dry_run_tick(&fans, &mut blind, &mut adapters, 4, true, "S", None, io)
    });
    let line = &texts(&lines)[0];
    assert!(line.contains("\"max_temp_c\":65.0") && line.contains("\"clamped_rpm\":3500"), "{line}");
}

struct Daemon {
    states: Vec<FanControlState>,
    adapters: Vec<AppleSiliconAdapter>,
}

fn tick(m: &mut Machine, s: &mut WriteSession, d: &mut Daemon, number: u64) -> Vec<String> {
    let fans = vec![fan_binding()];
    let (states, adapters) = (d.states.clone(), d.adapters.clone());
    let start = m.clock;
    m.clock += 500_000_000;
    let entries = in_session(m, s, |s, io| {
        d.states = states.clone();
        d.adapters = adapters.clone();
        commit_tick(&fans, number, start, None, s, &mut d.states, &mut d.adapters, io)
    });
    entries.iter().map(|e| e.text.clone()).collect()
}

#[test]
fn the_daemon_follows_its_curve() {
    let mut m = Machine::new();
    let mut s = acquire(&mut m);
    let fans = vec![fan_binding()];
    let states = in_session(&mut m, &mut s, |s, io| begin(&fans, s, io)).unwrap();
    assert!(m.writes.is_empty());
    assert_eq!(num(states[0].slew_limited_rpm), 5000.0);
    let mut d = Daemon { states, adapters: vec![AppleSiliconAdapter::new()] };
    let log = tick(&mut m, &mut s, &mut d, 0);
    assert!(log.is_empty(), "{log:?}");
    assert_eq!(d.adapters[0].current, AppleSiliconDecision::Auto);
    assert_eq!(m.written("F0md"), vec![vec![0]]);
    m.set_float("Tf04", 30.0);
    m.set_float("Tf09", 30.0);
    for k in 1..20 {
        let log = tick(&mut m, &mut s, &mut d, k);
        assert!(log.is_empty(), "{log:?}");
    }
    assert_eq!(d.adapters[0].current, AppleSiliconDecision::ForcedMinimum);
    assert_eq!(m.byte("F0md"), 1);
    m.set_float("Tf09", 80.0);
    tick(&mut m, &mut s, &mut d, 20);
    assert_eq!(d.adapters[0].current, AppleSiliconDecision::Auto);
    assert_eq!(m.byte("F0md"), 0);
    for (k, v) in &m.writes {
        assert!(*k == key("Ftst") || *k == key("F0md"));
        assert!(v == &vec![0] || v == &vec![1]);
    }
    let mut states = d.states.clone();
    in_session(&mut m, &mut s, |s, io| {
        states = d.states.clone();
        resume(&fans, s, &mut states, io);
    });
    assert_eq!(num(states[0].slew_limited_rpm), m.float("F0Ac"));
}

#[test]
fn a_forced_fan_stays_forced_in_the_deadband() {
    let mut m = Machine::new();
    let mut s = acquire(&mut m);
    let fans = vec![fan_binding()];
    let states = in_session(&mut m, &mut s, |s, io| begin(&fans, s, io)).unwrap();
    let mut d = Daemon { states, adapters: vec![AppleSiliconAdapter::new()] };
    m.set_float("Tf04", 30.0);
    m.set_float("Tf09", 30.0);
    for k in 0..20 {
        tick(&mut m, &mut s, &mut d, k);
    }
    assert_eq!(d.adapters[0].current, AppleSiliconDecision::ForcedMinimum);
    let before = m.written("F0md").len();
    m.set_float("Tf09", 54.0);
    let log = tick(&mut m, &mut s, &mut d, 20);
    assert!(log.is_empty(), "{log:?}");
    let rpm = num(d.states[0].slew_limited_rpm);
    assert!(rpm > 2317.0 + 0.05 * 4233.0 && rpm < 2317.0 + 0.10 * 4233.0, "{rpm}");
    assert_eq!(d.adapters[0].current, AppleSiliconDecision::ForcedMinimum);
    assert_eq!(m.written("F0md")[before..], [vec![1]]);
}

#[test]
fn the_daemon_logs_failures_and_goes_on() {
    let mut m = Machine::new();
    m.refused = Some(key("F0md"));
    let mut s = acquire(&mut m);
    let fans = vec![fan_binding()];
    let states = in_session(&mut m, &mut s, |s, io| begin(&fans, s, io)).unwrap();
    let mut d = Daemon { states, adapters: vec![AppleSiliconAdapter::new()] };
    let log = tick(&mut m, &mut s, &mut d, 7);
    assert_eq!(log.len(), 1);
    assert!(log[0].starts_with("tick 7 fan 0: write failed: "), "{}", log[0]);
}

#[test]
fn the_daemon_needs_its_fans() {
    let mut m = Machine::new();
    let mut s = acquire(&mut m);
    let mut f = fan_binding();
    f.index = 3;
    let r = in_session(&mut m, &mut s, |s, io| begin(&vec![f.clone()], s, io));
    assert_eq!(
        told(&r.unwrap_err()),
        (1, words(&["! fand run: fan index 3 not found on this machine"]))
    );
}

fn config(poll: u32) -> Config {
    Config {
        config_version: default_config_version(),
        poll_interval_ms: poll,
        log_level: default_log_level(),
        control_socket_path: default_socket_path(),
        control_socket_mode: default_socket_mode(),
        low_power_attenuation_default: default_lp_attenuation(),
        fan: vec![fan_binding()],
    }
}

#[test]
fn a_reload_that_fails_keeps_the_configuration() {
    let state =
        FanControlState::new(0, flt(2317.0), flt(6550.0), flt(3000.0), flt(60.0));
    let now = || Active::new(config(500), vec![state]);
    let new = config(default_poll_interval() * 2);

    let (next, why) = apply_reload(now(), Ok((new.clone(), Ok(vec![state, state]))));
    assert_eq!((next.config, next.states, why), (config(1000), vec![state, state], None));
    assert_eq!(next.adapters.len(), 1);
    assert_eq!(next.adapters[0].current, AppleSiliconDecision::Auto);

    let missing = Outcome { code: 1, lines: vec![] };
    let (next, why) = apply_reload(now(), Ok((new, Err(missing))));
    assert_eq!((next.config, next.states), (config(500), vec![state]));
    assert!(matches!(why, Some(ReloadFailure::NotTaken(o)) if o.code == 1));

    let bad = ReloadError::Load(ValidationError::FileTooLarge { size_bytes: 70000 });
    let (next, why) = apply_reload(now(), Err(bad));
    assert_eq!((next.config, next.states), (config(500), vec![state]));
    assert!(matches!(why, Some(ReloadFailure::Refused(ReloadError::Load(_)))));
}

fn probe_args(json: bool, enumerate: bool) -> ProbeArgs {
    ProbeArgs { settle_secs: 4, target_rpm: flt(0.0), json, enumerate }
}

#[test]
fn a_probe_tries_every_way_and_leaves_the_fan_alone() {
    let mut m = Machine::new();
    let o = drive(&mut m, |io| probe::execute(&probe_args(false, false), io));
    let lines = texts(&o.lines);
    assert_eq!(lines[0], "fand probe — fan 0 envelope min=2317 max=6550, target=3817, settle=4s");
    let rows: Vec<&String> = lines.iter().filter(|l| l.contains("true") || l.contains("false")).collect();
    assert_eq!(rows.len(), 5);
    assert!(rows[0].starts_with("F0Tg_direct ") && rows[0].contains("false"));
    assert!(rows[2].starts_with("F0md=1_then_F0Tg ") && rows[2].contains("true"));
    assert!(rows[3].starts_with("F0Mn_raise_then_F0md=1 ") && rows[3].contains("true"));
    assert_eq!(o.code, 0);
    assert_eq!(m.byte("F0md"), 0);
    assert_eq!(m.float("F0Mn"), 2317.0);
    assert_eq!(m.float("Tp0a"), 45.0);
    assert_eq!(m.writes.last(), Some(&(key("F0md"), vec![0])));
    assert_eq!(m.written("F0Tg")[0], 3817.0f32.to_be_bytes().to_vec());
    let duty = (3817.0f32 - 2317.0) / (6550.0 - 2317.0);
    assert_eq!(m.written("F0Dc")[0], duty.to_be_bytes().to_vec());
    assert_eq!(m.written("Tp0a")[0], 99.0f32.to_be_bytes().to_vec());
    assert_eq!(m.sleeps(), vec![2000, 4000, 2000, 4000, 2000, 4000, 2000, 4000, 2000, 4000]);
    assert_eq!(m.closed(), 1);
}

#[test]
fn a_probe_of_a_deaf_fan_finds_nothing() {
    let mut m = Machine::new();
    m.deaf = true;
    let o = drive(&mut m, |io| probe::execute(&probe_args(true, false), io));
    assert_eq!(o.code, 1);
    let line = texts(&o.lines).concat();
    assert!(line.starts_with("{\"min_rpm\":2317,\"max_rpm\":6550,\"target_rpm\":3817,\"settle_secs\":4,\"paths\":[{\"path\":\"F0Tg_direct\",\"ok\":true,\"error\":null,\"before\":5000,\"after\":5000,\"delta\":0,\"passed\":false},"), "{line}");
    assert!(line.ends_with("\"passed\":false}]}"));
}

#[test]
fn a_probe_finds_keys_that_may_be_written() {
    let mut m = Machine::new();
    let o = drive(&mut m, |io| probe::execute(&probe_args(false, true), io));
    let lines = texts(&o.lines);
    assert_eq!(lines[0], "fand probe --enumerate — 14 total keys, 10 writable");
    assert!(lines.contains(&"F0md         1 ui8    0xD0".to_string()), "{lines:?}");
    assert!(m.writes.is_empty());
    let o = drive(&mut m, |io| probe::execute(&probe_args(true, true), io));
    let line = texts(&o.lines).concat();
    assert!(line.starts_with("{\"total_keys\":14,\"writable\":[{\"fourcc\":\"F0Mn\",\"size\":4,\"type\":\"flt \",\"attrs\":\"0xD0\"},"), "{line}");
}

#[test]
fn a_probe_that_cannot_open_says_so() {
    let mut m = Machine::new();
    m.open_kr = K_IO_RETURN_NOT_PRIVILEGED;
    let o = drive(&mut m, |io| probe::execute(&probe_args(false, false), io));
    assert_eq!(o.code, 2);
    assert_eq!(texts(&o.lines)[1], "!   hint: run as root (sudo fand probe)");
    let mut m = Machine::new();
    m.remove("F0Mn");
    let o = drive(&mut m, |io| probe::execute(&probe_args(false, false), io));
    assert_eq!(told(&o), (1, words(&["! fand probe: read F0Mn failed: SMC key F0Mn not found"])));
}

fn forced(m: &mut Machine, json: bool) -> (Outcome, u64, Vec<String>) {
    let a = ForceArgs { target: Some(flt(3000.0)), settle_secs: 4, hold_secs: 10, json };
    let (mut conn, envelope) = match drive(m, |io| force::prepare(flt(3000.0), io)) {
        Ok(p) => p,
        Err(o) => panic!("{o:?}"),
    };
    let mut said = force::announce(&a, &envelope);
    let (baseline, attempts) =
        with(m, &mut conn, |c, io| force::attempt(&envelope, a.settle_secs, c, io));
    let mut f = Forced { conn, envelope, baseline, attempts };
    let (secs, more) = force::hold(&a, &f);
    said.extend(more);
    let mark = f.conn.mark();
    let o = drive(m, |io| {
        f.conn.restore(&mark);
        force::release(&mut f, json, io)
    });
    (o, secs, texts(&said))
}

#[test]
fn the_first_way_that_works_is_kept() {
    let mut m = Machine::new();
    m.follows = Some(key("F0Tg"));
    let (o, secs, said) = forced(&mut m, false);
    assert_eq!((o.code, secs), (0, 10));
    assert_eq!(
        said,
        words(&[
            "fand force-rpm — target=3000 (clamped to [2317, 6550]), settle=4s",
            "holding for 10s via path=F0Tg_direct — press Ctrl-C to exit early",
        ])
    );
    let lines = texts(&o.lines);
    assert_eq!(lines[1], "F0Tg_direct                after=  3000 delta=  -2000 HELD");
    assert_eq!(lines.last().unwrap(), "winner: F0Tg_direct");
    assert_eq!(m.byte("F0md"), 0);
    assert_eq!(m.closed(), 1);
}

#[test]
fn a_raised_floor_is_put_back() {
    let mut m = Machine::new();
    m.refused = Some(key("F0Tg"));
    let (o, secs, _) = forced(&mut m, true);
    assert_eq!((o.code, secs), (0, 10));
    let line = texts(&o.lines).concat();
    assert!(line.ends_with("],\"winner\":\"F0Mn_raise_then_F0md=1\"}"), "{line}");
    assert!(line.contains("{\"path\":\"F0Tg_direct\",\"ok\":false,\"error\":\""), "{line}");
    assert_eq!(m.float("F0Mn"), 2317.0);
    assert_eq!(m.byte("F0md"), 0);
    assert_eq!(
        m.written("F0Mn"),
        vec![3000.0f32.to_be_bytes().to_vec(), 2317.0f32.to_be_bytes().to_vec()]
    );
}

#[test]
fn nothing_moves_a_deaf_fan() {
    let mut m = Machine::new();
    m.deaf = true;
    let (o, secs, said) = forced(&mut m, false);
    assert_eq!((o.code, secs), (1, 0));
    assert_eq!(said.len(), 1);
    assert_eq!(texts(&o.lines).last().unwrap(), "no path moved the fan ≥ 500 RPM");
    assert_eq!(m.float("F0Mn"), 2317.0);
    assert_eq!(m.written("F0md").last(), Some(&vec![0]));
}
