//! The owner of the write path: one session at a time takes fans over and
//! gives them back.

use super::connection::{
    closing, opening, reading_f32, reading_u8, verifying_u8, writing_u8, Conn, ConnectionMark,
    SmcConnection,
};
use super::enumerate::{enumerate_fans, enumerating, Fan};
use super::error::SmcError;
use super::exchange::{Action, Dialog, Exchange, Request};
use super::keys::{
    fan_fourcc, fan_key_fourcc, fan_mode_fourcc, Target, WritableKey, KEY_FTST, LOWER_C, LOWER_D,
    LOWER_G, LOWER_M, UPPER_A, UPPER_T,
};
use super::round_trip::{
    drain_text, one_more, pushed, record_of, RoundTripOutcome, RoundTripRecord, RoundTripRing,
};
use super::selftest::{
    all_auto, all_min, classify_fan, classify_iteration, fan_verdict, iterations_of, median,
    mismatches_of, round_trips_of, IterationSample, SelftestFanReport,
    SelftestReport, SAMPLES_PER_HOLD, SAMPLE_INTERVAL_MS,
};
use super::single_instance::{flock_error_to_smc_error, reports_lock_failure, FlockError};
use super::unlock::{ms_between, DiagnosticUnlockSession, ReleaseFlag};
use super::warning::Warning;
use crate::control::adapter::ENGAGE_BITS;
use crate::control::state::ClampedRpm;
use crate::correlation::SessionId;
use crate::flt::{whole, Flt};
use vstd::prelude::*;

verus! {

/// A session that may write.
pub struct WriteSession {
    conn: SmcConnection,
    fan_envelopes: Vec<Fan>,
    lockfile_path: String,
    round_trips: RoundTripRing,
    unlock: Option<DiagnosticUnlockSession>,
    session_id: SessionId,
}

/// A state of a session to go back to.
pub struct SessionMark {
    conn: ConnectionMark,
    round_trips: RoundTripRing,
    unlock: Option<DiagnosticUnlockSession>,
}

impl SessionMark {
    /// The session that the mark was taken of.
    pub closed spec fn session(&self) -> SessionId {
        self.round_trips.session()
    }

    pub closed spec fn wf(&self) -> bool {
        self.round_trips.wf() && self.conn@.complete()
    }

    /// A session in the marked state.
    pub closed spec fn applied(&self, s: Session) -> Session {
        Session {
            conn: self.conn@,
            ring: self.round_trips@,
            taken: self.round_trips.taken(),
            unlock: self.unlock,
            ..s
        }
    }
}

/// The state of a session: its connection and fans, the last round trips and how
/// many there were, the unlock while it is held, and the correlation ID.
#[verifier::ext_equal]
pub struct Session {
    pub conn: Conn,
    pub fans: Seq<Fan>,
    pub ring: Seq<RoundTripRecord>,
    pub taken: u64,
    pub unlock: Option<DiagnosticUnlockSession>,
    pub id: SessionId,
}

/// The result byte with which a speed that the hardware cannot hold is refused.
pub const REFUSED_RESULT: u8 = 0x86;

/// A heartbeat, if an unlock is held. The watchdog is told of it.
pub open spec fn beating(s: Session, d: Dialog) -> (Session, Dialog) {
    match s.unlock {
        Some(u) => (
            Session {
                unlock: Some(
                    DiagnosticUnlockSession { last_heartbeat_ns: d.answer().value, ..u },
                ),
                ..s
            },
            d.after(Action::Clock).after(Action::Heartbeat(d.answer().value)),
        ),
        None => (s, d),
    }
}

/// From here on the unlock is held, with the watchdog running.
pub open spec fn holding(s: Session, d: Dialog) -> (Session, Dialog) {
    let d1 = d.after(Action::Clock);
    let d2 = d1.after(Action::Timer);
    let d3 = d2.after(Action::Clock);
    (
        Session {
            unlock: Some(
                DiagnosticUnlockSession {
                    session_id: s.id,
                    acquired_at: d1.answer().value,
                    last_heartbeat_ns: d2.answer().value,
                    released: false,
                    watching: true,
                    watchdog_stop: false,
                },
            ),
            ..s
        },
        d3.after(Action::Heartbeat(d2.answer().value)).after(Action::StartWatchdog),
    )
}

/// Taking the diagnostic unlock: write 1, read it back. A machine without the
/// key needs no unlock; that it is absent is warned of.
pub open spec fn unlocking(s: Session, d: Dialog) -> (Result<(), SmcError>, Session, Dialog) {
    if s.unlock is Some {
        (Ok(()), s, d)
    } else {
        let (w, c1, d1) = writing_u8(s.conn, Target::Unlock, 1, d);
        let s1 = Session { conn: c1, ..s };
        match w {
            Err(SmcError::KeyNotFound(_)) => {
                let (s2, d2) = holding(s1, d1.after(Action::Warn(Warning::UnlockAbsent)));
                (Ok(()), s2, d2)
            },
            Err(SmcError::SmcResult { cmd, result_byte }) => (
                Err(SmcError::UnlockRejected { result_byte, session: s.id }),
                s1,
                d1,
            ),
            Err(e) => (Err(e), s1, d1),
            Ok(_) => {
                let (r, c2, d2) = reading_u8(c1, KEY_FTST, d1);
                let s2 = Session { conn: c2, ..s };
                match r {
                    Err(e) => (Err(e), s2, d2),
                    Ok(got) => {
                        let now = d2.answer().value;
                        let d3 = d2.after(Action::Clock);
                        if got != 1 {
                            (
                                Err(
                                    SmcError::UnlockMismatch {
                                        expected: 1,
                                        got,
                                        session: s.id,
                                        timestamp_ns: now,
                                    },
                                ),
                                s2,
                                d3,
                            )
                        } else {
                            let one = seq![1u8];
                            let s3 = Session {
                                ring: pushed(
                                    s.ring,
                                    record_of(now, KEY_FTST, one, one, RoundTripOutcome::Match),
                                ),
                                taken: one_more(s.taken),
                                ..s2
                            };
                            let (s4, d4) = holding(s3, d3);
                            (Ok(()), s4, d4)
                        }
                    },
                }
            },
        }
    }
}

/// The target is within 5 % of the range of the minimum: the only speed that
/// the hardware can be held at.
pub open spec fn asks_for_minimum(fan: Fan, rpm: u32) -> bool {
    whole(rpm as nat).minus(fan.min_rpm).absolute().at_most(
        fan.max_rpm.minus(fan.min_rpm).times(Flt { bits: ENGAGE_BITS }),
    )
}

/// A verified write by a session.
pub open spec fn session_write(
    s: Session,
    key: Target,
    value: u8,
    context: &'static str,
    d: Dialog,
) -> (Result<(), SmcError>, Session, Dialog) {
    let v = verifying_u8(s.conn, key, value, context, s.id, d);
    (
        v.result,
        Session {
            conn: v.conn,
            ring: pushed(s.ring, v.record),
            taken: one_more(s.taken),
            ..s
        },
        v.dialog,
    )
}

/// Forcing a fan to its minimum: take the unlock, look at the fan, refuse every
/// other target, write the mode with a readback, and beat the heart.
pub open spec fn committing(s: Session, fan_index: u8, rpm: u32, d: Dialog) -> (
    Result<(), SmcError>,
    Session,
    Dialog,
) {
    if fan_index >= s.fans.len() {
        (Err(SmcError::KeyNotFound(fan_fourcc(fan_index, UPPER_T, LOWER_G))), s, d)
    } else {
        let (u, s1, d1) = unlocking(s, d);
        match u {
            Err(e) => (Err(e), s1, d1),
            Ok(_) => {
                let (_, c2, d2) = reading_f32(
                    s1.conn,
                    fan_fourcc(fan_index, UPPER_A, LOWER_C),
                    d1,
                );
                let s2 = Session { conn: c2, ..s1 };
                if !asks_for_minimum(s.fans[fan_index as int], rpm) {
                    (
                        Err(
                            SmcError::WriteRefused {
                                fourcc: fan_mode_fourcc(fan_index),
                                result_byte: REFUSED_RESULT,
                                context: "apple_silicon_m_series_only_supports_min_mode",
                                session: s.id,
                                timestamp_ns: d2.answer().value,
                            },
                        ),
                        s2,
                        d2.after(Action::Clock),
                    )
                } else {
                    let (w, s3, d3) = session_write(
                        s2,
                        Target::FanMode(fan_index),
                        1,
                        "fan_mode_force_min",
                        d2,
                    );
                    match w {
                        Err(e) => (Err(e), s3, d3),
                        Ok(_) => {
                            let (s4, d4) = beating(s3, d3);
                            (Ok(()), s4, d4)
                        },
                    }
                }
            },
        }
    }
}

/// Leaving a fan to the firmware: write the mode with a readback, and beat the
/// heart.
pub open spec fn returning(s: Session, fan_index: u8, d: Dialog) -> (
    Result<(), SmcError>,
    Session,
    Dialog,
) {
    if fan_index >= s.fans.len() {
        (Err(SmcError::KeyNotFound(fan_mode_fourcc(fan_index))), s, d)
    } else {
        let (w, s1, d1) = session_write(s, Target::FanMode(fan_index), 0, "fan_mode_auto", d);
        match w {
            Err(e) => (Err(e), s1, d1),
            Ok(_) => {
                let (s2, d2) = beating(s1, d1);
                (Ok(()), s2, d2)
            },
        }
    }
}

/// A reading, or zero where there is none.
pub open spec fn or_zero(r: Result<Flt, SmcError>) -> Flt {
    match r {
        Ok(v) => v,
        Err(_) => Flt { bits: 0 },
    }
}

/// Holding and reading: `n` times, wait and read the speed.
pub open spec fn sampling(c: Conn, key: u32, n: nat, taken: Seq<Flt>, d: Dialog) -> (
    Seq<Flt>,
    Conn,
    Dialog,
)
    decreases n,
{
    if n == 0 {
        (taken, c, d)
    } else {
        let (r, c1, d1) = reading_f32(c, key, d.after(Action::Sleep(SAMPLE_INTERVAL_MS)));
        sampling(c1, key, (n - 1) as nat, taken.push(or_zero(r)), d1)
    }
}

/// The readings of one iteration.
pub struct Readings {
    pub auto: Seq<Flt>,
    pub min: Seq<Flt>,
}

/// One half of an iteration: set the mode with a readback, beat, and read.
pub open spec fn testing_mode(
    s: Session,
    fan: u8,
    mode: u8,
    context: &'static str,
    d: Dialog,
) -> (Result<Seq<Flt>, SmcError>, Session, Dialog) {
    let (w, s1, d1) = session_write(s, Target::FanMode(fan), mode, context, d);
    match w {
        Err(e) => (Err(e), s1, d1),
        Ok(_) => {
            let (s2, d2) = beating(s1, d1);
            let (v, c3, d3) = sampling(
                s2.conn,
                fan_fourcc(fan, UPPER_A, LOWER_C),
                SAMPLES_PER_HOLD as nat,
                Seq::empty(),
                d2,
            );
            (Ok(v), Session { conn: c3, ..s2 }, d3)
        },
    }
}

/// The iterations `k` to `n` of a fan: forced minimum, then automatic mode.
pub open spec fn testing_fan(
    s: Session,
    fan: u8,
    k: nat,
    n: nat,
    taken: Seq<Readings>,
    d: Dialog,
) -> (Result<Seq<Readings>, SmcError>, Session, Dialog)
    decreases n - k,
{
    if k >= n {
        (Ok(taken), s, d)
    } else {
        let (low, s1, d1) = testing_mode(s, fan, 1, "selftest_force_min", d);
        match low {
            Err(e) => (Err(e), s1, d1),
            Ok(min) => {
                let (high, s2, d2) = testing_mode(s1, fan, 0, "selftest_return_auto", d1);
                match high {
                    Err(e) => (Err(e), s2, d2),
                    Ok(auto) => testing_fan(
                        s2,
                        fan,
                        k + 1,
                        n,
                        taken.push(Readings { auto, min }),
                        d2,
                    ),
                }
            },
        }
    }
}

/// The self test of the fans from the `i`-th on.
pub open spec fn testing_fans(
    s: Session,
    fans: Seq<Fan>,
    i: nat,
    n: nat,
    taken: Seq<Seq<Readings>>,
    d: Dialog,
) -> (Result<Seq<Seq<Readings>>, SmcError>, Session, Dialog)
    decreases fans.len() - i,
{
    if i >= fans.len() {
        (Ok(taken), s, d)
    } else {
        let (r, s1, d1) = testing_fan(s, fans[i as int].index, 0, n, Seq::empty(), d);
        match r {
            Err(e) => (Err(e), s1, d1),
            Ok(v) => testing_fans(s1, fans, i + 1, n, taken.push(v), d1),
        }
    }
}

/// The summary of an iteration is that of its readings.
pub open spec fn summarises(r: IterationSample, iteration: int, v: Readings) -> bool {
    &&& r.iteration == iteration
    &&& r.auto_samples@ == v.auto
    &&& r.min_samples@ == v.min
    &&& r.auto_median == median(v.auto)
    &&& r.min_median == median(v.min)
    &&& r.delta_rpm == median(v.auto).minus(median(v.min))
}

/// The report on a fan is that of its readings.
pub open spec fn reports(r: SelftestFanReport, fan: u8, iterations: u8, v: Seq<Readings>) -> bool {
    &&& r.fan_index == fan
    &&& r.iterations_completed == iterations
    &&& r.iterations_requested == iterations
    &&& r.round_trip_count == 2 * iterations
    &&& r.mismatch_count == 0
    &&& r.samples@.len() == v.len()
    &&& forall|k: int| 0 <= k < v.len() ==> summarises(#[trigger] r.samples@[k], k, v[k])
    &&& r.median_actual_at_min == median(all_min(r.samples@))
    &&& r.median_actual_at_auto == median(all_auto(r.samples@))
    &&& r.delta_rpm == r.median_actual_at_auto.minus(r.median_actual_at_min)
    &&& r.result == fan_verdict(iterations, iterations, 0, r.delta_rpm)
}

/// The self test of a session in the state `s` came to `r`, and left the state
/// `s1`: every fan is tested, and the report is that of its readings; the first
/// error ends the test.
pub open spec fn tested(
    s: Session,
    iterations: u8,
    d: Dialog,
    r: Result<SelftestReport, SmcError>,
    s1: Session,
    d1: Dialog,
) -> bool {
    let begun = d.answer().value;
    let (v, after, dn) = testing_fans(
        s,
        s.fans,
        0,
        iterations as nat,
        Seq::empty(),
        d.after(Action::Timer),
    );
    &&& s1 == after
    &&& match r {
        Ok(x) => {
            &&& d1 == dn.after(Action::Timer)
            &&& v is Ok
            &&& x.per_fan@.len() == s.fans.len()
            &&& v->Ok_0.len() == x.per_fan@.len()
            &&& forall|i: int|
                0 <= i < x.per_fan@.len() ==> reports(
                    #[trigger] x.per_fan@[i],
                    s.fans[i].index,
                    iterations,
                    v->Ok_0[i],
                )
            &&& x.consistent()
            &&& x.total_mismatches == 0
            &&& x.wall_clock_ms == ms_between(begun, dn.answer().value)
        },
        Err(e) => d1 == dn && v == Err::<Seq<Seq<Readings>>, SmcError>(e),
    }
}

/// Giving fans back, from the `i`-th on. An error does not stop it.
pub open spec fn releasing_fans(c: Conn, fans: Seq<Fan>, i: nat, d: Dialog) -> (Conn, Dialog)
    decreases fans.len() - i,
{
    if i >= fans.len() {
        (c, d)
    } else {
        let (_, c1, d1) = writing_u8(c, Target::FanMode(fans[i as int].index), 0, d);
        releasing_fans(c1, fans, i + 1, d1)
    }
}

/// Giving the unlock back, if it is held: stop the watchdog, write 0, read it
/// back. An error does not stop it.
pub open spec fn releasing_unlock(s: Session, d: Dialog) -> (Session, Dialog) {
    if s.unlock is None {
        (s, d)
    } else {
        let (_, s1, d1) = session_write(
            s,
            Target::Unlock,
            0,
            "diagnostic_unlock_release",
            d.after(Action::StopWatchdog),
        );
        (Session { unlock: None, ..s1 }, d1)
    }
}

/// The teardown: give every fan back, give the unlock back, write the unlock
/// once more without a readback, close.
pub open spec fn tearing_down(s: Session, d: Dialog) -> (Session, Dialog) {
    let (c1, d1) = releasing_fans(s.conn, s.fans, 0, d);
    let (s2, d2) = releasing_unlock(Session { conn: c1, ..s }, d1);
    let (_, c3, d3) = writing_u8(s2.conn, Target::Unlock, 0, d2);
    let (c4, d4) = closing(c3, d3);
    (Session { conn: c4, ..s2 }, d4)
}

/// What taking a session yields: three connections and the fans. A failure
/// closes what was opened, the last one first.
pub open spec fn acquiring(d: Dialog) -> (Result<(Conn, Conn, Conn, Seq<Fan>), SmcError>, Dialog) {
    let (main, d1) = opening(d);
    match main {
        Err(e) => (Err(e), d1),
        Ok(c1) => {
            let (teardown, d2) = opening(d1);
            match teardown {
                Err(e) => (Err(e), closing(c1, d2).1),
                Ok(c2) => {
                    let (panic, d3) = opening(d2);
                    match panic {
                        Err(e) => (Err(e), closing(c1, closing(c2, d3).1).1),
                        Ok(c3) => {
                            let (fans, c4, d4) = enumerating(c1, d3);
                            match fans {
                                Err(e) => (
                                    Err(e),
                                    closing(c4, closing(c2, closing(c3, d4).1).1).1,
                                ),
                                Ok(f) => (Ok((c4, c2, c3, f)), d4),
                            }
                        },
                    }
                },
            }
        },
    }
}

proof fn lemma_report_sums(s: Seq<SelftestFanReport>, iterations: u8)
    requires
        forall|i: int|
            0 <= i < s.len() ==> (#[trigger] s[i]).iterations_completed == iterations
                && s[i].round_trip_count == 2 * iterations && s[i].mismatch_count == 0,
    ensures
        iterations_of(s) <= 255 * s.len(),
        round_trips_of(s) <= 510 * s.len(),
        mismatches_of(s) == 0,
    decreases s.len(),
{
    if s.len() > 0 {
        let t = s.drop_last();
        assert forall|i: int| 0 <= i < t.len() implies (
        #[trigger] t[i]).iterations_completed == iterations && t[i].round_trip_count == 2
            * iterations && t[i].mismatch_count == 0 by {
            assert(t[i] == s[i]);
        }
        lemma_report_sums(t, iterations);
        assert(s.last() == s[s.len() - 1]);
    }
}

impl WriteSession {
    pub closed spec fn view(&self) -> Session {
        Session {
            conn: self.conn@,
            fans: self.fan_envelopes@,
            ring: self.round_trips@,
            taken: self.round_trips.taken(),
            unlock: self.unlock,
            id: self.session_id,
        }
    }

    /// The parts fit together, and there are as many fans as a byte can count.
    pub closed spec fn wf(&self) -> bool {
        &&& self.conn.wf()
        &&& self.round_trips.wf()
        &&& self.round_trips.session() == self.session_id
        &&& self.fan_envelopes@.len() <= 255
    }

    /// The path of the lock file.
    pub closed spec fn lock_path(&self) -> Seq<char> {
        self.lockfile_path@
    }

    /// Takes a session: with the lock in hand, opens the connections of the
    /// session, of the signal thread and of the panic hook, and finds the fans.
    pub fn acquire(
        session_id: SessionId,
        lock: Result<String, FlockError>,
        io: &mut Exchange,
    ) -> (r: Result<(WriteSession, SmcConnection, SmcConnection), SmcError>)
        ensures
            lock is Err ==> final(io)@ == old(io)@,
            lock is Err ==> r is Err && reports_lock_failure(lock->Err_0, r->Err_0),
            lock is Ok ==> final(io)@ == acquiring(old(io)@).1,
            lock is Ok ==> match r {
                Ok((s, teardown, panic)) => {
                    &&& s.wf() && teardown.wf() && panic.wf()
                    &&& s@.ring == Seq::<RoundTripRecord>::empty()
                    &&& s@.taken == 0
                    &&& s@.unlock is None
                    &&& s@.id == session_id
                    &&& s.lock_path() == lock->Ok_0@
                    &&& acquiring(old(io)@).0 == Ok::<(Conn, Conn, Conn, Seq<Fan>), SmcError>(
                        (s@.conn, teardown@, panic@, s@.fans),
                    )
                },
                Err(e) => acquiring(old(io)@).0 == Err::<(Conn, Conn, Conn, Seq<Fan>), SmcError>(
                    e,
                ),
            },
    {
        let path: String = match lock {
            Ok(p) => p,
            Err(e) => {
                return Err(flock_error_to_smc_error(e));
            },
        };
        let mut main_conn: SmcConnection = match SmcConnection::open(io) {
            Ok(c) => c,
            Err(e) => {
                return Err(e);
            },
        };
        let mut teardown_conn: SmcConnection = match SmcConnection::open(io) {
            Ok(c) => c,
            Err(e) => {
                main_conn.close(io);
                return Err(e);
            },
        };
        let mut panic_conn: SmcConnection = match SmcConnection::open(io) {
            Ok(c) => c,
            Err(e) => {
                teardown_conn.close(io);
                main_conn.close(io);
                return Err(e);
            },
        };
        let fan_envelopes: Vec<Fan> = match enumerate_fans(&mut main_conn, io) {
            Ok(f) => f,
            Err(e) => {
                panic_conn.close(io);
                teardown_conn.close(io);
                main_conn.close(io);
                return Err(e);
            },
        };
        let s: WriteSession = WriteSession {
            conn: main_conn,
            fan_envelopes,
            lockfile_path: path,
            round_trips: RoundTripRing::new(session_id),
            unlock: None,
            session_id,
        };
        Ok((s, teardown_conn, panic_conn))
    }

    /// The correlation ID.
    #[must_use]
    pub fn session_id(&self) -> (r: SessionId)
        ensures
            r == self@.id,
    {
        self.session_id
    }

    /// The fans.
    #[must_use]
    pub fn fans(&self) -> (r: &[Fan])
        ensures
            r@ == self@.fans,
    {
        self.fan_envelopes.as_slice()
    }

    /// The path of the lock file.
    #[must_use]
    pub fn lockfile_path(&self) -> (r: &str)
        ensures
            r@ == self.lock_path(),
    {
        self.lockfile_path.as_str()
    }

    /// The round trips of this session.
    #[must_use]
    pub fn round_trips(&self) -> (r: &RoundTripRing)
        requires
            self.wf(),
        ensures
            r.wf(),
            r@ == self@.ring,
            r.taken() == self@.taken,
            r.session() == self@.id,
    {
        &self.round_trips
    }

    /// How many fans there are.
    #[must_use]
    pub fn fan_count(&self) -> (r: usize)
        ensures
            r == self@.fans.len(),
    {
        self.fan_envelopes.len()
    }

    /// The fan with an index.
    #[must_use]
    pub fn fan_envelope(&self, index: u8) -> (r: Option<Fan>)
        ensures
            r == first_with_index(self@.fans, index, 0),
    {
        let mut i: usize = 0;
        while i < self.fan_envelopes.len()
            invariant
                i <= self.fan_envelopes@.len(),
                first_with_index(self@.fans, index, 0) == first_with_index(
                    self@.fans,
                    index,
                    i as nat,
                ),
            decreases self.fan_envelopes@.len() - i,
        {
            if self.fan_envelopes[i].index == index {
                return Some(self.fan_envelopes[i]);
            }
            i = i + 1;
        }
        None
    }

    /// Reads the speed of a fan.
    pub fn read_actual_rpm(&mut self, fan_index: u8, io: &mut Exchange) -> (r: Result<Flt, SmcError>)
        requires
            old(self).wf(),
        ensures
            final(self).wf(),
            ({
                let (v, c, d) = reading_f32(
                    old(self)@.conn,
                    fan_fourcc(fan_index, UPPER_A, LOWER_C),
                    old(io)@,
                );
                &&& r == v
                &&& final(io)@ == d
                &&& final(self)@ == (Session { conn: c, ..old(self)@ })
            }),
    {
        let fourcc: u32 = fan_key_fourcc(UPPER_A, LOWER_C, fan_index);
        self.conn.read_f32(fourcc, io)
    }

    /// The connection of the session, for reading sensors.
    pub fn connection_mut(&mut self) -> (r: &mut SmcConnection)
        requires
            old(self).wf(),
        ensures
            r@ == old(self)@.conn,
            r.wf(),
            final(self)@ == (Session { conn: final(r)@, ..old(self)@ }),
            final(r).wf() ==> final(self).wf(),
    {
        &mut self.conn
    }

    /// The state of the session, to run an operation again from here.
    pub fn mark(&self) -> (r: SessionMark)
        requires
            self.wf(),
        ensures
            r.wf(),
            r.session() == self@.id,
            r.applied(self@) == self@,
    {
        SessionMark {
            conn: self.conn.mark(),
            round_trips: self.round_trips.clone(),
            unlock: self.unlock,
        }
    }

    /// Goes back to an earlier state of this session.
    pub fn restore(&mut self, mark: &SessionMark)
        requires
            old(self).wf(),
            mark.wf(),
            mark.session() == old(self)@.id,
        ensures
            final(self).wf(),
            final(self)@ == mark.applied(old(self)@),
    {
        self.conn.restore(&mark.conn);
        self.round_trips = mark.round_trips.clone();
        self.unlock = mark.unlock;
    }

    /// A heartbeat, if an unlock is held.
    pub fn heartbeat(&mut self, io: &mut Exchange)
        requires
            old(self).wf(),
        ensures
            final(self).wf(),
            (final(self)@, final(io)@) == beating(old(self)@, old(io)@),
    {
        if let Some(mut u) = self.unlock {
            let now: u64 = io.ask(Request::Clock).value;
            u.heartbeat(now);
            let _ = io.ask(Request::Heartbeat(now));
            self.unlock = Some(u);
        }
    }

    /// A heartbeat without a write, while a fan is held.
    pub fn heartbeat_unlock(&mut self, io: &mut Exchange)
        requires
            old(self).wf(),
        ensures
            final(self).wf(),
            (final(self)@, final(io)@) == beating(old(self)@, old(io)@),
    {
        self.heartbeat(io);
    }

    fn write_verified(
        &mut self,
        key: &WritableKey,
        value: u8,
        context: &'static str,
        io: &mut Exchange,
    ) -> (r: Result<(), SmcError>)
        requires
            old(self).wf(),
        ensures
            final(self).wf(),
            (r, final(self)@, final(io)@) == session_write(
                old(self)@,
                key@,
                value,
                context,
                old(io)@,
            ),
    {
        self.conn.write_u8_verified(key, value, context, self.session_id, &mut self.round_trips, io)
    }

    /// Takes the diagnostic unlock. A held unlock is kept.
    pub fn begin_diagnostic_unlock(&mut self, io: &mut Exchange) -> (r: Result<(), SmcError>)
        requires
            old(self).wf(),
        ensures
            final(self).wf(),
            (r, final(self)@, final(io)@) == unlocking(old(self)@, old(io)@),
    {
        if self.unlock.is_some() {
            return Ok(());
        }
        let ftst: WritableKey = WritableKey::ftst();
        let mut ftst_present: bool = true;
        match self.conn.write_u8(&ftst, 1, io) {
            Ok(_) => {},
            Err(SmcError::KeyNotFound(_)) => {
                let _ = io.ask(Request::Warn(Warning::UnlockAbsent));
                ftst_present = false;
            },
            Err(SmcError::SmcResult { cmd: _, result_byte }) => {
                return Err(SmcError::UnlockRejected { result_byte, session: self.session_id });
            },
            Err(e) => {
                return Err(e);
            },
        }
        if ftst_present {
            let readback: u8 = match self.conn.read_u8(KEY_FTST, io) {
                Ok(v) => v,
                Err(e) => {
                    return Err(e);
                },
            };
            let now: u64 = io.ask(Request::Clock).value;
            if readback != 1 {
                return Err(
                    SmcError::UnlockMismatch {
                        expected: 1,
                        got: readback,
                        session: self.session_id,
                        timestamp_ns: now,
                    },
                );
            }
            let one: [u8; 1] = [1];
            assert(one@ =~= seq![1u8]);
            self.round_trips.push(
                RoundTripRecord::new_match(now, KEY_FTST, one.as_slice(), one.as_slice()),
            );
        }
        let now: u64 = io.ask(Request::Clock).value;
        let acquired_at: u64 = io.ask(Request::Timer).value;
        let mut unlock: DiagnosticUnlockSession = DiagnosticUnlockSession::new(
            self.session_id,
            acquired_at,
            now,
        );
        let beat: u64 = io.ask(Request::Clock).value;
        unlock.heartbeat(beat);
        let _ = io.ask(Request::Heartbeat(beat));
        if unlock.start_watchdog() {
            let _ = io.ask(Request::StartWatchdog);
        }
        self.unlock = Some(unlock);
        Ok(())
    }

    /// Forces a fan to its minimum, if that is what the target asks for.
    pub fn commit_set_fan(&mut self, fan_index: u8, target: ClampedRpm, io: &mut Exchange) -> (r:
        Result<(), SmcError>)
        requires
            old(self).wf(),
        ensures
            final(self).wf(),
            (r, final(self)@, final(io)@) == committing(
                old(self)@,
                fan_index,
                target@,
                old(io)@,
            ),
    {
        let fan_idx: usize = fan_index as usize;
        if fan_idx >= self.fan_envelopes.len() {
            return Err(SmcError::KeyNotFound(fan_key_fourcc(UPPER_T, LOWER_G, fan_index)));
        }
        match self.begin_diagnostic_unlock(io) {
            Ok(_) => {},
            Err(e) => {
                return Err(e);
            },
        }
        let _ = self.conn.read_f32(fan_key_fourcc(UPPER_A, LOWER_C, fan_index), io);
        let fan: Fan = self.fan_envelopes[fan_idx];
        let tolerance: Flt = fan.max_rpm.sub(fan.min_rpm).mul(Flt { bits: ENGAGE_BITS });
        if !target.as_f32().sub(fan.min_rpm).abs().le(tolerance) {
            let now: u64 = io.ask(Request::Clock).value;
            return Err(
                SmcError::WriteRefused {
                    fourcc: fan_key_fourcc(LOWER_M, LOWER_D, fan_index),
                    result_byte: REFUSED_RESULT,
                    context: "apple_silicon_m_series_only_supports_min_mode",
                    session: self.session_id,
                    timestamp_ns: now,
                },
            );
        }
        let mode_key: WritableKey = WritableKey::fan_mode(fan_index);
        match self.write_verified(&mode_key, 1, "fan_mode_force_min", io) {
            Ok(_) => {},
            Err(e) => {
                return Err(e);
            },
        }
        self.heartbeat(io);
        Ok(())
    }

    /// Leaves a fan to the firmware.
    pub fn return_to_auto(&mut self, fan_index: u8, io: &mut Exchange) -> (r: Result<(), SmcError>)
        requires
            old(self).wf(),
        ensures
            final(self).wf(),
            (r, final(self)@, final(io)@) == returning(old(self)@, fan_index, old(io)@),
    {
        if fan_index as usize >= self.fan_envelopes.len() {
            return Err(SmcError::KeyNotFound(fan_key_fourcc(LOWER_M, LOWER_D, fan_index)));
        }
        let mode_key: WritableKey = WritableKey::fan_mode(fan_index);
        match self.write_verified(&mode_key, 0, "fan_mode_auto", io) {
            Ok(_) => {},
            Err(e) => {
                return Err(e);
            },
        }
        self.heartbeat(io);
        Ok(())
    }

    /// Waits and reads the speed of a fan, as often as a hold asks for.
    fn hold_and_sample(&mut self, key: u32, io: &mut Exchange) -> (r: Vec<Flt>)
        requires
            old(self).wf(),
        ensures
            final(self).wf(),
            ({
                let (v, c, d) = sampling(
                    old(self)@.conn,
                    key,
                    SAMPLES_PER_HOLD as nat,
                    Seq::empty(),
                    old(io)@,
                );
                &&& r@ == v
                &&& final(self)@ == (Session { conn: c, ..old(self)@ })
                &&& final(io)@ == d
            }),
    {
        let mut samples: Vec<Flt> = Vec::new();
        let mut i: usize = 0;
        while i < SAMPLES_PER_HOLD
            invariant
                i <= SAMPLES_PER_HOLD,
                self.wf(),
                self@ == (Session { conn: self@.conn, ..old(self)@ }),
                sampling(
                    self@.conn,
                    key,
                    (SAMPLES_PER_HOLD - i) as nat,
                    samples@,
                    io@,
                ) == sampling(
                    old(self)@.conn,
                    key,
                    SAMPLES_PER_HOLD as nat,
                    Seq::empty(),
                    old(io)@,
                ),
            decreases SAMPLES_PER_HOLD - i,
        {
            let _ = io.ask(Request::Sleep(SAMPLE_INTERVAL_MS));
            let v: Flt = match self.conn.read_f32(key, io) {
                Ok(v) => v,
                Err(_) => Flt { bits: 0 },
            };
            samples.push(v);
            i = i + 1;
        }
        samples
    }

    fn test_mode(
        &mut self,
        fan_index: u8,
        mode: u8,
        context: &'static str,
        io: &mut Exchange,
    ) -> (r: Result<Vec<Flt>, SmcError>)
        requires
            old(self).wf(),
        ensures
            final(self).wf(),
            final(self)@.fans == old(self)@.fans,
            ({
                let (v, s, d) = testing_mode(old(self)@, fan_index, mode, context, old(io)@);
                &&& final(self)@ == s
                &&& final(io)@ == d
                &&& match r {
                    Ok(x) => v == Ok::<Seq<Flt>, SmcError>(x@),
                    Err(e) => v == Err::<Seq<Flt>, SmcError>(e),
                }
            }),
    {
        let mode_key: WritableKey = WritableKey::fan_mode(fan_index);
        match self.write_verified(&mode_key, mode, context, io) {
            Ok(_) => {},
            Err(e) => {
                return Err(e);
            },
        }
        self.heartbeat(io);
        Ok(self.hold_and_sample(fan_key_fourcc(UPPER_A, LOWER_C, fan_index), io))
    }

    fn test_fan(&mut self, fan_index: u8, iterations: u8, io: &mut Exchange) -> (r: Result<
        SelftestFanReport,
        SmcError,
    >)
        requires
            old(self).wf(),
        ensures
            final(self).wf(),
            final(self)@.fans == old(self)@.fans,
            ({
                let (v, s, d) = testing_fan(
                    old(self)@,
                    fan_index,
                    0,
                    iterations as nat,
                    Seq::empty(),
                    old(io)@,
                );
                &&& final(self)@ == s
                &&& final(io)@ == d
                &&& match r {
                    Ok(x) => v is Ok && reports(x, fan_index, iterations, v->Ok_0),
                    Err(e) => v == Err::<Seq<Readings>, SmcError>(e),
                }
            }),
    {
        let mut samples: Vec<IterationSample> = Vec::new();
        let ghost mut taken: Seq<Readings> = Seq::empty();
        let mut round_trip_count: u64 = 0;
        let mut iter: u8 = 0;
        while iter < iterations
            invariant
                iter <= iterations,
                round_trip_count == 2 * iter,
                self.wf(),
                self@.fans == old(self)@.fans,
                taken.len() == iter,
                samples@.len() == iter,
                forall|k: int|
                    0 <= k < iter ==> summarises(#[trigger] samples@[k], k, taken[k]),
                testing_fan(
                    self@,
                    fan_index,
                    iter as nat,
                    iterations as nat,
                    taken,
                    io@,
                ) == testing_fan(
                    old(self)@,
                    fan_index,
                    0,
                    iterations as nat,
                    Seq::empty(),
                    old(io)@,
                ),
            decreases iterations - iter,
        {
            let min_samples: Vec<Flt> = match self.test_mode(
                fan_index,
                1,
                "selftest_force_min",
                io,
            ) {
                Ok(v) => v,
                Err(e) => {
                    return Err(e);
                },
            };
            let auto_samples: Vec<Flt> = match self.test_mode(
                fan_index,
                0,
                "selftest_return_auto",
                io,
            ) {
                Ok(v) => v,
                Err(e) => {
                    return Err(e);
                },
            };
            proof {
                taken = taken.push(Readings { auto: auto_samples@, min: min_samples@ });
            }
            samples.push(classify_iteration(iter, auto_samples, min_samples));
            round_trip_count = round_trip_count + 2;
            iter = iter + 1;
        }
        Ok(classify_fan(fan_index, iter, iterations, round_trip_count, 0, samples))
    }

    /// Tests every fan: `iterations` times forced minimum and automatic mode,
    /// with readings in each. The first error ends the test.
    pub fn run_selftest(&mut self, iterations: u8, io: &mut Exchange) -> (r: Result<
        SelftestReport,
        SmcError,
    >)
        requires
            old(self).wf(),
        ensures
            final(self).wf(),
            tested(old(self)@, iterations, old(io)@, r, final(self)@, final(io)@),
    {
        let started_at: u64 = io.ask(Request::Timer).value;
        let ghost d0 = io@;
        let n: usize = self.fan_envelopes.len();
        let mut per_fan: Vec<SelftestFanReport> = Vec::new();
        let ghost mut taken: Seq<Seq<Readings>> = Seq::empty();
        let mut i: usize = 0;
        while i < n
            invariant
                i <= n,
                n == old(self)@.fans.len(),
                n <= 255,
                self.wf(),
                self@.fans == old(self)@.fans,
                per_fan@.len() == i,
                taken.len() == i,
                forall|k: int|
                    0 <= k < i ==> reports(
                        #[trigger] per_fan@[k],
                        old(self)@.fans[k].index,
                        iterations,
                        taken[k],
                    ),
                d0 == old(io)@.after(Action::Timer),
                testing_fans(
                    self@,
                    old(self)@.fans,
                    i as nat,
                    iterations as nat,
                    taken,
                    io@,
                ) == testing_fans(
                    old(self)@,
                    old(self)@.fans,
                    0,
                    iterations as nat,
                    Seq::empty(),
                    d0,
                ),
            decreases n - i,
        {
            let fan_index: u8 = self.fan_envelopes[i].index;
            let ghost before = self@;
            let ghost d1 = io@;
            match self.test_fan(fan_index, iterations, io) {
                Ok(report) => {
                    proof {
                        let v = testing_fan(
                            before,
                            fan_index,
                            0,
                            iterations as nat,
                            Seq::empty(),
                            d1,
                        ).0;
                        taken = taken.push(v->Ok_0);
                    }
                    per_fan.push(report);
                },
                Err(e) => {
                    return Err(e);
                },
            }
            i = i + 1;
        }
        let ended_at: u64 = io.ask(Request::Timer).value;
        let wall_clock_ms: u64 = if ended_at < started_at {
            0
        } else {
            (ended_at - started_at) / 1_000_000
        };
        proof {
            lemma_report_sums(per_fan@, iterations);
        }
        Ok(SelftestReport::classify(per_fan, wall_clock_ms))
    }

    fn release_diagnostic_unlock(&mut self, io: &mut Exchange)
        requires
            old(self).wf(),
        ensures
            final(self).wf(),
            (final(self)@, final(io)@) == releasing_unlock(old(self)@, old(io)@),
    {
        if let Some(mut u) = self.unlock {
            u.stop_watchdog();
            let _ = io.ask(Request::StopWatchdog);
            let ftst: WritableKey = WritableKey::ftst();
            let _ = self.write_verified(&ftst, 0, "diagnostic_unlock_release", io);
            self.unlock = None;
        }
    }

    /// Gives everything back, once. Returns the round trips as text, or nothing
    /// if somebody else has claimed the release before.
    pub fn teardown(&mut self, flag: &mut ReleaseFlag, io: &mut Exchange) -> (r: Option<String>)
        requires
            old(self).wf(),
        ensures
            final(self).wf(),
            final(flag)@,
            old(flag)@ ==> r is None && *final(self) == *old(self) && final(io)@ == old(io)@,
            !old(flag)@ ==> {
                &&& (final(self)@, final(io)@) == tearing_down(old(self)@, old(io)@)
                &&& r matches Some(text) && text@ == drain_text(
                    final(self)@.id,
                    final(self)@.taken,
                    final(self)@.ring,
                )
            },
    {
        if !flag.claim() {
            return None;
        }
        let mut i: usize = 0;
        while i < self.fan_envelopes.len()
            invariant
                i <= self@.fans.len(),
                self.wf(),
                self@ == (Session { conn: self@.conn, ..old(self)@ }),
                releasing_fans(self@.conn, self@.fans, i as nat, io@) == releasing_fans(
                    old(self)@.conn,
                    old(self)@.fans,
                    0,
                    old(io)@,
                ),
            decreases self@.fans.len() - i,
        {
            let fan_index: u8 = self.fan_envelopes[i].index;
            let _ = self.conn.force_write_auto_mode(fan_index, io);
            i = i + 1;
        }
        self.release_diagnostic_unlock(io);
        let _ = self.conn.force_write_ftst_zero(io);
        let mut text: String = String::new();
        self.round_trips.drain_to(&mut text);
        assert(text@ =~= drain_text(self@.id, self@.taken, self@.ring));
        self.conn.close(io);
        Some(text)
    }
}

/// The first fan with an index, from the `i`-th on.
pub open spec fn first_with_index(fans: Seq<Fan>, index: u8, i: nat) -> Option<Fan>
    decreases fans.len() - i,
{
    if i >= fans.len() {
        None
    } else if fans[i as int].index == index {
        Some(fans[i as int])
    } else {
        first_with_index(fans, index, i + 1)
    }
}

/// Gives fans back, and the unlock behind them. An error does not stop it.
pub fn give_back(conn: &mut SmcConnection, fan_indices: &Vec<u8>, io: &mut Exchange)
    requires
        old(conn).wf(),
    ensures
        final(conn).wf(),
        (final(conn)@, final(io)@) == releasing_all(old(conn)@, fan_indices@, 0, old(io)@),
{
    let mut i: usize = 0;
    while i < fan_indices.len()
        invariant
            i <= fan_indices@.len(),
            conn.wf(),
            releasing_all(conn@, fan_indices@, i as nat, io@) == releasing_all(
                old(conn)@,
                fan_indices@,
                0,
                old(io)@,
            ),
        decreases fan_indices@.len() - i,
    {
        let _ = conn.force_write_auto_mode(fan_indices[i], io);
        i = i + 1;
    }
    let _ = conn.force_write_ftst_zero(io);
}

/// The signal thread gives the fans back with a connection of its own. Nothing
/// happens if the release was claimed before. True if this call did it.
pub fn emergency_release(
    conn: &mut SmcConnection,
    fan_indices: &Vec<u8>,
    flag: &mut ReleaseFlag,
    io: &mut Exchange,
) -> (won: bool)
    requires
        old(conn).wf(),
    ensures
        final(conn).wf(),
        won == !old(flag)@,
        final(flag)@,
        !won ==> *final(conn) == *old(conn) && final(io)@ == old(io)@,
        won ==> (final(conn)@, final(io)@) == releasing_all(
            old(conn)@,
            fan_indices@,
            0,
            old(io)@,
        ),
{
    if !flag.claim() {
        return false;
    }
    give_back(conn, fan_indices, io);
    true
}

/// Giving the fans from the `i`-th on back, and the unlock behind them. An
/// error does not stop it.
pub open spec fn releasing_all(c: Conn, fans: Seq<u8>, i: nat, d: Dialog) -> (Conn, Dialog)
    decreases fans.len() - i,
{
    if i >= fans.len() {
        let (_, c1, d1) = writing_u8(c, Target::Unlock, 0, d);
        (c1, d1)
    } else {
        let (_, c1, d1) = writing_u8(c, Target::FanMode(fans[i as int]), 0, d);
        releasing_all(c1, fans, i + 1, d1)
    }
}

} // verus!
