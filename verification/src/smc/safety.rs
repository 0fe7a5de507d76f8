//! What holds of the write path as a whole: which keys are ever written, and
//! with which values.

use super::connection::{
    calling, closing, commanding, key_frame, opening, reading_f32, reading_info, reading_key,
    reading_u8, verifying_u8, write_frame, writing, writing_u8, Conn,
};
use super::enumerate::Fan;
use super::error::{
    SmcError, KERN_SUCCESS, K_IO_RETURN_BUSY, K_IO_RETURN_TIMEOUT, MACH_PORT_NULL,
};
use super::exchange::{Action, Dialog};
use super::keys::{
    fan_mode_fourcc, Target, KEY_FTST, SMC_CMD_GET_KEY_INFO, SMC_CMD_READ_KEY, SMC_CMD_WRITE_KEY,
};
use super::param::{value_bytes, zeros, Frame};
use super::warning::Warning;
use super::write_session::{
    beating, committing, holding, releasing_all, releasing_fans, releasing_unlock, sampling,
    session_write, tearing_down, testing_fan, testing_fans, testing_mode, unlocking, Readings,
    Session,
};
use crate::correlation::SessionId;
use crate::flt::Flt;
use vstd::prelude::*;

verus! {

/// The dialogue went on from `d0` to `d1`: nothing that was said was unsaid.
pub open spec fn continues(d0: Dialog, d1: Dialog) -> bool {
    &&& d1.replies == d0.replies
    &&& d1.silence == d0.silence
    &&& d0.asked.len() <= d1.asked.len()
    &&& d1.asked.take(d0.asked.len() as int) == d0.asked
}

/// A write that does no harm: the mode of a fan, or the diagnostic unlock, with
/// the value 0 or 1.
pub open spec fn tame_write(f: Frame) -> bool {
    &&& f.key == KEY_FTST || exists|i: u8| f.key == #[trigger] fan_mode_fourcc(i)
    &&& f.bytes == value_bytes(seq![0u8], zeros(32)) || f.bytes == value_bytes(seq![1u8], zeros(32))
}

/// An action that does no harm: it writes nothing, or its write does no harm.
pub open spec fn tame(a: Action) -> bool {
    match a {
        Action::Call(_, f) => f.data8 == SMC_CMD_WRITE_KEY ==> tame_write(f),
        _ => true,
    }
}

/// Everything that was asked between `d0` and `d1` does no harm.
pub open spec fn stays_tame(d0: Dialog, d1: Dialog) -> bool {
    &&& continues(d0, d1)
    &&& forall|i: int| d0.asked.len() <= i < d1.asked.len() ==> tame(#[trigger] d1.asked[i])
}

pub proof fn lemma_tame_step(d: Dialog, a: Action)
    requires
        tame(a),
    ensures
        stays_tame(d, d.after(a)),
{
    assert(d.after(a).asked.take(d.asked.len() as int) =~= d.asked);
}

pub proof fn lemma_tame_none(d: Dialog)
    ensures
        stays_tame(d, d),
{
    assert(d.asked.take(d.asked.len() as int) =~= d.asked);
}

pub proof fn lemma_tame_join(a: Dialog, b: Dialog, c: Dialog)
    requires
        stays_tame(a, b),
        stays_tame(b, c),
    ensures
        stays_tame(a, c),
{
    assert(c.asked.take(a.asked.len() as int) =~= c.asked.take(b.asked.len() as int).take(
        a.asked.len() as int,
    ));
    assert forall|i: int| a.asked.len() <= i < c.asked.len() implies tame(#[trigger] c.asked[i]) by {
        if i < b.asked.len() {
            assert(c.asked.take(b.asked.len() as int)[i] == c.asked[i]);
            assert(tame(b.asked[i]));
        }
    }
}

proof fn lemma_calling(port: u32, f: Frame, d: Dialog, b: bool, t: bool)
    requires
        tame(Action::Call(port, f)),
    ensures
        stays_tame(d, calling(port, f, d, b, t).1),
    decreases (if b { 0int } else { 1int }) + (if t { 0int } else { 1int }),
{
    let reply = d.answer();
    let d1 = d.after(Action::Call(port, f));
    lemma_tame_step(d, Action::Call(port, f));
    if reply.kr == K_IO_RETURN_BUSY && !b {
        let d2 = d1.after(Action::Sleep(10));
        lemma_tame_step(d1, Action::Sleep(10));
        lemma_calling(port, f, d2, true, t);
        lemma_tame_join(d, d1, d2);
        lemma_tame_join(d, d2, calling(port, f, d2, true, t).1);
    } else if reply.kr == K_IO_RETURN_TIMEOUT && !t {
        let d2 = d1.after(Action::Sleep(50));
        lemma_tame_step(d1, Action::Sleep(50));
        lemma_calling(port, f, d2, b, true);
        lemma_tame_join(d, d1, d2);
        lemma_tame_join(d, d2, calling(port, f, d2, b, true).1);
    }
}

pub proof fn lemma_commanding(c: Conn, f: Frame, d: Dialog)
    requires
        f.data8 == SMC_CMD_WRITE_KEY ==> tame_write(f),
    ensures
        stays_tame(d, commanding(c, f, d).1),
{
    lemma_tame_none(d);
    lemma_calling(c.port, f, d, false, false);
}

pub proof fn lemma_reading_info(c: Conn, k: u32, d: Dialog)
    ensures
        stays_tame(d, reading_info(c, k, d).2),
{
    lemma_tame_none(d);
    let f = key_frame(SMC_CMD_GET_KEY_INFO, k, 0, 0);
    lemma_commanding(c, f, d);
    let (r, d1) = commanding(c, f, d);
    if let Ok(output) = r {
        let size = output.key_info.data_size;
        let a = Action::Warn(Warning::SizeClamped { fourcc: k, size });
        lemma_tame_step(d1, a);
        lemma_tame_join(d, d1, d1.after(a));
    }
}

pub proof fn lemma_reading_key(c: Conn, k: u32, d: Dialog)
    ensures
        stays_tame(d, reading_key(c, k, d).2),
{
    lemma_reading_info(c, k, d);
    let (info, c1, d1) = reading_info(c, k, d);
    if let Ok(ki) = info {
        let f = key_frame(SMC_CMD_READ_KEY, k, ki.data_size, ki.data_type);
        lemma_commanding(c1, f, d1);
        lemma_tame_join(d, d1, commanding(c1, f, d1).1);
    }
}

proof fn lemma_writing(c: Conn, k: u32, v: Seq<u8>, d: Dialog)
    requires
        k == KEY_FTST || exists|i: u8| k == #[trigger] fan_mode_fourcc(i),
        v == seq![0u8] || v == seq![1u8],
    ensures
        stays_tame(d, writing(c, k, v, d).2),
{
    lemma_reading_info(c, k, d);
    let (info, c1, d1) = reading_info(c, k, d);
    if let Ok(ki) = info {
        let f = write_frame(k, ki, v);
        lemma_commanding(c1, f, d1);
        lemma_tame_join(d, d1, commanding(c1, f, d1).1);
    }
}

/// The targets of a session: modes and the unlock, not the duty cycle.
pub open spec fn switches(t: Target) -> bool {
    t is FanMode || t is Unlock
}

pub proof fn lemma_writing_u8(c: Conn, t: Target, v: u8, d: Dialog)
    requires
        switches(t),
        v <= 1,
    ensures
        stays_tame(d, writing_u8(c, t, v, d).2),
{
    if let Target::FanMode(i) = t {
        assert(t.fourcc() == fan_mode_fourcc(i));
    }
    assert(v == 0 || v == 1);
    lemma_writing(c, t.fourcc(), seq![v], d);
}

pub proof fn lemma_verifying(c: Conn, t: Target, v: u8, x: &'static str, id: SessionId, d: Dialog)
    requires
        switches(t),
        v <= 1,
    ensures
        stays_tame(d, verifying_u8(c, t, v, x, id, d).dialog),
{
    let d0 = d.after(Action::Clock);
    lemma_tame_step(d, Action::Clock);
    lemma_writing_u8(c, t, v, d0);
    let (w, c1, d1) = writing_u8(c, t, v, d0);
    lemma_tame_join(d, d0, d1);
    lemma_reading_key(c1, t.fourcc(), d1);
    lemma_tame_join(d, d1, reading_u8(c1, t.fourcc(), d1).2);
}

pub proof fn lemma_beating(s: Session, d: Dialog)
    ensures
        stays_tame(d, beating(s, d).1),
{
    lemma_tame_none(d);
    let d1 = d.after(Action::Clock);
    let a = Action::Heartbeat(d.answer().value);
    lemma_tame_step(d, Action::Clock);
    lemma_tame_step(d1, a);
    lemma_tame_join(d, d1, d1.after(a));
}

proof fn lemma_holding(s: Session, d: Dialog)
    ensures
        stays_tame(d, holding(s, d).1),
{
    let d1 = d.after(Action::Clock);
    let d2 = d1.after(Action::Timer);
    let d3 = d2.after(Action::Clock);
    lemma_tame_step(d, Action::Clock);
    lemma_tame_step(d1, Action::Timer);
    lemma_tame_step(d2, Action::Clock);
    let a = Action::Heartbeat(d2.answer().value);
    let d4 = d3.after(a);
    lemma_tame_step(d3, a);
    lemma_tame_step(d4, Action::StartWatchdog);
    lemma_tame_join(d, d1, d2);
    lemma_tame_join(d, d2, d3);
    lemma_tame_join(d, d3, d4);
    lemma_tame_join(d, d4, d4.after(Action::StartWatchdog));
}

/// Taking the unlock does no harm.
pub proof fn law_unlocking_is_tame(s: Session, d: Dialog)
    ensures
        stays_tame(d, unlocking(s, d).2),
{
    lemma_tame_none(d);
    if s.unlock is None {
        lemma_writing_u8(s.conn, Target::Unlock, 1, d);
        let (w, c1, d1) = writing_u8(s.conn, Target::Unlock, 1, d);
        let s1 = Session { conn: c1, ..s };
        let a = Action::Warn(Warning::UnlockAbsent);
        let told = d1.after(a);
        lemma_tame_step(d1, a);
        lemma_tame_join(d, d1, told);
        lemma_holding(s1, told);
        lemma_tame_join(d, told, holding(s1, told).1);
        lemma_reading_key(c1, KEY_FTST, d1);
        let (r, c2, d2) = reading_u8(c1, KEY_FTST, d1);
        lemma_tame_join(d, d1, d2);
        let d3 = d2.after(Action::Clock);
        lemma_tame_step(d2, Action::Clock);
        lemma_tame_join(d, d2, d3);
        let (_, s9, d9) = unlocking(s, d);
        if w is Ok && r == Ok::<u8, SmcError>(1) {
            let one = seq![1u8];
            let s3 = Session {
                ring: super::round_trip::pushed(
                    s.ring,
                    super::round_trip::record_of(
                        d2.answer().value,
                        KEY_FTST,
                        one,
                        one,
                        super::round_trip::RoundTripOutcome::Match,
                    ),
                ),
                conn: c2,
                ..s
            };
            lemma_holding(s3, d3);
            lemma_tame_join(d, d3, holding(s3, d3).1);
            assert(d9 == holding(s3, d3).1);
        }
    }
}

/// Forcing a fan writes nothing but the mode of a fan and the unlock, and only
/// the values 0 and 1.
pub proof fn law_commit_is_tame(s: Session, fan: u8, rpm: u32, d: Dialog)
    ensures
        stays_tame(d, committing(s, fan, rpm, d).2),
{
    lemma_tame_none(d);
    law_unlocking_is_tame(s, d);
    let (u, s1, d1) = unlocking(s, d);
    let ac = super::keys::fan_fourcc(fan, super::keys::UPPER_A, super::keys::LOWER_C);
    lemma_reading_key(s1.conn, ac, d1);
    let (_, c2, d2) = reading_f32(s1.conn, ac, d1);
    lemma_tame_join(d, d1, d2);
    lemma_tame_step(d2, Action::Clock);
    lemma_tame_join(d, d2, d2.after(Action::Clock));
    let s2 = Session { conn: c2, ..s1 };
    let t = Target::FanMode(fan);
    lemma_verifying(s2.conn, t, 1, "fan_mode_force_min", s2.id, d2);
    let (w, s3, d3) = session_write(s2, t, 1, "fan_mode_force_min", d2);
    lemma_tame_join(d, d2, d3);
    lemma_beating(s3, d3);
    lemma_tame_join(d, d3, beating(s3, d3).1);
}

proof fn lemma_sampling(c: Conn, key: u32, n: nat, taken: Seq<Flt>, d: Dialog)
    ensures
        stays_tame(d, sampling(c, key, n, taken, d).2),
    decreases n,
{
    lemma_tame_none(d);
    if n > 0 {
        let a = Action::Sleep(super::selftest::SAMPLE_INTERVAL_MS);
        lemma_tame_step(d, a);
        lemma_reading_key(c, key, d.after(a));
        let (r, c1, d1) = reading_f32(c, key, d.after(a));
        lemma_tame_join(d, d.after(a), d1);
        let more = taken.push(super::write_session::or_zero(r));
        lemma_sampling(c1, key, (n - 1) as nat, more, d1);
        lemma_tame_join(d, d1, sampling(c1, key, (n - 1) as nat, more, d1).2);
    }
}

proof fn lemma_testing_mode(s: Session, fan: u8, mode: u8, x: &'static str, d: Dialog)
    requires
        mode <= 1,
    ensures
        stays_tame(d, testing_mode(s, fan, mode, x, d).2),
{
    let t = Target::FanMode(fan);
    lemma_verifying(s.conn, t, mode, x, s.id, d);
    let (w, s1, d1) = session_write(s, t, mode, x, d);
    lemma_beating(s1, d1);
    let (s2, d2) = beating(s1, d1);
    lemma_tame_join(d, d1, d2);
    let ac = super::keys::fan_fourcc(fan, super::keys::UPPER_A, super::keys::LOWER_C);
    let n = super::selftest::SAMPLES_PER_HOLD as nat;
    lemma_sampling(s2.conn, ac, n, Seq::empty(), d2);
    lemma_tame_join(d, d2, sampling(s2.conn, ac, n, Seq::empty(), d2).2);
}

proof fn lemma_testing_fan(s: Session, fan: u8, k: nat, n: nat, taken: Seq<Readings>, d: Dialog)
    ensures
        stays_tame(d, testing_fan(s, fan, k, n, taken, d).2),
    decreases n - k,
{
    lemma_tame_none(d);
    if k < n {
        lemma_testing_mode(s, fan, 1, "selftest_force_min", d);
        let (low, s1, d1) = testing_mode(s, fan, 1, "selftest_force_min", d);
        lemma_testing_mode(s1, fan, 0, "selftest_return_auto", d1);
        let (high, s2, d2) = testing_mode(s1, fan, 0, "selftest_return_auto", d1);
        lemma_tame_join(d, d1, d2);
        if low is Ok && high is Ok {
            let more = taken.push(Readings { auto: high->Ok_0, min: low->Ok_0 });
            lemma_testing_fan(s2, fan, k + 1, n, more, d2);
            lemma_tame_join(d, d2, testing_fan(s2, fan, k + 1, n, more, d2).2);
        }
    }
}

/// A self test writes nothing but the modes of fans, and only the values 0 and
/// 1.
pub proof fn law_selftest_is_tame(
    s: Session,
    fans: Seq<Fan>,
    i: nat,
    n: nat,
    taken: Seq<Seq<Readings>>,
    d: Dialog,
)
    ensures
        stays_tame(d, testing_fans(s, fans, i, n, taken, d).2),
    decreases fans.len() - i,
{
    lemma_tame_none(d);
    if i < fans.len() {
        let fan = fans[i as int].index;
        lemma_testing_fan(s, fan, 0, n, Seq::empty(), d);
        let (r, s1, d1) = testing_fan(s, fan, 0, n, Seq::empty(), d);
        if let Ok(v) = r {
            law_selftest_is_tame(s1, fans, i + 1, n, taken.push(v), d1);
            lemma_tame_join(d, d1, testing_fans(s1, fans, i + 1, n, taken.push(v), d1).2);
        }
    }
}

pub proof fn lemma_releasing_fans(c: Conn, fans: Seq<Fan>, i: nat, d: Dialog)
    ensures
        stays_tame(d, releasing_fans(c, fans, i, d).1),
    decreases fans.len() - i,
{
    lemma_tame_none(d);
    if i < fans.len() {
        let t = Target::FanMode(fans[i as int].index);
        lemma_writing_u8(c, t, 0, d);
        let (_, c1, d1) = writing_u8(c, t, 0, d);
        lemma_releasing_fans(c1, fans, i + 1, d1);
        lemma_tame_join(d, d1, releasing_fans(c1, fans, i + 1, d1).1);
    }
}

pub proof fn lemma_releasing_unlock(s: Session, d: Dialog)
    ensures
        stays_tame(d, releasing_unlock(s, d).1),
{
    lemma_tame_none(d);
    let d1 = d.after(Action::StopWatchdog);
    lemma_tame_step(d, Action::StopWatchdog);
    lemma_verifying(s.conn, Target::Unlock, 0, "diagnostic_unlock_release", s.id, d1);
    lemma_tame_join(
        d,
        d1,
        session_write(s, Target::Unlock, 0, "diagnostic_unlock_release", d1).2,
    );
}

pub proof fn lemma_closing(c: Conn, d: Dialog)
    ensures
        stays_tame(d, closing(c, d).1),
{
    lemma_tame_none(d);
    let u = Action::UnguardPort(c.port, c.guard);
    let x = Action::CloseService(c.port);
    lemma_tame_step(d, u);
    lemma_tame_step(d.after(u), x);
    lemma_tame_join(d, d.after(u), d.after(u).after(x));
    lemma_tame_step(d, x);
}

/// A teardown writes nothing but the modes of fans and the unlock.
pub proof fn law_teardown_is_tame(s: Session, d: Dialog)
    ensures
        stays_tame(d, tearing_down(s, d).1),
{
    lemma_releasing_fans(s.conn, s.fans, 0, d);
    let (c1, d1) = releasing_fans(s.conn, s.fans, 0, d);
    let s1 = Session { conn: c1, ..s };
    lemma_releasing_unlock(s1, d1);
    let (s2, d2) = releasing_unlock(s1, d1);
    lemma_tame_join(d, d1, d2);
    lemma_writing_u8(s2.conn, Target::Unlock, 0, d2);
    let (_, c3, d3) = writing_u8(s2.conn, Target::Unlock, 0, d2);
    lemma_tame_join(d, d2, d3);
    lemma_closing(c3, d3);
    lemma_tame_join(d, d3, closing(c3, d3).1);
}

/// An emergency release writes nothing but the modes of fans and the unlock.
pub proof fn law_emergency_release_is_tame(c: Conn, fans: Seq<u8>, i: nat, d: Dialog)
    ensures
        stays_tame(d, releasing_all(c, fans, i, d).1),
    decreases fans.len() - i,
{
    if i >= fans.len() {
        lemma_writing_u8(c, Target::Unlock, 0, d);
    } else {
        let t = Target::FanMode(fans[i as int]);
        lemma_writing_u8(c, t, 0, d);
        let (_, c1, d1) = writing_u8(c, t, 0, d);
        law_emergency_release_is_tame(c1, fans, i + 1, d1);
        lemma_tame_join(d, d1, releasing_all(c1, fans, i + 1, d1).1);
    }
}

/// A verified write that succeeds was written without an error, and read back
/// as it was written.
pub proof fn law_success_means_readback(
    c: Conn,
    t: Target,
    v: u8,
    x: &'static str,
    id: SessionId,
    d: Dialog,
)
    requires
        verifying_u8(c, t, v, x, id, d).result is Ok,
    ensures
        ({
            let (w, c1, d1) = writing_u8(c, t, v, d.after(Action::Clock));
            w is Ok && reading_u8(c1, t.fourcc(), d1).0 == Ok::<u8, SmcError>(v)
        }),
{
    let (w, c1, d1) = writing_u8(c, t, v, d.after(Action::Clock));
    let r = reading_u8(c1, t.fourcc(), d1).0;
    if let Ok(got) = r {
        assert(seq![got][0] == got);
        assert(seq![v][0] == v);
    }
}

/// Closing a closed connection asks for nothing.
pub proof fn law_closing_twice_is_closing_once(c: Conn, d: Dialog)
    ensures
        closing(closing(c, d).0, closing(c, d).1) == closing(c, d),
        !closing(c, d).0.open,
{
}

/// A command on a closed connection is refused, and nothing is asked.
pub proof fn law_closed_connections_refuse(c: Conn, f: Frame, d: Dialog)
    requires
        !c.open,
    ensures
        commanding(c, f, d) == (
            Err::<super::param::SMCParamStruct, SmcError>(SmcError::AlreadyClosed),
            d,
        ),
{
}

/// Something was asked between `d0` and `d1`.
pub open spec fn asked_between(d0: Dialog, d1: Dialog, a: Action) -> bool {
    exists|k: int| d0.asked.len() <= k < d1.asked.len() && #[trigger] d1.asked[k] == a
}

/// Whatever comes of an open, a service that was found is given back.
pub proof fn law_open_gives_the_service_back(d: Dialog)
    requires
        d.after(Action::Timer).answer().value as u32 != MACH_PORT_NULL,
    ensures
        asked_between(
            d,
            opening(d).1,
            Action::ReleaseService(d.after(Action::Timer).answer().value as u32),
        ),
{
    let service = d.after(Action::Timer).answer().value as u32;
    let r = Action::ReleaseService(service);
    let end = opening(d).1;
    let n = d.asked.len() as int;
    let d2 = d.after(Action::Timer).after(Action::FindService);
    let start = d.answer().value;
    let d3 = d2.after(Action::Timer);
    let d4 = d3.after(Action::ConformsTo(service));
    if super::connection::too_late(start, d2.answer().value) {
        assert(end.asked[n + 3] == r);
    } else if d3.answer().value == 0 {
        assert(end.asked[n + 4] == r);
    } else {
        assert(end.asked[n + 5] == r);
    }
}

/// The dialogue of an open at the point where the user client is opened.
pub open spec fn before_open_service(d: Dialog) -> Dialog {
    let found = d.after(Action::Timer);
    found.after(Action::FindService).after(Action::Timer).after(
        Action::ConformsTo(found.answer().value as u32),
    )
}

/// An open that fails leaves no user client open: if one was opened, closing it
/// was the last thing asked.
pub proof fn law_failed_open_leaves_nothing_open(d: Dialog)
    requires
        opening(d).0 is Err,
        opening(d).1.asked.len() > d.asked.len() + 4,
        opening(d).1.asked[d.asked.len() as int + 4] is OpenService,
        before_open_service(d).answer().kr == KERN_SUCCESS,
    ensures
        opening(d).1.asked.last() == Action::CloseService(
            before_open_service(d).answer().value as u32,
        ),
{
}

} // verus!
