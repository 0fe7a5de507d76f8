//! What the success of a write says about the dialogue with the machine, which
//! keys are written on the way, and when success is owed.

use super::connection::{
    calling, key_frame, law_keys_are_not_mixed_up, reading_f32, reading_info, reading_key,
    reading_u8, verifying_u8, write_frame, writing_u8, Conn, KeyInfo,
};
use super::error::{SmcError, KERN_SUCCESS, K_IO_RETURN_BUSY, K_IO_RETURN_TIMEOUT};
use super::exchange::{Action, Dialog, Reply};
use super::keys::{
    fan_fourcc, fan_mode_fourcc, Target, KEY_FTST, LOWER_C, SMC_CMD_GET_KEY_INFO,
    SMC_CMD_READ_KEY, SMC_CMD_WRITE_KEY, TYPE_UI8, UPPER_A,
};
use super::param::Frame;
use super::quiet::{law_reading_is_quiet, lemma_quiet_info, stays_quiet};
use super::release::{
    law_reading_leaves_ready, lemma_calling_begins, lemma_continues_join, ready, reply_at, serves,
    usable,
};
use super::safety::{continues, lemma_tame_none, lemma_tame_step, lemma_writing_u8, switches};
use super::warning::Warning;
use super::write_session::{
    asks_for_minimum, beating, committing, holding, returning, session_write, unlocking, Session,
};
use crate::correlation::SessionId;
use vstd::prelude::*;

verus! {

/// The four characters `F`, the digit of a fan, `m`, `d`.
pub open spec fn mode_key(fan: u8) -> int {
    0x4600_6D64 + ((0x30 + fan) % 0x100) * 0x1_0000
}

/// The SMC did what was asked.
pub open spec fn accepted(r: Reply) -> bool {
    r.kr == KERN_SUCCESS && r.output.result == 0
}

/// The `i`-th request wrote one byte to a key, and was accepted.
pub open spec fn wrote(d: Dialog, i: int, port: u32, key: int, v: u8) -> bool {
    &&& d.asked[i] matches Action::Call(p, f) && {
        &&& p == port
        &&& f.data8 == SMC_CMD_WRITE_KEY
        &&& f.key == key
        &&& f.data_size == 1
        &&& f.bytes.len() == 32
        &&& f.bytes[0] == v
    }
    &&& accepted(reply_at(d, i))
}

/// The `i`-th request read a key, and one byte came back.
pub open spec fn read_back(d: Dialog, i: int, port: u32, key: int, v: u8) -> bool {
    &&& d.asked[i] matches Action::Call(p, f) && {
        &&& p == port
        &&& f.data8 == SMC_CMD_READ_KEY
        &&& f.key == key
    }
    &&& accepted(reply_at(d, i))
    &&& reply_at(d, i).output.bytes@[0] == v
}

/// Between `d0` and `d1` a byte was written to a key and accepted, and read back
/// from it afterwards.
pub open spec fn written_and_read_back(
    d0: Dialog,
    d1: Dialog,
    port: u32,
    key: int,
    v: u8,
) -> bool {
    exists|w: int, r: int|
        d0.asked.len() <= w < r < d1.asked.len() && #[trigger] wrote(d1, w, port, key, v)
            && #[trigger] read_back(d1, r, port, key, v)
}

/// Every write between `d0` and `d1` wrote the byte `v` to one of two keys.
pub open spec fn writes_only(d0: Dialog, d1: Dialog, k1: int, k2: int, v: u8) -> bool {
    &&& continues(d0, d1)
    &&& forall|i: int|
        d0.asked.len() <= i < d1.asked.len() ==> may_write(#[trigger] d1.asked[i], k1, k2, v)
}

/// A request that writes nothing, or the byte `v` to one of two keys.
pub open spec fn may_write(a: Action, k1: int, k2: int, v: u8) -> bool {
    a matches Action::Call(_, f) ==> (f.data8 == SMC_CMD_WRITE_KEY ==> (f.key == k1 || f.key == k2)
        && f.bytes.len() == 32 && f.bytes[0] == v)
}

/// Whatever was asked of a key between `d0` and `d1`, the SMC did it: the key
/// holds a `ui8`, takes what is written, and reads as `v`.
pub open spec fn obliging(d0: Dialog, d1: Dialog, key: int, v: u8) -> bool {
    forall|i: int|
        d0.asked.len() <= i < d1.asked.len() ==> obliged(
            #[trigger] d1.asked[i],
            reply_at(d1, i),
            key,
            v,
        )
}

/// One request about a key was done.
pub open spec fn obliged(a: Action, r: Reply, key: int, v: u8) -> bool {
    a matches Action::Call(_, f) ==> (f.key == key ==> {
        &&& accepted(r)
        &&& f.data8 == SMC_CMD_GET_KEY_INFO ==> r.output.key_info.data_size == 1
            && r.output.key_info.data_type == TYPE_UI8
        &&& f.data8 == SMC_CMD_READ_KEY ==> r.output.bytes@[0] == v
    })
}

pub proof fn lemma_mode_key(fan: u8)
    ensures
        fan_mode_fourcc(fan) == mode_key(fan),
{
}

/// A call that succeeds ends with its request, accepted, and yields the reply.
pub proof fn lemma_calling_ends(port: u32, f: Frame, d: Dialog, b: bool, t: bool)
    requires
        calling(port, f, d, b, t).0 is Ok,
    ensures
        ({
            let (r, d1) = calling(port, f, d, b, t);
            let n = d1.asked.len() - 1;
            &&& d.asked.len() <= n
            &&& d1.asked[n] == Action::Call(port, f)
            &&& accepted(reply_at(d1, n))
            &&& reply_at(d1, n).output == r->Ok_0
        }),
    decreases (if b { 0int } else { 1int }) + (if t { 0int } else { 1int }),
{
    let reply = d.answer();
    let d1 = d.after(Action::Call(port, f));
    if reply.kr == K_IO_RETURN_BUSY && !b {
        lemma_calling_ends(port, f, d1.after(Action::Sleep(10)), true, t);
    } else if reply.kr == K_IO_RETURN_TIMEOUT && !t {
        lemma_calling_ends(port, f, d1.after(Action::Sleep(50)), b, true);
    }
    assert(calling(port, f, d, b, t).1.replies == d.replies) by {
        lemma_calling_begins(port, f, d, b, t);
    }
}

/// A write that succeeds ends with the accepted write.
proof fn lemma_written(c: Conn, t: Target, v: u8, d: Dialog)
    requires
        switches(t),
        v <= 1,
        writing_u8(c, t, v, d).0 is Ok,
    ensures
        ({
            let (_, c1, d1) = writing_u8(c, t, v, d);
            &&& c1.port == c.port
            &&& d.asked.len() < d1.asked.len()
            &&& continues(d, d1)
            &&& wrote(d1, d1.asked.len() - 1, c.port, t.fourcc() as int, v)
        }),
{
    lemma_writing_u8(c, t, v, d);
    let k = t.fourcc();
    lemma_quiet_info(c, k, d);
    let (info, c1, d1) = reading_info(c, k, d);
    let ki = info->Ok_0;
    let f = write_frame(k, ki, seq![v]);
    lemma_calling_ends(c1.port, f, d1, false, false);
    assert(seq![v].len() == 1);
    assert(f.bytes[0] == seq![v][0]);
}

/// A reading that succeeds ends with the accepted read of that value.
proof fn lemma_read(c: Conn, k: u32, v: u8, d: Dialog)
    requires
        reading_u8(c, k, d).0 == Ok::<u8, SmcError>(v),
    ensures
        ({
            let (_, c1, d1) = reading_u8(c, k, d);
            &&& c1.port == c.port
            &&& d.asked.len() < d1.asked.len()
            &&& continues(d, d1)
            &&& read_back(d1, d1.asked.len() - 1, c.port, k as int, v)
        }),
{
    law_reading_is_quiet(c, k, d);
    lemma_quiet_info(c, k, d);
    let (info, c1, d1) = reading_info(c, k, d);
    let ki = info->Ok_0;
    let f = key_frame(SMC_CMD_READ_KEY, k, ki.data_size, ki.data_type);
    lemma_calling_ends(c1.port, f, d1, false, false);
}

/// What was written and read back stays so when the dialogue goes on, and counts
/// from any earlier point.
pub proof fn lemma_still_read_back(a: Dialog, b: Dialog, c: Dialog, e: Dialog, p: u32, k: int, v: u8)
    requires
        a.asked.len() <= b.asked.len(),
        continues(c, e),
        written_and_read_back(b, c, p, k, v),
    ensures
        written_and_read_back(a, e, p, k, v),
{
    let (w, r) = choose|w: int, r: int|
        b.asked.len() <= w < r < c.asked.len() && #[trigger] wrote(c, w, p, k, v)
            && #[trigger] read_back(c, r, p, k, v);
    assert(e.asked.take(c.asked.len() as int)[w] == e.asked[w]);
    assert(e.asked.take(c.asked.len() as int)[r] == e.asked[r]);
    assert(wrote(e, w, p, k, v));
    assert(read_back(e, r, p, k, v));
}

/// A write and the reading behind it.
proof fn lemma_pair(c: Conn, t: Target, v: u8, d: Dialog)
    requires
        switches(t),
        v <= 1,
        writing_u8(c, t, v, d).0 is Ok,
        ({
            let (_, c1, d1) = writing_u8(c, t, v, d);
            reading_u8(c1, t.fourcc(), d1).0 == Ok::<u8, SmcError>(v)
        }),
    ensures
        ({
            let (_, c1, d1) = writing_u8(c, t, v, d);
            let (_, c2, d2) = reading_u8(c1, t.fourcc(), d1);
            &&& c2.port == c.port
            &&& continues(d, d2)
            &&& written_and_read_back(d, d2, c.port, t.fourcc() as int, v)
        }),
{
    let k = t.fourcc();
    lemma_written(c, t, v, d);
    let (_, c1, d1) = writing_u8(c, t, v, d);
    lemma_read(c1, k, v, d1);
    let (_, c2, d2) = reading_u8(c1, k, d1);
    lemma_continues_join(d, d1, d2);
    let w = d1.asked.len() - 1;
    assert(d2.asked.take(d1.asked.len() as int)[w] == d2.asked[w]);
    assert(wrote(d2, w, c.port, k as int, v));
    assert(read_back(d2, d2.asked.len() - 1, c.port, k as int, v));
}

/// A verified write of 0 or 1 to a mode or to the unlock succeeds only if the
/// value was written to that very key and accepted, and read back from it.
pub proof fn law_verified_means_written_and_read_back(
    c: Conn,
    t: Target,
    v: u8,
    context: &'static str,
    id: SessionId,
    d: Dialog,
)
    requires
        switches(t),
        v <= 1,
        verifying_u8(c, t, v, context, id, d).result is Ok,
    ensures
        ({
            let after = verifying_u8(c, t, v, context, id, d);
            &&& after.conn.port == c.port
            &&& continues(d, after.dialog)
            &&& written_and_read_back(d, after.dialog, c.port, t.fourcc() as int, v)
        }),
{
    super::safety::law_success_means_readback(c, t, v, context, id, d);
    let d0 = d.after(Action::Clock);
    lemma_pair(c, t, v, d0);
    let after = verifying_u8(c, t, v, context, id, d).dialog;
    lemma_tame_step(d, Action::Clock);
    lemma_tame_none(after);
    lemma_continues_join(d, d0, after);
    lemma_still_read_back(d, d0, after, after, c.port, t.fourcc() as int, v);
}

pub proof fn lemma_beating_goes_on(s: Session, d: Dialog)
    ensures
        continues(d, beating(s, d).1),
        beating(s, d).0.conn == s.conn,
{
    super::safety::lemma_beating(s, d);
}

/// Reading does not change the port, nor does taking the unlock.
proof fn lemma_same_port(c: Conn, k: u32, d: Dialog)
    ensures
        reading_key(c, k, d).1.port == c.port,
        reading_key(c, k, d).1.open == c.open,
{
}

pub proof fn lemma_unlocking_keeps_port(s: Session, d: Dialog)
    ensures
        unlocking(s, d).1.conn.port == s.conn.port,
        unlocking(s, d).1.fans == s.fans,
{
    let (w, c1, d1) = writing_u8(s.conn, Target::Unlock, 1, d);
    assert(c1.port == s.conn.port);
    lemma_same_port(c1, KEY_FTST, d1);
}

/// Forcing fan `i` succeeds only if 1 was written to the key `F<i>md` of that
/// very fan and accepted, and read back from it afterwards.
pub proof fn law_forcing_reaches_that_fan(s: Session, fan: u8, rpm: u32, d: Dialog)
    requires
        committing(s, fan, rpm, d).0 is Ok,
    ensures
        written_and_read_back(d, committing(s, fan, rpm, d).2, s.conn.port, mode_key(fan), 1),
{
    lemma_mode_key(fan);
    let (_, s1, d1) = unlocking(s, d);
    super::safety::law_unlocking_is_tame(s, d);
    lemma_unlocking_keeps_port(s, d);
    let ac = fan_fourcc(fan, UPPER_A, LOWER_C);
    law_reading_is_quiet(s1.conn, ac, d1);
    lemma_same_port(s1.conn, ac, d1);
    let (_, c2, d2) = reading_f32(s1.conn, ac, d1);
    let s2 = Session { conn: c2, ..s1 };
    let t = Target::FanMode(fan);
    law_verified_means_written_and_read_back(c2, t, 1, "fan_mode_force_min", s2.id, d2);
    let (w, s3, d3) = session_write(s2, t, 1, "fan_mode_force_min", d2);
    lemma_beating_goes_on(s3, d3);
    let d4 = beating(s3, d3).1;
    assert(d.asked.len() <= d2.asked.len());
    lemma_still_read_back(d, d2, d3, d4, s.conn.port, mode_key(fan), 1);
}

/// Leaving fan `i` to the firmware succeeds only if 0 was written to the key
/// `F<i>md` of that very fan and accepted, and read back from it afterwards.
pub proof fn law_returning_reaches_that_fan(s: Session, fan: u8, d: Dialog)
    requires
        returning(s, fan, d).0 is Ok,
    ensures
        written_and_read_back(d, returning(s, fan, d).2, s.conn.port, mode_key(fan), 0),
{
    lemma_mode_key(fan);
    let t = Target::FanMode(fan);
    law_verified_means_written_and_read_back(s.conn, t, 0, "fan_mode_auto", s.id, d);
    let (_, s1, d1) = session_write(s, t, 0, "fan_mode_auto", d);
    lemma_beating_goes_on(s1, d1);
    lemma_still_read_back(d, d, d1, beating(s1, d1).1, s.conn.port, mode_key(fan), 0);
}

/// Taking the unlock succeeds only if it was held before, or 1 was written to
/// `Ftst` and accepted and read back, or the machine was found to have no such
/// key, which is warned of. It is held afterwards.
pub proof fn law_unlocking_reaches_the_unlock(s: Session, d: Dialog)
    requires
        unlocking(s, d).0 is Ok,
    ensures
        unlocking(s, d).1.unlock is Some,
        s.unlock is Some || written_and_read_back(
            d,
            unlocking(s, d).2,
            s.conn.port,
            0x4674_7374,
            1,
        ) || super::safety::asked_between(
            d,
            unlocking(s, d).2,
            Action::Warn(Warning::UnlockAbsent),
        ),
{
    if s.unlock is None {
        let t = Target::Unlock;
        let (w, c1, d1) = writing_u8(s.conn, t, 1, d);
        lemma_writing_u8(s.conn, t, 1, d);
        let end = unlocking(s, d).2;
        if w is Ok {
            lemma_pair(s.conn, t, 1, d);
            let d2 = reading_u8(c1, KEY_FTST, d1).2;
            let d3 = d2.after(Action::Clock);
            assert(end.asked.take(d2.asked.len() as int) =~= d2.asked);
            lemma_still_read_back(d, d, d2, end, s.conn.port, 0x4674_7374, 1);
        } else {
            let n = d1.asked.len() as int;
            assert(end.asked[n] == Action::Warn(Warning::UnlockAbsent));
        }
    }
}

proof fn lemma_only_quiet(d0: Dialog, d1: Dialog, k1: int, k2: int, v: u8)
    requires
        stays_quiet(d0, d1),
    ensures
        writes_only(d0, d1, k1, k2, v),
{
    assert forall|i: int| d0.asked.len() <= i < d1.asked.len() implies may_write(
        #[trigger] d1.asked[i],
        k1,
        k2,
        v,
    ) by {
        assert(super::quiet::quiet(d1.asked[i]));
    }
}

proof fn lemma_only_step(d: Dialog, a: Action, k1: int, k2: int, v: u8)
    requires
        may_write(a, k1, k2, v),
    ensures
        writes_only(d, d.after(a), k1, k2, v),
{
    assert(d.after(a).asked.take(d.asked.len() as int) =~= d.asked);
}

proof fn lemma_only_none(d: Dialog, k1: int, k2: int, v: u8)
    ensures
        writes_only(d, d, k1, k2, v),
{
    assert(d.asked.take(d.asked.len() as int) =~= d.asked);
}

proof fn lemma_only_join(a: Dialog, b: Dialog, c: Dialog, k1: int, k2: int, v: u8)
    requires
        writes_only(a, b, k1, k2, v),
        writes_only(b, c, k1, k2, v),
    ensures
        writes_only(a, c, k1, k2, v),
{
    lemma_continues_join(a, b, c);
    assert forall|i: int| a.asked.len() <= i < c.asked.len() implies may_write(
        #[trigger] c.asked[i],
        k1,
        k2,
        v,
    ) by {
        if i < b.asked.len() {
            assert(c.asked.take(b.asked.len() as int)[i] == c.asked[i]);
            assert(may_write(b.asked[i], k1, k2, v));
        }
    }
}

proof fn lemma_only_calling(
    port: u32,
    f: Frame,
    d: Dialog,
    b: bool,
    t: bool,
    k1: int,
    k2: int,
    v: u8,
)
    requires
        may_write(Action::Call(port, f), k1, k2, v),
    ensures
        writes_only(d, calling(port, f, d, b, t).1, k1, k2, v),
    decreases (if b { 0int } else { 1int }) + (if t { 0int } else { 1int }),
{
    let reply = d.answer();
    let a = Action::Call(port, f);
    let d1 = d.after(a);
    lemma_only_step(d, a, k1, k2, v);
    if reply.kr == K_IO_RETURN_BUSY && !b {
        let d2 = d1.after(Action::Sleep(10));
        lemma_only_step(d1, Action::Sleep(10), k1, k2, v);
        lemma_only_calling(port, f, d2, true, t, k1, k2, v);
        lemma_only_join(d, d1, d2, k1, k2, v);
        lemma_only_join(d, d2, calling(port, f, d2, true, t).1, k1, k2, v);
    } else if reply.kr == K_IO_RETURN_TIMEOUT && !t {
        let d2 = d1.after(Action::Sleep(50));
        lemma_only_step(d1, Action::Sleep(50), k1, k2, v);
        lemma_only_calling(port, f, d2, b, true, k1, k2, v);
        lemma_only_join(d, d1, d2, k1, k2, v);
        lemma_only_join(d, d2, calling(port, f, d2, b, true).1, k1, k2, v);
    }
}

proof fn lemma_only_reading(c: Conn, k: u32, d: Dialog, k1: int, k2: int, v: u8)
    ensures
        writes_only(d, reading_key(c, k, d).2, k1, k2, v),
        writes_only(d, reading_info(c, k, d).2, k1, k2, v),
{
    law_reading_is_quiet(c, k, d);
    lemma_only_quiet(d, reading_key(c, k, d).2, k1, k2, v);
    lemma_quiet_info(c, k, d);
    lemma_only_quiet(d, reading_info(c, k, d).2, k1, k2, v);
}

proof fn lemma_only_writing(c: Conn, t: Target, v: u8, d: Dialog, k1: int, k2: int)
    requires
        t.fourcc() == k1 || t.fourcc() == k2,
    ensures
        writes_only(d, writing_u8(c, t, v, d).2, k1, k2, v),
{
    let k = t.fourcc();
    lemma_only_none(d, k1, k2, v);
    lemma_only_reading(c, k, d, k1, k2, v);
    let (info, c1, d1) = reading_info(c, k, d);
    if let Ok(ki) = info {
        let f = write_frame(k, ki, seq![v]);
        assert(f.bytes[0] == seq![v][0]);
        lemma_only_calling(c1.port, f, d1, false, false, k1, k2, v);
        lemma_only_join(d, d1, calling(c1.port, f, d1, false, false).1, k1, k2, v);
    }
}

proof fn lemma_only_verifying(
    c: Conn,
    t: Target,
    v: u8,
    x: &'static str,
    id: SessionId,
    d: Dialog,
    k1: int,
    k2: int,
)
    requires
        t.fourcc() == k1 || t.fourcc() == k2,
    ensures
        writes_only(d, verifying_u8(c, t, v, x, id, d).dialog, k1, k2, v),
{
    let d0 = d.after(Action::Clock);
    lemma_only_step(d, Action::Clock, k1, k2, v);
    lemma_only_writing(c, t, v, d0, k1, k2);
    let (_, c1, d1) = writing_u8(c, t, v, d0);
    lemma_only_join(d, d0, d1, k1, k2, v);
    lemma_only_reading(c1, t.fourcc(), d1, k1, k2, v);
    lemma_only_join(d, d1, reading_u8(c1, t.fourcc(), d1).2, k1, k2, v);
}

proof fn lemma_only_beating(s: Session, d: Dialog, k1: int, k2: int, v: u8)
    ensures
        writes_only(d, beating(s, d).1, k1, k2, v),
{
    lemma_only_none(d, k1, k2, v);
    let d1 = d.after(Action::Clock);
    let a = Action::Heartbeat(d.answer().value);
    lemma_only_step(d, Action::Clock, k1, k2, v);
    lemma_only_step(d1, a, k1, k2, v);
    lemma_only_join(d, d1, d1.after(a), k1, k2, v);
}

proof fn lemma_only_holding(s: Session, d: Dialog, k1: int, k2: int, v: u8)
    ensures
        writes_only(d, holding(s, d).1, k1, k2, v),
{
    let end = holding(s, d).1;
    assert(end.asked.take(d.asked.len() as int) =~= d.asked);
}

proof fn lemma_only_unlocking(s: Session, d: Dialog, k: int)
    ensures
        writes_only(d, unlocking(s, d).2, k, 0x4674_7374, 1),
{
    let u: int = 0x4674_7374;
    lemma_only_none(d, k, u, 1);
    if s.unlock is None {
        lemma_only_writing(s.conn, Target::Unlock, 1, d, k, u);
        let (w, c1, d1) = writing_u8(s.conn, Target::Unlock, 1, d);
        let end = unlocking(s, d).2;
        if w is Ok {
            lemma_only_reading(c1, KEY_FTST, d1, k, u, 1);
            let (r, c2, d2) = reading_u8(c1, KEY_FTST, d1);
            lemma_only_join(d, d1, d2, k, u, 1);
            if r is Ok {
                let d3 = d2.after(Action::Clock);
                lemma_only_step(d2, Action::Clock, k, u, 1);
                lemma_only_join(d, d2, d3, k, u, 1);
                if r == Ok::<u8, SmcError>(1) {
                    assert(end.asked.take(d3.asked.len() as int) =~= d3.asked);
                    assert(writes_only(d3, end, k, u, 1));
                    lemma_only_join(d, d3, end, k, u, 1);
                }
            }
        } else if w matches Err(SmcError::KeyNotFound(_)) {
            let a = Action::Warn(Warning::UnlockAbsent);
            let d2 = d1.after(a);
            lemma_only_step(d1, a, k, u, 1);
            lemma_only_join(d, d1, d2, k, u, 1);
            assert(end.asked.take(d2.asked.len() as int) =~= d2.asked);
            assert(writes_only(d2, end, k, u, 1));
            lemma_only_join(d, d2, end, k, u, 1);
        }
    }
}

/// Forcing fan `i` writes 1, and writes it to the key `F<i>md` of that fan and to
/// `Ftst` only: no other fan is touched, whatever comes of it.
pub proof fn law_forcing_touches_no_other_fan(s: Session, fan: u8, rpm: u32, d: Dialog)
    ensures
        writes_only(d, committing(s, fan, rpm, d).2, mode_key(fan), 0x4674_7374, 1),
{
    let (k, u) = (mode_key(fan), 0x4674_7374int);
    lemma_mode_key(fan);
    lemma_only_none(d, k, u, 1);
    lemma_only_unlocking(s, d, k);
    let (_, s1, d1) = unlocking(s, d);
    let ac = fan_fourcc(fan, UPPER_A, LOWER_C);
    lemma_only_reading(s1.conn, ac, d1, k, u, 1);
    let (_, c2, d2) = reading_f32(s1.conn, ac, d1);
    lemma_only_join(d, d1, d2, k, u, 1);
    lemma_only_step(d2, Action::Clock, k, u, 1);
    lemma_only_join(d, d2, d2.after(Action::Clock), k, u, 1);
    let s2 = Session { conn: c2, ..s1 };
    let t = Target::FanMode(fan);
    lemma_only_verifying(c2, t, 1, "fan_mode_force_min", s2.id, d2, k, u);
    let (_, s3, d3) = session_write(s2, t, 1, "fan_mode_force_min", d2);
    lemma_only_join(d, d2, d3, k, u, 1);
    lemma_only_beating(s3, d3, k, u, 1);
    lemma_only_join(d, d3, beating(s3, d3).1, k, u, 1);
}

/// Leaving fan `i` to the firmware writes 0, to the key `F<i>md` of that fan only.
pub proof fn law_returning_touches_no_other_fan(s: Session, fan: u8, d: Dialog)
    ensures
        writes_only(d, returning(s, fan, d).2, mode_key(fan), mode_key(fan), 0),
{
    let k = mode_key(fan);
    lemma_mode_key(fan);
    lemma_only_none(d, k, k, 0);
    let t = Target::FanMode(fan);
    lemma_only_verifying(s.conn, t, 0, "fan_mode_auto", s.id, d, k, k);
    let (_, s1, d1) = session_write(s, t, 0, "fan_mode_auto", d);
    lemma_only_beating(s1, d1, k, k, 0);
    lemma_only_join(d, d1, beating(s1, d1).1, k, k, 0);
}

proof fn lemma_obliging_parts(a: Dialog, b: Dialog, c: Dialog, key: int, v: u8)
    requires
        continues(a, b),
        continues(b, c),
        obliging(a, c, key, v),
    ensures
        obliging(a, b, key, v),
        obliging(b, c, key, v),
{
    assert forall|i: int| a.asked.len() <= i < b.asked.len() implies obliged(
        #[trigger] b.asked[i],
        reply_at(b, i),
        key,
        v,
    ) by {
        assert(c.asked.take(b.asked.len() as int)[i] == c.asked[i]);
        assert(obliged(c.asked[i], reply_at(c, i), key, v));
    }
}

/// A call whose reply is an acceptance ends with it.
proof fn lemma_call_obliged(port: u32, f: Frame, d: Dialog, v: u8)
    requires
        obliging(d, calling(port, f, d, false, false).1, f.key as int, v),
    ensures
        calling(port, f, d, false, false) == (
            Ok::<super::param::SMCParamStruct, SmcError>(d.answer().output),
            d.after(Action::Call(port, f)),
        ),
        obliged(Action::Call(port, f), d.answer(), f.key as int, v),
{
    lemma_calling_begins(port, f, d, false, false);
    let d1 = calling(port, f, d, false, false).1;
    let n = d.asked.len() as int;
    assert(obliged(d1.asked[n], reply_at(d1, n), f.key as int, v));
    assert(reply_at(d1, n) == d.answer());
}

/// Writing to a key of an obliging machine succeeds, and leaves the key
/// remembered.
proof fn lemma_writing_obliged(c: Conn, t: Target, v: u8, w: u8, d: Dialog)
    requires
        usable(c),
        serves(c, t.fourcc()),
        switches(t),
        v <= 1,
        obliging(d, writing_u8(c, t, v, d).2, t.fourcc() as int, w),
    ensures
        ({
            let (r, c1, d1) = writing_u8(c, t, v, d);
            &&& r is Ok
            &&& usable(c1)
            &&& c1.remembered(t.fourcc()) == Some((1u32, TYPE_UI8))
            &&& forall|k: u32| serves(c, k) ==> #[trigger] serves(c1, k)
            &&& continues(d, d1)
        }),
{
    let k = t.fourcc();
    lemma_writing_u8(c, t, v, d);
    lemma_quiet_info(c, k, d);
    let (info, c1, d1) = reading_info(c, k, d);
    let d2 = writing_u8(c, t, v, d).2;
    lemma_tame_none(d1);
    if let Ok(ki) = info {
        lemma_calling_begins(c1.port, write_frame(k, ki, seq![v]), d1, false, false);
    }
    assert(continues(d1, d2));
    lemma_obliging_parts(d, d1, d2, k as int, w);
    if c.remembered(k) is None {
        let f = key_frame(SMC_CMD_GET_KEY_INFO, k, 0, 0);
        let (asked, e) = calling(c.port, f, d, false, false);
        lemma_tame_none(e);
        if let Ok(output) = asked {
            let size = output.key_info.data_size;
            lemma_tame_step(e, Action::Warn(Warning::SizeClamped { fourcc: k, size }));
        }
        lemma_first_call_obliged(c.port, f, d, d1, w);
        assert forall|j: u32| serves(c, j) implies #[trigger] serves(c1, j) by {
            law_keys_are_not_mixed_up(c, k, Some((1u32, TYPE_UI8)), j);
        }
    }
    assert(info == Ok::<KeyInfo, SmcError>(KeyInfo { data_size: 1, data_type: TYPE_UI8 }));
    assert(seq![v].len() == 1);
    let f = write_frame(k, info->Ok_0, seq![v]);
    lemma_call_obliged(c1.port, f, d1, w);
}

/// The request for size and type, on the way to `d1`.
proof fn lemma_first_call_obliged(port: u32, f: Frame, d: Dialog, d1: Dialog, v: u8)
    requires
        continues(calling(port, f, d, false, false).1, d1),
        obliging(d, d1, f.key as int, v),
    ensures
        calling(port, f, d, false, false) == (
            Ok::<super::param::SMCParamStruct, SmcError>(d.answer().output),
            d.after(Action::Call(port, f)),
        ),
        obliged(Action::Call(port, f), d.answer(), f.key as int, v),
{
    let e = calling(port, f, d, false, false).1;
    lemma_calling_begins(port, f, d, false, false);
    lemma_obliging_parts(d, e, d1, f.key as int, v);
    lemma_call_obliged(port, f, d, v);
}

/// Reading a key that is remembered, on an obliging machine.
proof fn lemma_reading_obliged(c: Conn, k: u32, v: u8, d: Dialog)
    requires
        usable(c),
        c.remembered(k) == Some((1u32, TYPE_UI8)),
        obliging(d, reading_u8(c, k, d).2, k as int, v),
    ensures
        reading_u8(c, k, d).0 == Ok::<u8, SmcError>(v),
        reading_u8(c, k, d).1 == c,
{
    let f = key_frame(SMC_CMD_READ_KEY, k, 1, TYPE_UI8);
    lemma_call_obliged(c.port, f, d, v);
}

/// On an obliging machine a verified write succeeds.
pub proof fn law_obliging_machines_take_writes(
    c: Conn,
    t: Target,
    v: u8,
    context: &'static str,
    id: SessionId,
    d: Dialog,
)
    requires
        usable(c),
        serves(c, t.fourcc()),
        switches(t),
        v <= 1,
        obliging(d, verifying_u8(c, t, v, context, id, d).dialog, t.fourcc() as int, v),
    ensures
        verifying_u8(c, t, v, context, id, d).result is Ok,
{
    let k = t.fourcc();
    let d0 = d.after(Action::Clock);
    let (w, c1, d1) = writing_u8(c, t, v, d0);
    let dn = verifying_u8(c, t, v, context, id, d).dialog;
    lemma_tame_step(d, Action::Clock);
    lemma_writing_u8(c, t, v, d0);
    law_reading_is_quiet(c1, k, d1);
    lemma_tame_none(d1);
    lemma_continues_join(d0, d1, dn);
    lemma_obliging_parts(d, d0, dn, k as int, v);
    lemma_obliging_parts(d0, d1, dn, k as int, v);
    lemma_writing_obliged(c, t, v, v, d0);
    lemma_reading_obliged(c1, k, v, d1);
}

/// On an obliging machine the unlock is taken.
proof fn lemma_unlocking_obliged(s: Session, fan: u8, d: Dialog)
    requires
        ready(s.conn, seq![fan]),
        obliging(d, unlocking(s, d).2, KEY_FTST as int, 1),
    ensures
        unlocking(s, d).0 is Ok,
        ready(unlocking(s, d).1.conn, seq![fan]),
{
    if s.unlock is None {
        let t = Target::Unlock;
        let (w, c1, d1) = writing_u8(s.conn, t, 1, d);
        let end = unlocking(s, d).2;
        lemma_writing_u8(s.conn, t, 1, d);
        super::safety::law_unlocking_is_tame(s, d);
        lemma_tame_none(d1);
        let (r, c2, d2) = reading_u8(c1, KEY_FTST, d1);
        law_reading_is_quiet(c1, KEY_FTST, d1);
        lemma_tame_none(d2);
        if w is Ok {
            assert(end.asked.take(d2.asked.len() as int) =~= d2.asked);
            assert(continues(d2, end));
            lemma_continues_join(d1, d2, end);
        } else {
            assert(end.asked.take(d1.asked.len() as int) =~= d1.asked);
        }
        lemma_obliging_parts(d, d1, end, KEY_FTST as int, 1);
        lemma_writing_obliged(s.conn, t, 1, 1, d);
        lemma_obliging_parts(d1, d2, end, KEY_FTST as int, 1);
        lemma_reading_obliged(c1, KEY_FTST, 1, d1);
        assert(serves(s.conn, fan_mode_fourcc(seq![fan][0])));
        assert(serves(c1, fan_mode_fourcc(fan)));
        assert(serves(c1, KEY_FTST));
    }
}

/// Success is owed: on an obliging machine, forcing a fan of the session to a
/// target near its minimum succeeds. The keys that count are `F<i>md` of that
/// fan and `Ftst`.
pub proof fn law_forcing_succeeds_on_obliging_machines(s: Session, fan: u8, rpm: u32, d: Dialog)
    requires
        fan < s.fans.len(),
        asks_for_minimum(s.fans[fan as int], rpm),
        ready(s.conn, seq![fan]),
        obliging(d, committing(s, fan, rpm, d).2, mode_key(fan), 1),
        obliging(d, committing(s, fan, rpm, d).2, 0x4674_7374, 1),
    ensures
        committing(s, fan, rpm, d).0 is Ok,
{
    lemma_mode_key(fan);
    let k = mode_key(fan);
    let u: int = 0x4674_7374;
    let dn = committing(s, fan, rpm, d).2;
    let (r1, s1, d1) = unlocking(s, d);
    super::safety::law_unlocking_is_tame(s, d);
    let ac = fan_fourcc(fan, UPPER_A, LOWER_C);
    let (_, c2, d2) = reading_f32(s1.conn, ac, d1);
    law_reading_is_quiet(s1.conn, ac, d1);
    let s2 = Session { conn: c2, ..s1 };
    let t = Target::FanMode(fan);
    super::safety::lemma_verifying(c2, t, 1, "fan_mode_force_min", s2.id, d2);
    let (w, s3, d3) = session_write(s2, t, 1, "fan_mode_force_min", d2);
    lemma_beating_goes_on(s3, d3);
    lemma_tame_none(d1);
    lemma_tame_none(d3);
    lemma_continues_join(d2, d3, beating(s3, d3).1);
    if r1 is Ok {
        assert(continues(d2, dn));
        lemma_continues_join(d1, d2, dn);
    }
    lemma_obliging_parts(d, d1, dn, u, 1);
    lemma_unlocking_obliged(s, fan, d);
    lemma_obliging_parts(d, d1, dn, k, 1);
    lemma_obliging_parts(d1, d2, dn, k, 1);
    lemma_obliging_parts(d2, d3, dn, k, 1);
    assert(ac != KEY_FTST && ac != fan_mode_fourcc(fan));
    law_reading_leaves_ready(s1.conn, seq![fan], ac, d1);
    assert(serves(c2, fan_mode_fourcc(seq![fan][0])));
    law_obliging_machines_take_writes(c2, t, 1, "fan_mode_force_min", s2.id, d2);
}

/// The same of leaving a fan to the firmware.
pub proof fn law_returning_succeeds_on_obliging_machines(s: Session, fan: u8, d: Dialog)
    requires
        fan < s.fans.len(),
        ready(s.conn, seq![fan]),
        obliging(d, returning(s, fan, d).2, mode_key(fan), 0),
    ensures
        returning(s, fan, d).0 is Ok,
{
    lemma_mode_key(fan);
    let k = mode_key(fan);
    let t = Target::FanMode(fan);
    let (w, s1, d1) = session_write(s, t, 0, "fan_mode_auto", d);
    super::safety::lemma_verifying(s.conn, t, 0, "fan_mode_auto", s.id, d);
    lemma_beating_goes_on(s1, d1);
    lemma_tame_none(d1);
    lemma_obliging_parts(d, d1, returning(s, fan, d).2, k, 0);
    assert(serves(s.conn, fan_mode_fourcc(seq![fan][0])));
    law_obliging_machines_take_writes(s.conn, t, 0, "fan_mode_auto", s.id, d);
}

} // verus!
