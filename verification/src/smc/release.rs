//! Fans are given back: on a machine that knows the modes of its fans, every way
//! out of a session writes a zero to the mode of every fan.

use super::connection::{
    asking_info, calling, closing, key_frame, law_keys_are_not_mixed_up, opening, reading_f32,
    reading_info, reading_key, reading_u8, write_frame, writing, writing_u8, Conn, KeyInfo,
};
use super::enumerate::{
    enumerating, probing_mode_key, reading_fan, reading_fans, reading_key_count, Fan,
};
use super::error::{
    SmcError, KERN_SUCCESS, K_IO_RETURN_BUSY, K_IO_RETURN_TIMEOUT, MACH_PORT_NULL,
};
use super::exchange::{Action, Dialog, Reply};
use super::keys::{
    fan_fourcc, fan_mode_fourcc, Target, KEY_COUNT, KEY_FNUM, KEY_FTST, LOWER_C, LOWER_D, LOWER_F,
    LOWER_M, LOWER_N, LOWER_X, SMC_CMD_GET_KEY_INFO, SMC_CMD_READ_KEY, TYPE_UI8, UPPER_A, UPPER_M,
    UPPER_S,
};
use super::param::Frame;
use super::quiet::{
    law_finding_fans_is_quiet, law_opening_is_quiet, lemma_fan, lemma_fans, lemma_mode_key,
};
use super::safety::{
    asked_between, continues, law_emergency_release_is_tame, lemma_closing, lemma_commanding,
    lemma_reading_info, lemma_reading_key, lemma_releasing_fans, lemma_releasing_unlock,
    lemma_tame_none, lemma_tame_step, lemma_writing_u8, switches,
};
use super::write_session::{
    acquiring, releasing_all, releasing_fans, releasing_unlock, tearing_down, Session,
};
use vstd::prelude::*;

verus! {

/// The reply to the `i`-th request.
pub open spec fn reply_at(d: Dialog, i: int) -> Reply {
    if i < d.replies.len() {
        d.replies[i]
    } else {
        d.silence
    }
}

/// The key of a mode, or of the unlock.
pub open spec fn is_switch(k: u32) -> bool {
    k == KEY_FTST || exists|i: u8| k == #[trigger] fan_mode_fourcc(i)
}

/// A request for size and type of a mode or of the unlock.
pub open spec fn asks_switch(a: Action) -> bool {
    a matches Action::Call(_, f) && f.data8 == SMC_CMD_GET_KEY_INFO && is_switch(f.key)
}

/// The SMC says that a key holds a `ui8`.
pub open spec fn says_ui8(r: Reply) -> bool {
    &&& r.kr == KERN_SUCCESS
    &&& r.output.result == 0
    &&& r.output.key_info.data_size == 1
    &&& r.output.key_info.data_type == TYPE_UI8
}

/// Whenever size and type of a mode or of the unlock were asked for between `d0`
/// and `d1`, the SMC said that the key holds a `ui8`.
pub open spec fn knows_its_keys(d0: Dialog, d1: Dialog) -> bool {
    forall|i: int|
        d0.asked.len() <= i < d1.asked.len() && asks_switch(#[trigger] d1.asked[i]) ==> says_ui8(
            reply_at(d1, i),
        )
}

/// If a key is remembered at all, it is remembered as a `ui8`.
pub open spec fn serves(c: Conn, k: u32) -> bool {
    c.remembered(k) matches Some(e) ==> e == (1u32, TYPE_UI8)
}

/// The connection can be called.
pub open spec fn usable(c: Conn) -> bool {
    c.open && c.port != MACH_PORT_NULL && c.complete()
}

/// The connection can be called, and remembers nothing wrong of the modes of
/// these fans and of the unlock. What it remembers of other keys does not
/// matter.
pub open spec fn ready(c: Conn, fans: Seq<u8>) -> bool {
    &&& usable(c)
    &&& serves(c, KEY_FTST)
    &&& forall|j: int| 0 <= j < fans.len() ==> serves(c, fan_mode_fourcc(#[trigger] fans[j]))
}

/// The indices of fans.
pub open spec fn indices(fans: Seq<Fan>) -> Seq<u8> {
    Seq::new(fans.len(), |i: int| fans[i].index)
}

/// A connection that was just opened is ready for any fans.
pub proof fn law_fresh_connections_are_ready(d: Dialog, fans: Seq<u8>)
    requires
        opening(d).0 is Ok,
        opening(d).0->Ok_0.port != MACH_PORT_NULL,
    ensures
        ready(opening(d).0->Ok_0, fans),
{
}

/// Reading other keys, whatever they hold, leaves a connection ready.
pub proof fn law_reading_leaves_ready(c: Conn, fans: Seq<u8>, k: u32, d: Dialog)
    requires
        ready(c, fans),
        k != KEY_FTST,
        forall|j: int| 0 <= j < fans.len() ==> k != fan_mode_fourcc(#[trigger] fans[j]),
    ensures
        ready(reading_key(c, k, d).1, fans),
{
    let c1 = reading_key(c, k, d).1;
    assert(serves(c1, KEY_FTST));
    assert forall|j: int| 0 <= j < fans.len() implies serves(
        c1,
        fan_mode_fourcc(#[trigger] fans[j]),
    ) by {
        assert(serves(c, fan_mode_fourcc(fans[j])));
    }
}

/// The write of a zero to a `ui8` key.
pub open spec fn zero_write(port: u32, key: u32) -> Action {
    Action::Call(port, write_frame(key, KeyInfo { data_size: 1, data_type: TYPE_UI8 }, seq![0u8]))
}

pub proof fn lemma_continues_join(a: Dialog, b: Dialog, c: Dialog)
    requires
        continues(a, b),
        continues(b, c),
    ensures
        continues(a, c),
{
    assert(c.asked.take(a.asked.len() as int) =~= c.asked.take(b.asked.len() as int).take(
        a.asked.len() as int,
    ));
}

proof fn lemma_knows_parts(d0: Dialog, d1: Dialog, d2: Dialog)
    requires
        continues(d0, d1),
        continues(d1, d2),
        knows_its_keys(d0, d2),
    ensures
        knows_its_keys(d0, d1),
        knows_its_keys(d1, d2),
{
    assert forall|i: int|
        d0.asked.len() <= i < d1.asked.len() && asks_switch(
            #[trigger] d1.asked[i],
        ) implies says_ui8(reply_at(d1, i)) by {
        assert(d2.asked.take(d1.asked.len() as int)[i] == d2.asked[i]);
        assert(asks_switch(d2.asked[i]));
    }
}

/// A call begins with its request.
pub proof fn lemma_calling_begins(port: u32, f: Frame, d: Dialog, b: bool, t: bool)
    ensures
        ({
            let d1 = calling(port, f, d, b, t).1;
            &&& continues(d, d1)
            &&& d1.asked.len() > d.asked.len()
            &&& d1.asked[d.asked.len() as int] == Action::Call(port, f)
        }),
    decreases (if b { 0int } else { 1int }) + (if t { 0int } else { 1int }),
{
    let a = Action::Call(port, f);
    let d1 = d.after(a);
    assert(d1.asked.take(d.asked.len() as int) =~= d.asked);
    let reply = d.answer();
    if reply.kr == K_IO_RETURN_BUSY && !b {
        let d2 = d1.after(Action::Sleep(10));
        assert(d2.asked.take(d.asked.len() as int) =~= d.asked);
        lemma_calling_begins(port, f, d2, true, t);
        let d3 = calling(port, f, d2, true, t).1;
        lemma_continues_join(d, d2, d3);
        assert(d3.asked.take(d2.asked.len() as int)[d.asked.len() as int] == a);
    } else if reply.kr == K_IO_RETURN_TIMEOUT && !t {
        let d2 = d1.after(Action::Sleep(50));
        assert(d2.asked.take(d.asked.len() as int) =~= d.asked);
        lemma_calling_begins(port, f, d2, b, true);
        let d3 = calling(port, f, d2, b, true).1;
        lemma_continues_join(d, d2, d3);
        assert(d3.asked.take(d2.asked.len() as int)[d.asked.len() as int] == a);
    }
}

proof fn lemma_working_write(c: Conn, t: Target, d: Dialog)
    requires
        usable(c),
        serves(c, t.fourcc()),
        switches(t),
        knows_its_keys(d, writing_u8(c, t, 0, d).2),
    ensures
        ({
            let (w, c1, d1) = writing_u8(c, t, 0, d);
            &&& usable(c1) && c1.port == c.port
            &&& forall|k: u32| serves(c, k) ==> #[trigger] serves(c1, k)
            &&& continues(d, d1)
            &&& asked_between(d, d1, zero_write(c.port, t.fourcc()))
        }),
{
    let k = t.fourcc();
    if let Target::FanMode(i) = t {
        assert(k == fan_mode_fourcc(i));
    }
    lemma_writing_u8(c, t, 0, d);
    let (info, c1, d1) = reading_info(c, k, d);
    let (_, c2, d2) = writing_u8(c, t, 0, d);
    if c.remembered(k) is None {
        let f = key_frame(SMC_CMD_GET_KEY_INFO, k, 0, 0);
        let n = d.asked.len() as int;
        lemma_calling_begins(c.port, f, d, false, false);
        if info is Ok {
            let ki = info->Ok_0;
            if seq![0u8].len() == ki.data_size && ki.data_size <= 32 {
                lemma_calling_begins(c1.port, write_frame(k, ki, seq![0u8]), d1, false, false);
                assert(d2.asked.take(d1.asked.len() as int)[n] == d2.asked[n]);
            }
        }
        assert(d2.asked[n] == Action::Call(c.port, f));
        assert(asks_switch(d2.asked[n]));
        assert(reply_at(d2, n) == d.answer());
        assert(says_ui8(d.answer()));
    } else {
        lemma_tame_none(d);
    }
    assert(info == Ok::<KeyInfo, SmcError>(KeyInfo { data_size: 1, data_type: TYPE_UI8 }));
    let w = write_frame(k, KeyInfo { data_size: 1, data_type: TYPE_UI8 }, seq![0u8]);
    lemma_calling_begins(c.port, w, d1, false, false);
    assert(d2.asked[d1.asked.len() as int] == zero_write(c.port, k));
    assert forall|j: u32| serves(c, j) implies #[trigger] serves(c1, j) by {
        law_keys_are_not_mixed_up(c, k, Some((1u32, TYPE_UI8)), j);
    }
}

proof fn lemma_between_grows(d0: Dialog, d1: Dialog, d2: Dialog, a: Action)
    requires
        continues(d1, d2),
        d0.asked.len() <= d1.asked.len(),
        asked_between(d0, d1, a),
    ensures
        asked_between(d0, d2, a),
{
    let k = choose|k: int| d0.asked.len() <= k < d1.asked.len() && #[trigger] d1.asked[k] == a;
    assert(d2.asked.take(d1.asked.len() as int)[k] == d2.asked[k]);
    assert(d2.asked[k] == a);
}

proof fn lemma_between_later(d0: Dialog, d1: Dialog, d2: Dialog, a: Action)
    requires
        d0.asked.len() <= d1.asked.len(),
        asked_between(d1, d2, a),
    ensures
        asked_between(d0, d2, a),
{
    let k = choose|k: int| d1.asked.len() <= k < d2.asked.len() && #[trigger] d2.asked[k] == a;
    assert(d2.asked[k] == a);
}

/// On a machine that knows the modes of its fans, giving fans back writes a zero
/// to the mode of every one of them and to the unlock, whatever the SMC replies
/// to the writes.
pub proof fn law_release_reaches_every_fan(c: Conn, fans: Seq<u8>, i: nat, d: Dialog)
    requires
        ready(c, fans),
        knows_its_keys(d, releasing_all(c, fans, i, d).1),
        i <= fans.len(),
    ensures
        continues(d, releasing_all(c, fans, i, d).1),
        asked_between(d, releasing_all(c, fans, i, d).1, zero_write(c.port, KEY_FTST)),
        forall|j: int|
            i <= j < fans.len() ==> asked_between(
                d,
                releasing_all(c, fans, i, d).1,
                zero_write(c.port, fan_mode_fourcc(#[trigger] fans[j])),
            ),
    decreases fans.len() - i,
{
    if i == fans.len() {
        lemma_working_write(c, Target::Unlock, d);
    } else {
        let t = Target::FanMode(fans[i as int]);
        let (_, c1, d1) = writing_u8(c, t, 0, d);
        let d2 = releasing_all(c1, fans, i + 1, d1).1;
        lemma_writing_u8(c, t, 0, d);
        law_emergency_release_is_tame(c1, fans, i + 1, d1);
        lemma_knows_parts(d, d1, d2);
        assert(serves(c, fan_mode_fourcc(fans[i as int])));
        lemma_working_write(c, t, d);
        assert(ready(c1, fans));
        law_release_reaches_every_fan(c1, fans, i + 1, d1);
        lemma_continues_join(d, d1, d2);
        lemma_between_later(d, d1, d2, zero_write(c.port, KEY_FTST));
        lemma_between_grows(d, d1, d2, zero_write(c.port, t.fourcc()));
        assert forall|j: int| i <= j < fans.len() implies asked_between(
            d,
            d2,
            zero_write(c.port, fan_mode_fourcc(#[trigger] fans[j])),
        ) by {
            if j > i {
                lemma_between_later(d, d1, d2, zero_write(c.port, fan_mode_fourcc(fans[j])));
            }
        }
    }
}

proof fn lemma_release_fans_working(c: Conn, fans: Seq<Fan>, i: nat, d: Dialog)
    requires
        ready(c, indices(fans)),
        knows_its_keys(d, releasing_fans(c, fans, i, d).1),
        i <= fans.len(),
    ensures
        ({
            let (c1, d1) = releasing_fans(c, fans, i, d);
            &&& usable(c1) && c1.port == c.port && serves(c1, KEY_FTST)
            &&& continues(d, d1)
            &&& forall|j: int|
                i <= j < fans.len() ==> asked_between(
                    d,
                    d1,
                    zero_write(c.port, fan_mode_fourcc((#[trigger] fans[j]).index)),
                )
        }),
    decreases fans.len() - i,
{
    lemma_releasing_fans(c, fans, i, d);
    if i < fans.len() {
        let t = Target::FanMode(fans[i as int].index);
        let (_, c1, d1) = writing_u8(c, t, 0, d);
        let d2 = releasing_fans(c1, fans, i + 1, d1).1;
        lemma_writing_u8(c, t, 0, d);
        lemma_releasing_fans(c1, fans, i + 1, d1);
        lemma_knows_parts(d, d1, d2);
        assert(serves(c, fan_mode_fourcc(indices(fans)[i as int])));
        lemma_working_write(c, t, d);
        assert(ready(c1, indices(fans)));
        lemma_release_fans_working(c1, fans, i + 1, d1);
        lemma_between_grows(d, d1, d2, zero_write(c.port, t.fourcc()));
        assert forall|j: int| i <= j < fans.len() implies asked_between(
            d,
            d2,
            zero_write(c.port, fan_mode_fourcc((#[trigger] fans[j]).index)),
        ) by {
            if j > i {
                lemma_between_later(d, d1, d2, zero_write(c.port, fan_mode_fourcc(fans[j].index)));
            }
        }
    }
}

/// On a machine that knows the modes of its fans, a teardown writes a zero to
/// the mode of every fan of the session and to the unlock, whatever the SMC
/// replies to the writes, and leaves the connection closed and the unlock given
/// up.
pub proof fn law_teardown_reaches_every_fan(s: Session, d: Dialog)
    requires
        ready(s.conn, indices(s.fans)),
        knows_its_keys(d, tearing_down(s, d).1),
    ensures
        !tearing_down(s, d).0.conn.open,
        tearing_down(s, d).0.unlock is None,
        asked_between(d, tearing_down(s, d).1, zero_write(s.conn.port, KEY_FTST)),
        forall|j: int|
            0 <= j < s.fans.len() ==> asked_between(
                d,
                tearing_down(s, d).1,
                zero_write(s.conn.port, fan_mode_fourcc((#[trigger] s.fans[j]).index)),
            ),
{
    let (c1, d1) = releasing_fans(s.conn, s.fans, 0, d);
    lemma_releasing_fans(s.conn, s.fans, 0, d);
    let s1 = Session { conn: c1, ..s };
    lemma_releasing_unlock(s1, d1);
    let (s2, d2) = releasing_unlock(s1, d1);
    lemma_writing_u8(s2.conn, Target::Unlock, 0, d2);
    let (_, c3, d3) = writing_u8(s2.conn, Target::Unlock, 0, d2);
    lemma_closing(c3, d3);
    let (c4, d4) = closing(c3, d3);
    lemma_continues_join(d1, d2, d3);
    lemma_continues_join(d1, d3, d4);
    lemma_knows_parts(d, d1, d4);
    lemma_release_fans_working(s.conn, s.fans, 0, d);
    lemma_unlock_is_written(s1, d1, d2, d3, d4);
    lemma_between_later(d, d1, d4, zero_write(s.conn.port, KEY_FTST));
    assert forall|j: int| 0 <= j < s.fans.len() implies asked_between(
        d,
        d4,
        zero_write(s.conn.port, fan_mode_fourcc((#[trigger] s.fans[j]).index)),
    ) by {
        lemma_between_grows(
            d,
            d1,
            d4,
            zero_write(s.conn.port, fan_mode_fourcc(s.fans[j].index)),
        );
    }
}

/// After the fans, the unlock is written: with a readback if it is held, and
/// without one.
proof fn lemma_unlock_is_written(s: Session, d1: Dialog, d2: Dialog, d3: Dialog, d4: Dialog)
    requires
        usable(s.conn),
        serves(s.conn, KEY_FTST),
        d2 == releasing_unlock(s, d1).1,
        d3 == writing_u8(releasing_unlock(s, d1).0.conn, Target::Unlock, 0, d2).2,
        continues(d1, d2),
        continues(d2, d3),
        continues(d3, d4),
        knows_its_keys(d1, d4),
    ensures
        asked_between(d1, d4, zero_write(s.conn.port, KEY_FTST)),
{
    let w = zero_write(s.conn.port, KEY_FTST);
    lemma_continues_join(d1, d2, d3);
    lemma_knows_parts(d1, d3, d4);
    lemma_knows_parts(d1, d2, d3);
    if s.unlock is None {
        lemma_working_write(s.conn, Target::Unlock, d2);
        lemma_between_later(d1, d2, d3, w);
        lemma_between_grows(d1, d3, d4, w);
    } else {
        let e = d1.after(Action::StopWatchdog);
        let e1 = e.after(Action::Clock);
        lemma_tame_step(d1, Action::StopWatchdog);
        lemma_tame_step(e, Action::Clock);
        lemma_continues_join(d1, e, e1);
        lemma_writing_u8(s.conn, Target::Unlock, 0, e1);
        let (r, c1, e2) = writing_u8(s.conn, Target::Unlock, 0, e1);
        lemma_reading_key(c1, KEY_FTST, e2);
        lemma_tame_none(e2);
        assert(continues(e2, d2));
        lemma_continues_join(e1, e2, d2);
        lemma_knows_parts(d1, e1, d2);
        lemma_knows_parts(e1, e2, d2);
        lemma_working_write(s.conn, Target::Unlock, e1);
        lemma_between_later(d1, e1, e2, w);
        lemma_between_grows(d1, e2, d2, w);
        lemma_between_grows(d1, d2, d3, w);
        lemma_between_grows(d1, d3, d4, w);
    }
}

/// Nothing wrong is remembered of the modes and of the unlock.
pub open spec fn sound(c: Conn) -> bool {
    c.complete() && forall|k: u32| is_switch(k) ==> #[trigger] serves(c, k)
}

/// The same client: what is remembered may differ.
pub open spec fn same_client(c: Conn, c1: Conn) -> bool {
    c1.open == c.open && c1.port == c.port
}

proof fn lemma_sound_is_ready(c: Conn, fans: Seq<u8>)
    requires
        sound(c),
        c.open,
        c.port != MACH_PORT_NULL,
    ensures
        ready(c, fans),
{
    assert(is_switch(KEY_FTST));
    assert forall|j: int| 0 <= j < fans.len() implies serves(
        c,
        fan_mode_fourcc(#[trigger] fans[j]),
    ) by {
        assert(is_switch(fan_mode_fourcc(fans[j])));
    }
}

proof fn lemma_caching_sound(c: Conn, k: u32, entry: Option<(u32, u32)>)
    requires
        sound(c),
        is_switch(k) ==> (entry matches Some(e) ==> e == (1u32, TYPE_UI8)),
    ensures
        sound(c.caching(k, entry)),
{
    let c1 = c.caching(k, entry);
    assert forall|j: u32| is_switch(j) implies #[trigger] serves(c1, j) by {
        assert(serves(c, j));
        law_keys_are_not_mixed_up(c, k, entry, j);
    }
}

proof fn lemma_info_sound(c: Conn, k: u32, d: Dialog)
    requires
        sound(c),
        knows_its_keys(d, reading_info(c, k, d).2),
    ensures
        sound(reading_info(c, k, d).1),
        same_client(c, reading_info(c, k, d).1),
        continues(d, reading_info(c, k, d).2),
{
    lemma_reading_info(c, k, d);
    if c.remembered(k) is None && usable(c) {
        let (info, c1, d1) = asking_info(c, k, d);
        let f = key_frame(SMC_CMD_GET_KEY_INFO, k, 0, 0);
        let n = d.asked.len() as int;
        lemma_calling_begins(c.port, f, d, false, false);
        if is_switch(k) {
            assert(asks_switch(d1.asked[n]));
            assert(reply_at(d1, n) == d.answer());
            assert(says_ui8(d.answer()));
            lemma_caching_sound(c, k, Some((1u32, TYPE_UI8)));
        } else {
            lemma_caching_sound(c, k, c1.cache[super::cache::slot_of(k)]);
            assert(c1 =~= c || c1 =~= c.caching(k, c1.cache[super::cache::slot_of(k)]));
        }
    }
}

/// Reading any key on a machine that knows the modes of its fans: nothing wrong
/// is remembered of them afterwards either.
pub proof fn law_reading_keeps_sound(c: Conn, k: u32, d: Dialog)
    requires
        sound(c),
        knows_its_keys(d, reading_key(c, k, d).2),
    ensures
        sound(reading_key(c, k, d).1),
        same_client(c, reading_key(c, k, d).1),
        continues(d, reading_key(c, k, d).2),
{
    lemma_reading_key(c, k, d);
    lemma_reading_info(c, k, d);
    let (info, c1, d1) = reading_info(c, k, d);
    let d2 = reading_key(c, k, d).2;
    if let Ok(ki) = info {
        let f = key_frame(SMC_CMD_READ_KEY, k, ki.data_size, ki.data_type);
        lemma_commanding(c1, f, d1);
    } else {
        lemma_tame_none(d1);
    }
    lemma_knows_parts(d, d1, d2);
    lemma_info_sound(c, k, d);
    lemma_caching_sound(c1, k, None);
}

/// Writing any key does not change that either.
pub proof fn law_writing_keeps_sound(c: Conn, k: u32, v: Seq<u8>, d: Dialog)
    requires
        sound(c),
        knows_its_keys(d, writing(c, k, v, d).2),
    ensures
        sound(writing(c, k, v, d).1),
        same_client(c, writing(c, k, v, d).1),
{
    lemma_reading_info(c, k, d);
    let (info, c1, d1) = reading_info(c, k, d);
    let d2 = writing(c, k, v, d).2;
    lemma_tame_none(d1);
    if let Ok(ki) = info {
        lemma_calling_begins(c1.port, write_frame(k, ki, v), d1, false, false);
    }
    lemma_knows_parts(d, d1, d2);
    lemma_info_sound(c, k, d);
}

/// A reading on the way to `dn`.
proof fn lemma_key_on_the_way(c: Conn, k: u32, d: Dialog, dn: Dialog)
    requires
        sound(c),
        knows_its_keys(d, dn),
        continues(reading_key(c, k, d).2, dn),
    ensures
        sound(reading_key(c, k, d).1),
        same_client(c, reading_key(c, k, d).1),
        knows_its_keys(reading_key(c, k, d).2, dn),
{
    let d1 = reading_key(c, k, d).2;
    lemma_reading_key(c, k, d);
    lemma_knows_parts(d, d1, dn);
    law_reading_keeps_sound(c, k, d);
}

proof fn lemma_mode_key_sound(c: Conn, i: u8, d: Dialog)
    requires
        sound(c),
        knows_its_keys(d, probing_mode_key(c, i, d).2),
    ensures
        sound(probing_mode_key(c, i, d).1),
        same_client(c, probing_mode_key(c, i, d).1),
{
    let lower = fan_fourcc(i, LOWER_M, LOWER_D);
    let upper = fan_fourcc(i, UPPER_M, LOWER_D);
    let dn = probing_mode_key(c, i, d).2;
    let (r, c1, d1) = reading_info(c, lower, d);
    lemma_reading_info(c, lower, d);
    lemma_reading_info(c1, upper, d1);
    lemma_tame_none(d1);
    lemma_knows_parts(d, d1, dn);
    lemma_info_sound(c, lower, d);
    if r matches Err(SmcError::KeyNotFound(_)) {
        lemma_info_sound(c1, upper, d1);
    }
}

proof fn lemma_fan_sound(c: Conn, i: u8, d: Dialog)
    requires
        sound(c),
        knows_its_keys(d, reading_fan(c, i, d).2),
    ensures
        sound(reading_fan(c, i, d).1),
        same_client(c, reading_fan(c, i, d).1),
{
    let k1 = fan_fourcc(i, UPPER_M, LOWER_N);
    let k2 = fan_fourcc(i, UPPER_M, LOWER_X);
    let k3 = fan_fourcc(i, UPPER_S, LOWER_F);
    let k4 = fan_fourcc(i, UPPER_A, LOWER_C);
    let dn = reading_fan(c, i, d).2;
    let (min, c1, d1) = reading_f32(c, k1, d);
    let (max, c2, d2) = reading_f32(c1, k2, d1);
    let (safe, c3, d3) = reading_f32(c2, k3, d2);
    let (actual, c4, d4) = reading_f32(c3, k4, d3);
    let (_, c5, d5) = probing_mode_key(c4, i, d4);
    lemma_reading_key(c1, k2, d1);
    lemma_reading_key(c2, k3, d2);
    lemma_reading_key(c3, k4, d3);
    lemma_mode_key(c4, i, d4);
    lemma_tame_none(d1);
    lemma_tame_none(d2);
    lemma_tame_none(d3);
    lemma_tame_none(d4);
    lemma_continues_join(d3, d4, d5);
    lemma_continues_join(d2, d3, d4);
    lemma_continues_join(d2, d3, d5);
    lemma_continues_join(d1, d2, d3);
    lemma_continues_join(d1, d2, d4);
    lemma_continues_join(d1, d2, d5);
    lemma_key_on_the_way(c, k1, d, dn);
    if min is Ok {
        lemma_key_on_the_way(c1, k2, d1, dn);
        if max is Ok {
            lemma_key_on_the_way(c2, k3, d2, dn);
            if safe is Ok || safe matches Err(SmcError::KeyNotFound(_)) {
                lemma_key_on_the_way(c3, k4, d3, dn);
                if actual is Ok {
                    lemma_mode_key_sound(c4, i, d4);
                }
            }
        }
    }
}

proof fn lemma_fans_sound(c: Conn, i: int, n: int, known: Seq<Fan>, d: Dialog)
    requires
        sound(c),
        knows_its_keys(d, reading_fans(c, i, n, known, d).2),
    ensures
        sound(reading_fans(c, i, n, known, d).1),
        same_client(c, reading_fans(c, i, n, known, d).1),
    decreases n - i,
{
    if i < n {
        let (r, c1, d1) = reading_fan(c, i as u8, d);
        let dn = reading_fans(c, i, n, known, d).2;
        lemma_fan(c, i as u8, d);
        if let Ok(fan) = r {
            lemma_fans(c1, i + 1, n, known.push(fan), d1);
            lemma_knows_parts(d, d1, dn);
            lemma_fan_sound(c, i as u8, d);
            lemma_fans_sound(c1, i + 1, n, known.push(fan), d1);
        } else {
            lemma_fan_sound(c, i as u8, d);
        }
    }
}

proof fn lemma_enumerating_sound(c: Conn, d: Dialog)
    requires
        sound(c),
        knows_its_keys(d, enumerating(c, d).2),
    ensures
        sound(enumerating(c, d).1),
        same_client(c, enumerating(c, d).1),
{
    let dn = enumerating(c, d).2;
    let (keys, c1, d1) = reading_key_count(c, d);
    let (count, c2, d2) = reading_u8(c1, KEY_FNUM, d1);
    lemma_reading_key(c1, KEY_FNUM, d1);
    lemma_tame_none(d1);
    lemma_tame_none(d2);
    if let Ok(n) = count {
        lemma_fans(c2, 0, n as int, Seq::empty(), d2);
        lemma_continues_join(d1, d2, reading_fans(c2, 0, n as int, Seq::empty(), d2).2);
    }
    lemma_key_on_the_way(c, KEY_COUNT, d, dn);
    if keys is Ok {
        lemma_key_on_the_way(c1, KEY_FNUM, d1, dn);
        if let Ok(n) = count {
            lemma_fans_sound(c2, 0, n as int, Seq::empty(), d2);
        }
    }
}

/// A session that was taken on a machine that knows the modes of its fans can
/// give them back, on each of its three connections.
pub proof fn law_sessions_begin_ready(d: Dialog)
    requires
        acquiring(d).0 is Ok,
        knows_its_keys(d, acquiring(d).1),
    ensures
        ({
            let (main, teardown, panic, fans) = acquiring(d).0->Ok_0;
            &&& main.port != MACH_PORT_NULL ==> ready(main, indices(fans))
            &&& teardown.port != MACH_PORT_NULL ==> ready(teardown, indices(fans))
            &&& panic.port != MACH_PORT_NULL ==> ready(panic, indices(fans))
        }),
{
    let (main, teardown, panic, fans) = acquiring(d).0->Ok_0;
    let (o1, d1) = opening(d);
    let (o2, d2) = opening(d1);
    let (o3, d3) = opening(d2);
    law_opening_is_quiet(d);
    law_opening_is_quiet(d1);
    law_opening_is_quiet(d2);
    lemma_continues_join(d, d1, d2);
    lemma_continues_join(d, d2, d3);
    let c = o1->Ok_0;
    law_finding_fans_is_quiet(c, d3);
    lemma_knows_parts(d, d3, acquiring(d).1);
    lemma_enumerating_sound(c, d3);
    if main.port != MACH_PORT_NULL {
        lemma_sound_is_ready(main, indices(fans));
    }
    if teardown.port != MACH_PORT_NULL {
        law_fresh_connections_are_ready(d1, indices(fans));
    }
    if panic.port != MACH_PORT_NULL {
        law_fresh_connections_are_ready(d2, indices(fans));
    }
}

} // verus!
