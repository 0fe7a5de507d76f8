//! What is read without writing anything.

use super::connection::{
    calling, closing, commanding, key_frame, opening, reading_attributes, reading_f32,
    reading_index, reading_info, reading_key, reading_u8, Conn,
};
use super::enumerate::{
    enumerating, probing_mode_key, reading_fan, reading_fans, reading_key_count, Fan,
};
use super::error::{K_IO_RETURN_BUSY, K_IO_RETURN_TIMEOUT};
use super::exchange::{Action, Dialog};
use super::keys::{
    fan_fourcc, KEY_FNUM, LOWER_C, LOWER_D, LOWER_F, LOWER_M, LOWER_N, LOWER_X,
    SMC_CMD_GET_KEY_FROM_IDX, SMC_CMD_GET_KEY_INFO, SMC_CMD_READ_KEY, SMC_CMD_WRITE_KEY, UPPER_A,
    UPPER_M, UPPER_S,
};
use super::param::{blank, Frame};
use super::safety::{continues, stays_tame};
use super::warning::Warning;
use vstd::prelude::*;

verus! {

/// An action that writes nothing to the SMC.
pub open spec fn quiet(a: Action) -> bool {
    match a {
        Action::Call(_, f) => f.data8 != SMC_CMD_WRITE_KEY,
        _ => true,
    }
}

/// Nothing that was asked between `d0` and `d1` writes to the SMC.
pub open spec fn stays_quiet(d0: Dialog, d1: Dialog) -> bool {
    &&& continues(d0, d1)
    &&& forall|i: int| d0.asked.len() <= i < d1.asked.len() ==> quiet(#[trigger] d1.asked[i])
}

/// What writes nothing does no harm.
pub proof fn law_quiet_is_tame(d0: Dialog, d1: Dialog)
    requires
        stays_quiet(d0, d1),
    ensures
        stays_tame(d0, d1),
{
    assert forall|i: int| d0.asked.len() <= i < d1.asked.len() implies super::safety::tame(
        #[trigger] d1.asked[i],
    ) by {
        assert(quiet(d1.asked[i]));
    }
}

pub proof fn lemma_quiet_step(d: Dialog, a: Action)
    requires
        quiet(a),
    ensures
        stays_quiet(d, d.after(a)),
{
    assert(d.after(a).asked.take(d.asked.len() as int) =~= d.asked);
}

pub proof fn lemma_quiet_none(d: Dialog)
    ensures
        stays_quiet(d, d),
{
    assert(d.asked.take(d.asked.len() as int) =~= d.asked);
}

pub proof fn lemma_quiet_join(a: Dialog, b: Dialog, c: Dialog)
    requires
        stays_quiet(a, b),
        stays_quiet(b, c),
    ensures
        stays_quiet(a, c),
{
    assert(c.asked.take(a.asked.len() as int) =~= c.asked.take(b.asked.len() as int).take(
        a.asked.len() as int,
    ));
    assert forall|i: int| a.asked.len() <= i < c.asked.len() implies quiet(
        #[trigger] c.asked[i],
    ) by {
        if i < b.asked.len() {
            assert(c.asked.take(b.asked.len() as int)[i] == c.asked[i]);
            assert(quiet(b.asked[i]));
        }
    }
}

proof fn lemma_calling(port: u32, f: Frame, d: Dialog, b: bool, t: bool)
    requires
        f.data8 != SMC_CMD_WRITE_KEY,
    ensures
        stays_quiet(d, calling(port, f, d, b, t).1),
    decreases (if b { 0int } else { 1int }) + (if t { 0int } else { 1int }),
{
    let reply = d.answer();
    let d1 = d.after(Action::Call(port, f));
    lemma_quiet_step(d, Action::Call(port, f));
    if reply.kr == K_IO_RETURN_BUSY && !b {
        let d2 = d1.after(Action::Sleep(10));
        lemma_quiet_step(d1, Action::Sleep(10));
        lemma_calling(port, f, d2, true, t);
        lemma_quiet_join(d, d1, d2);
        lemma_quiet_join(d, d2, calling(port, f, d2, true, t).1);
    } else if reply.kr == K_IO_RETURN_TIMEOUT && !t {
        let d2 = d1.after(Action::Sleep(50));
        lemma_quiet_step(d1, Action::Sleep(50));
        lemma_calling(port, f, d2, b, true);
        lemma_quiet_join(d, d1, d2);
        lemma_quiet_join(d, d2, calling(port, f, d2, b, true).1);
    }
}

proof fn lemma_commanding(c: Conn, f: Frame, d: Dialog)
    requires
        f.data8 != SMC_CMD_WRITE_KEY,
    ensures
        stays_quiet(d, commanding(c, f, d).1),
{
    lemma_quiet_none(d);
    lemma_calling(c.port, f, d, false, false);
}

pub proof fn lemma_quiet_info(c: Conn, k: u32, d: Dialog)
    ensures
        stays_quiet(d, reading_info(c, k, d).2),
        stays_quiet(d, reading_attributes(c, k, d).1),
{
    lemma_quiet_none(d);
    let f = key_frame(SMC_CMD_GET_KEY_INFO, k, 0, 0);
    lemma_commanding(c, f, d);
    let (r, d1) = commanding(c, f, d);
    if let Ok(output) = r {
        let size = output.key_info.data_size;
        let a = Action::Warn(Warning::SizeClamped { fourcc: k, size });
        lemma_quiet_step(d1, a);
        lemma_quiet_join(d, d1, d1.after(a));
    }
}

pub proof fn lemma_quiet_index(c: Conn, i: u32, d: Dialog)
    ensures
        stays_quiet(d, reading_index(c, i, d).1),
{
    lemma_commanding(c, Frame { data32: i, data8: SMC_CMD_GET_KEY_FROM_IDX, ..blank() }, d);
}

/// Reading a key writes nothing.
pub proof fn law_reading_is_quiet(c: Conn, k: u32, d: Dialog)
    ensures
        stays_quiet(d, reading_key(c, k, d).2),
{
    lemma_quiet_info(c, k, d);
    let (info, c1, d1) = reading_info(c, k, d);
    if let Ok(ki) = info {
        let f = key_frame(SMC_CMD_READ_KEY, k, ki.data_size, ki.data_type);
        lemma_commanding(c1, f, d1);
        lemma_quiet_join(d, d1, commanding(c1, f, d1).1);
    }
}

/// Opening a connection writes nothing.
pub proof fn law_opening_is_quiet(d: Dialog)
    ensures
        stays_quiet(d, opening(d).1),
{
    let end = opening(d).1;
    assert(end.asked.take(d.asked.len() as int) =~= d.asked);
}

/// Closing a connection writes nothing.
pub proof fn law_closing_is_quiet(c: Conn, d: Dialog)
    ensures
        stays_quiet(d, closing(c, d).1),
{
    let end = closing(c, d).1;
    assert(end.asked.take(d.asked.len() as int) =~= d.asked);
}

pub proof fn lemma_mode_key(c: Conn, i: u8, d: Dialog)
    ensures
        stays_quiet(d, probing_mode_key(c, i, d).2),
{
    let lower = fan_fourcc(i, LOWER_M, LOWER_D);
    let upper = fan_fourcc(i, UPPER_M, LOWER_D);
    lemma_quiet_info(c, lower, d);
    let (_, c1, d1) = reading_info(c, lower, d);
    lemma_quiet_info(c1, upper, d1);
    lemma_quiet_join(d, d1, reading_info(c1, upper, d1).2);
}

pub proof fn lemma_fan(c: Conn, i: u8, d: Dialog)
    ensures
        stays_quiet(d, reading_fan(c, i, d).2),
{
    let k1 = fan_fourcc(i, UPPER_M, LOWER_N);
    let k2 = fan_fourcc(i, UPPER_M, LOWER_X);
    let k3 = fan_fourcc(i, UPPER_S, LOWER_F);
    let k4 = fan_fourcc(i, UPPER_A, LOWER_C);
    law_reading_is_quiet(c, k1, d);
    let (_, c1, d1) = reading_f32(c, k1, d);
    law_reading_is_quiet(c1, k2, d1);
    let (_, c2, d2) = reading_f32(c1, k2, d1);
    lemma_quiet_join(d, d1, d2);
    law_reading_is_quiet(c2, k3, d2);
    let (_, c3, d3) = reading_f32(c2, k3, d2);
    lemma_quiet_join(d, d2, d3);
    law_reading_is_quiet(c3, k4, d3);
    let (_, c4, d4) = reading_f32(c3, k4, d3);
    lemma_quiet_join(d, d3, d4);
    lemma_mode_key(c4, i, d4);
    lemma_quiet_join(d, d4, probing_mode_key(c4, i, d4).2);
}

pub proof fn lemma_fans(c: Conn, i: int, n: int, known: Seq<Fan>, d: Dialog)
    ensures
        stays_quiet(d, reading_fans(c, i, n, known, d).2),
    decreases n - i,
{
    lemma_quiet_none(d);
    if i < n {
        lemma_fan(c, i as u8, d);
        let (r, c1, d1) = reading_fan(c, i as u8, d);
        if let Ok(fan) = r {
            lemma_fans(c1, i + 1, n, known.push(fan), d1);
            lemma_quiet_join(d, d1, reading_fans(c1, i + 1, n, known.push(fan), d1).2);
        }
    }
}

/// Finding the fans writes nothing.
pub proof fn law_finding_fans_is_quiet(c: Conn, d: Dialog)
    ensures
        stays_quiet(d, enumerating(c, d).2),
{
    law_reading_is_quiet(c, super::keys::KEY_COUNT, d);
    let (_, c1, d1) = reading_key_count(c, d);
    law_reading_is_quiet(c1, KEY_FNUM, d1);
    let (count, c2, d2) = reading_u8(c1, KEY_FNUM, d1);
    lemma_quiet_join(d, d1, d2);
    if let Ok(n) = count {
        lemma_fans(c2, 0, n as int, Seq::empty(), d2);
        lemma_quiet_join(d, d2, reading_fans(c2, 0, n as int, Seq::empty(), d2).2);
    }
}

} // verus!
