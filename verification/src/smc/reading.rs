//! What a successful reading says about the dialogue with the machine: the value
//! is what the SMC replied when that very key was read.

use super::connection::{
    key_frame, reading_f32, reading_info, reading_key, reading_u32, reading_u8, Conn,
};
use super::enumerate::{
    enumerating, probing_mode_key, reading_fan, reading_fans, reading_key_count, Fan,
};
use super::error::SmcError;
use super::exchange::{Action, Dialog, Reply};
use super::forcing::{accepted, lemma_calling_ends};
use super::keys::{
    fan_fourcc, KEY_COUNT, KEY_FNUM, LOWER_C, LOWER_D, LOWER_F, LOWER_M, LOWER_N, LOWER_X,
    SMC_CMD_READ_KEY, UPPER_A, UPPER_M, UPPER_S,
};
use super::quiet::{
    law_reading_is_quiet, lemma_fan, lemma_fans, lemma_mode_key, lemma_quiet_info,
};
use super::release::{lemma_continues_join, reply_at};
use super::safety::{continues, lemma_tame_none};
use crate::flt::Flt;
use vstd::prelude::*;

verus! {

/// The key of four characters: `F`, the digit of a fan, and two more.
pub open spec fn fan_key_of(fan: int, c3: int, c4: int) -> int {
    0x4600_0000 + ((0x30 + fan) % 0x100) * 0x1_0000 + c3 * 0x100 + c4
}

/// The `i`-th request read a key, and was accepted.
pub open spec fn reads(d: Dialog, i: int, port: u32, key: int) -> bool {
    &&& d.asked[i] matches Action::Call(p, f) && {
        &&& p == port
        &&& f.data8 == SMC_CMD_READ_KEY
        &&& f.key == key
    }
    &&& accepted(reply_at(d, i))
}

/// The float in the first four bytes of a reply, the least significant first.
pub open spec fn float_in(r: Reply) -> int {
    r.output.bytes@[0] + r.output.bytes@[1] * 0x100 + r.output.bytes@[2] * 0x1_0000
        + r.output.bytes@[3] * 0x100_0000
}

/// Between `d0` and `d1` a key was read, and the float came back.
pub open spec fn float_was_read(d0: Dialog, d1: Dialog, port: u32, key: int, v: Flt) -> bool {
    exists|i: int|
        d0.asked.len() <= i < d1.asked.len() && #[trigger] reads(d1, i, port, key) && float_in(
            reply_at(d1, i),
        ) == v.bits
}

/// Between `d0` and `d1` a key was read, and the byte came back.
pub open spec fn byte_was_read(d0: Dialog, d1: Dialog, port: u32, key: int, v: u8) -> bool {
    exists|i: int|
        d0.asked.len() <= i < d1.asked.len() && #[trigger] reads(d1, i, port, key) && reply_at(
            d1,
            i,
        ).output.bytes@[0] == v
}

/// A reading that succeeds ends with the accepted request for that very key, and
/// yields the bytes of the reply. The connection stays with its client.
pub proof fn law_reading_means_read(c: Conn, k: u32, d: Dialog)
    ensures
        ({
            let (r, c1, d1) = reading_key(c, k, d);
            let n = d1.asked.len() - 1;
            &&& continues(d, d1)
            &&& c1.port == c.port
            &&& c1.open == c.open
            &&& r matches Ok((_, bytes)) ==> {
                &&& d.asked.len() <= n
                &&& reads(d1, n, c.port, k as int)
                &&& bytes == reply_at(d1, n).output.bytes
            }
        }),
{
    law_reading_is_quiet(c, k, d);
    lemma_quiet_info(c, k, d);
    let (r, c1, d1) = reading_key(c, k, d);
    if r is Ok {
        let (info, c0, d0) = reading_info(c, k, d);
        let ki = info->Ok_0;
        lemma_calling_ends(
            c0.port,
            key_frame(SMC_CMD_READ_KEY, k, ki.data_size, ki.data_type),
            d0,
            false,
            false,
        );
    }
}

/// A float that was read is finite, and is the one that the SMC replied for that
/// very key.
pub proof fn law_floats_are_what_was_read(c: Conn, k: u32, d: Dialog)
    ensures
        ({
            let (r, c1, d1) = reading_f32(c, k, d);
            &&& continues(d, d1)
            &&& c1.port == c.port
            &&& r matches Ok(v) ==> v.finite() && float_was_read(d, d1, c.port, k as int, v)
        }),
{
    law_reading_means_read(c, k, d);
    let (r, c1, d1) = reading_f32(c, k, d);
    if let Ok(v) = r {
        assert(reads(d1, d1.asked.len() - 1, c.port, k as int));
    }
}

/// A byte that was read is the one that the SMC replied for that very key.
pub proof fn law_bytes_are_what_was_read(c: Conn, k: u32, d: Dialog)
    ensures
        ({
            let (r, c1, d1) = reading_u8(c, k, d);
            &&& continues(d, d1)
            &&& c1.port == c.port
            &&& r matches Ok(v) ==> byte_was_read(d, d1, c.port, k as int, v)
        }),
{
    law_reading_means_read(c, k, d);
    let (r, c1, d1) = reading_u8(c, k, d);
    if let Ok(v) = r {
        assert(reads(d1, d1.asked.len() - 1, c.port, k as int));
    }
}

/// A number that was read is the one that the SMC replied for that very key, the
/// most significant byte first.
pub proof fn law_numbers_are_what_was_read(c: Conn, k: u32, d: Dialog)
    ensures
        ({
            let (r, c1, d1) = reading_u32(c, k, d);
            let n = d1.asked.len() - 1;
            let b = reply_at(d1, n).output.bytes@;
            &&& continues(d, d1)
            &&& c1.port == c.port
            &&& r matches Ok(v) ==> {
                &&& reads(d1, n, c.port, k as int)
                &&& v == b[0] * 0x100_0000 + b[1] * 0x1_0000 + b[2] * 0x100 + b[3]
            }
        }),
{
    law_reading_means_read(c, k, d);
}

pub proof fn lemma_float_still_read(
    a: Dialog,
    b: Dialog,
    c: Dialog,
    e: Dialog,
    port: u32,
    key: int,
    v: Flt,
)
    requires
        a.asked.len() <= b.asked.len(),
        continues(c, e),
        float_was_read(b, c, port, key, v),
    ensures
        float_was_read(a, e, port, key, v),
{
    let i = choose|i: int|
        b.asked.len() <= i < c.asked.len() && #[trigger] reads(c, i, port, key) && float_in(
            reply_at(c, i),
        ) == v.bits;
    assert(e.asked.take(c.asked.len() as int)[i] == e.asked[i]);
    assert(reads(e, i, port, key));
}

/// The description of fan `i` is what the SMC replied for the keys of that fan:
/// `F<i>Mn`, `F<i>Mx`, `F<i>Ac`, and `F<i>Sf` if it has one. Its mode key is
/// `F<i>md` or `F<i>Md`.
pub open spec fn described(d0: Dialog, d1: Dialog, port: u32, i: int, fan: Fan) -> bool {
    &&& fan.index == i
    &&& float_was_read(d0, d1, port, fan_key_of(i, 0x4D, 0x6E), fan.min_rpm)
    &&& float_was_read(d0, d1, port, fan_key_of(i, 0x4D, 0x78), fan.max_rpm)
    &&& float_was_read(d0, d1, port, fan_key_of(i, 0x41, 0x63), fan.actual_rpm)
    &&& fan.safe_rpm matches Some(v) ==> float_was_read(
        d0,
        d1,
        port,
        fan_key_of(i, 0x53, 0x66),
        v,
    )
    &&& fan.mode_key == fan_key_of(i, 0x6D, 0x64) || fan.mode_key == fan_key_of(i, 0x4D, 0x64)
}

proof fn lemma_fan_keys(i: u8)
    ensures
        fan_fourcc(i, UPPER_M, LOWER_N) == fan_key_of(i as int, 0x4D, 0x6E),
        fan_fourcc(i, UPPER_M, LOWER_X) == fan_key_of(i as int, 0x4D, 0x78),
        fan_fourcc(i, UPPER_S, LOWER_F) == fan_key_of(i as int, 0x53, 0x66),
        fan_fourcc(i, UPPER_A, LOWER_C) == fan_key_of(i as int, 0x41, 0x63),
        fan_fourcc(i, LOWER_M, LOWER_D) == fan_key_of(i as int, 0x6D, 0x64),
        fan_fourcc(i, UPPER_M, LOWER_D) == fan_key_of(i as int, 0x4D, 0x64),
{
}

proof fn lemma_described(c: Conn, i: u8, d: Dialog)
    requires
        reading_fan(c, i, d).0 is Ok,
    ensures
        ({
            let (r, c1, d1) = reading_fan(c, i, d);
            &&& continues(d, d1)
            &&& c1.port == c.port
            &&& described(d, d1, c.port, i as int, r->Ok_0)
        }),
{
    let k1 = fan_fourcc(i, UPPER_M, LOWER_N);
    let k2 = fan_fourcc(i, UPPER_M, LOWER_X);
    let k3 = fan_fourcc(i, UPPER_S, LOWER_F);
    let k4 = fan_fourcc(i, UPPER_A, LOWER_C);
    lemma_fan(c, i, d);
    law_floats_are_what_was_read(c, k1, d);
    let (min, c1, d1) = reading_f32(c, k1, d);
    law_floats_are_what_was_read(c1, k2, d1);
    let (max, c2, d2) = reading_f32(c1, k2, d1);
    law_floats_are_what_was_read(c2, k3, d2);
    let (safe, c3, d3) = reading_f32(c2, k3, d2);
    law_floats_are_what_was_read(c3, k4, d3);
    let (actual, c4, d4) = reading_f32(c3, k4, d3);
    lemma_mode_key(c4, i, d4);
    let (mode, c5, d5) = probing_mode_key(c4, i, d4);
    let fan = reading_fan(c, i, d).0->Ok_0;
    assert(min is Ok && max is Ok && actual is Ok && mode is Ok);
    assert(reading_fan(c, i, d).2 == d5 && reading_fan(c, i, d).1 == c5);
    assert(fan.min_rpm == min->Ok_0 && fan.max_rpm == max->Ok_0 && fan.actual_rpm
        == actual->Ok_0);
    assert(c5.port == c4.port);
    lemma_tame_none(d5);
    lemma_continues_join(d3, d4, d5);
    lemma_continues_join(d2, d3, d5);
    lemma_continues_join(d1, d2, d5);
    let p = c.port;
    lemma_float_still_read(d, d, d1, d5, p, k1 as int, fan.min_rpm);
    lemma_float_still_read(d, d1, d2, d5, p, k2 as int, fan.max_rpm);
    if let Some(v) = fan.safe_rpm {
        lemma_float_still_read(d, d2, d3, d5, p, k3 as int, v);
    }
    lemma_float_still_read(d, d3, d4, d5, p, k4 as int, fan.actual_rpm);
    lemma_fan_keys(i);
}

proof fn lemma_described_later(
    a: Dialog,
    b: Dialog,
    c: Dialog,
    e: Dialog,
    port: u32,
    i: int,
    fan: Fan,
)
    requires
        a.asked.len() <= b.asked.len(),
        continues(c, e),
        described(b, c, port, i, fan),
    ensures
        described(a, e, port, i, fan),
{
    lemma_float_still_read(a, b, c, e, port, fan_key_of(i, 0x4D, 0x6E), fan.min_rpm);
    lemma_float_still_read(a, b, c, e, port, fan_key_of(i, 0x4D, 0x78), fan.max_rpm);
    lemma_float_still_read(a, b, c, e, port, fan_key_of(i, 0x41, 0x63), fan.actual_rpm);
    if let Some(v) = fan.safe_rpm {
        lemma_float_still_read(a, b, c, e, port, fan_key_of(i, 0x53, 0x66), v);
    }
}

proof fn lemma_fans_described(c: Conn, i: int, n: int, known: Seq<Fan>, d0: Dialog, d: Dialog)
    requires
        0 <= i <= n <= 255,
        known.len() == i,
        continues(d0, d),
        forall|k: int| 0 <= k < i ==> described(d0, d, c.port, k, #[trigger] known[k]),
        reading_fans(c, i, n, known, d).0 is Ok,
    ensures
        ({
            let (r, c1, d1) = reading_fans(c, i, n, known, d);
            let fans = r->Ok_0;
            &&& fans.len() == n
            &&& forall|k: int| 0 <= k < n ==> described(d0, d1, c.port, k, #[trigger] fans[k])
        }),
    decreases n - i,
{
    if i < n {
        let (r, c1, d1) = reading_fan(c, i as u8, d);
        lemma_described(c, i as u8, d);
        let fan = r->Ok_0;
        let more = known.push(fan);
        lemma_continues_join(d0, d, d1);
        lemma_tame_none(d1);
        assert forall|k: int| 0 <= k < i + 1 implies described(
            d0,
            d1,
            c1.port,
            k,
            #[trigger] more[k],
        ) by {
            if k < i {
                assert(more[k] == known[k]);
                lemma_described_later(d0, d0, d, d1, c.port, k, known[k]);
            } else {
                lemma_described_later(d0, d, d1, d1, c.port, k, fan);
            }
        }
        lemma_fans_described(c1, i + 1, n, more, d0, d1);
    }
}

/// Finding the fans yields as many as the SMC replied for `FNum`, or none if there
/// is no such key; and each of them is described by the keys that bear its own
/// number.
pub proof fn law_every_fan_is_described_by_its_own_keys(c: Conn, d: Dialog)
    requires
        enumerating(c, d).0 is Ok,
    ensures
        ({
            let (r, _, d1) = enumerating(c, d);
            let fans = r->Ok_0;
            &&& fans.len() == 0 || (fans.len() <= 255 && byte_was_read(
                d,
                d1,
                c.port,
                0x464E_756D,
                fans.len() as u8,
            ))
            &&& forall|k: int|
                0 <= k < fans.len() ==> described(d, d1, c.port, k, #[trigger] fans[k])
        }),
{
    law_numbers_are_what_was_read(c, KEY_COUNT, d);
    let (keys, c1, d1) = reading_key_count(c, d);
    law_bytes_are_what_was_read(c1, KEY_FNUM, d1);
    let (count, c2, d2) = reading_u8(c1, KEY_FNUM, d1);
    lemma_continues_join(d, d1, d2);
    lemma_tame_none(d2);
    if let Ok(n) = count {
        lemma_fans_described(c2, 0, n as int, Seq::empty(), d2, d2);
        lemma_fans(c2, 0, n as int, Seq::empty(), d2);
        let d3 = enumerating(c, d).2;
        let fans = enumerating(c, d).0->Ok_0;
        assert forall|k: int| 0 <= k < fans.len() implies described(
            d,
            d3,
            c.port,
            k,
            #[trigger] fans[k],
        ) by {
            lemma_tame_none(d3);
            lemma_described_later(d, d2, d3, d3, c.port, k, fans[k]);
        }
        let i = choose|i: int|
            d1.asked.len() <= i < d2.asked.len() && #[trigger] reads(
                d2,
                i,
                c.port,
                KEY_FNUM as int,
            ) && reply_at(d2, i).output.bytes@[0] == n;
        assert(d3.asked.take(d2.asked.len() as int)[i] == d3.asked[i]);
        assert(reads(d3, i, c.port, KEY_FNUM as int));
    }
}

/// Where the SMC replies a number of fans and refuses nothing, that many are found.
pub proof fn law_as_many_fans_as_replied(c: Conn, d: Dialog, n: u8)
    requires
        reading_key_count(c, d).0 is Ok,
        ({
            let (_, c1, d1) = reading_key_count(c, d);
            reading_u8(c1, KEY_FNUM, d1).0 == Ok::<u8, SmcError>(n)
        }),
        enumerating(c, d).0 is Ok,
    ensures
        enumerating(c, d).0->Ok_0.len() == n,
{
    let (_, c1, d1) = reading_key_count(c, d);
    let (_, c2, d2) = reading_u8(c1, KEY_FNUM, d1);
    lemma_tame_none(d2);
    lemma_fans_described(c2, 0, n as int, Seq::empty(), d2, d2);
}

} // verus!
