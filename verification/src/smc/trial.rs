//! What the self test does with the fans: every fan is switched by its own mode
//! key, and judged by its own speed.

use super::connection::{reading_f32, Conn};
use super::enumerate::Fan;
use super::exchange::{Action, Dialog};
use super::forcing::{
    law_verified_means_written_and_read_back, lemma_beating_goes_on, lemma_mode_key,
    lemma_still_read_back, mode_key, written_and_read_back,
};
use super::keys::{fan_fourcc, Target, LOWER_C, UPPER_A};
use super::reading::{
    fan_key_of, float_was_read, law_floats_are_what_was_read, lemma_float_still_read,
};
use super::release::lemma_continues_join;
use super::safety::{continues, lemma_tame_none, lemma_tame_step};
use super::write_session::{
    beating, sampling, session_write, testing_fan, testing_fans, testing_mode, Readings, Session,
};
use crate::flt::Flt;
use vstd::prelude::*;

verus! {

/// Every value was read from a key between `d0` and `d1`, or is zero, for a reading
/// that failed.
pub open spec fn each_was_read(
    d0: Dialog,
    d1: Dialog,
    port: u32,
    key: int,
    values: Seq<Flt>,
) -> bool {
    forall|j: int|
        0 <= j < values.len() ==> (#[trigger] values[j]).bits == 0 || float_was_read(
            d0,
            d1,
            port,
            key,
            values[j],
        )
}

/// One half of an iteration: five speeds of that very fan.
pub open spec fn five_speeds(
    d0: Dialog,
    d1: Dialog,
    port: u32,
    fan: u8,
    values: Seq<Flt>,
) -> bool {
    values.len() == 5 && each_was_read(d0, d1, port, fan_key_of(fan as int, 0x41, 0x63), values)
}

/// An iteration that was completed: the fan was forced and left to the firmware,
/// each with a readback, and its speed was read five times in each mode.
pub open spec fn iterated(d0: Dialog, d1: Dialog, port: u32, fan: u8, v: Readings) -> bool {
    &&& written_and_read_back(d0, d1, port, mode_key(fan), 1)
    &&& written_and_read_back(d0, d1, port, mode_key(fan), 0)
    &&& five_speeds(d0, d1, port, fan, v.min)
    &&& five_speeds(d0, d1, port, fan, v.auto)
}

proof fn lemma_each_later(a: Dialog, b: Dialog, c: Dialog, e: Dialog, p: u32, k: int, v: Seq<Flt>)
    requires
        a.asked.len() <= b.asked.len(),
        continues(c, e),
        each_was_read(b, c, p, k, v),
    ensures
        each_was_read(a, e, p, k, v),
{
    assert forall|j: int| 0 <= j < v.len() implies (#[trigger] v[j]).bits == 0 || float_was_read(
        a,
        e,
        p,
        k,
        v[j],
    ) by {
        if v[j].bits != 0 {
            lemma_float_still_read(a, b, c, e, p, k, v[j]);
        }
    }
}

proof fn lemma_sampling(c: Conn, key: u32, n: nat, taken: Seq<Flt>, d0: Dialog, d: Dialog)
    requires
        continues(d0, d),
        each_was_read(d0, d, c.port, key as int, taken),
    ensures
        ({
            let (v, c1, d1) = sampling(c, key, n, taken, d);
            &&& v.len() == taken.len() + n
            &&& c1.port == c.port
            &&& continues(d, d1)
            &&& each_was_read(d0, d1, c.port, key as int, v)
        }),
    decreases n,
{
    lemma_tame_none(d);
    if n > 0 {
        let a = Action::Sleep(super::selftest::SAMPLE_INTERVAL_MS);
        let e = d.after(a);
        lemma_tame_step(d, a);
        law_floats_are_what_was_read(c, key, e);
        let (r, c1, d1) = reading_f32(c, key, e);
        lemma_continues_join(d, e, d1);
        lemma_continues_join(d0, d, d1);
        let x = super::write_session::or_zero(r);
        let more = taken.push(x);
        lemma_each_later(d0, d0, d, d1, c.port, key as int, taken);
        assert forall|j: int| 0 <= j < more.len() implies (
        #[trigger] more[j]).bits == 0 || float_was_read(
            d0,
            d1,
            c.port,
            key as int,
            more[j],
        ) by {
            if j < taken.len() {
                assert(more[j] == taken[j]);
            } else if let Ok(v) = r {
                lemma_tame_none(d1);
                lemma_float_still_read(d0, e, d1, d1, c.port, key as int, v);
            }
        }
        lemma_sampling(c1, key, (n - 1) as nat, more, d0, d1);
        lemma_continues_join(d, d1, sampling(c1, key, (n - 1) as nat, more, d1).2);
    }
}

proof fn lemma_testing_mode(s: Session, fan: u8, mode: u8, context: &'static str, d: Dialog)
    requires
        mode <= 1,
        testing_mode(s, fan, mode, context, d).0 is Ok,
    ensures
        ({
            let (r, s1, d1) = testing_mode(s, fan, mode, context, d);
            &&& s1.conn.port == s.conn.port
            &&& continues(d, d1)
            &&& written_and_read_back(d, d1, s.conn.port, mode_key(fan), mode)
            &&& five_speeds(d, d1, s.conn.port, fan, r->Ok_0)
        }),
{
    lemma_mode_key(fan);
    let t = Target::FanMode(fan);
    law_verified_means_written_and_read_back(s.conn, t, mode, context, s.id, d);
    let (w, s1, d1) = session_write(s, t, mode, context, d);
    lemma_beating_goes_on(s1, d1);
    let (s2, d2) = beating(s1, d1);
    lemma_continues_join(d, d1, d2);
    let key = fan_fourcc(fan, UPPER_A, LOWER_C);
    assert(key == fan_key_of(fan as int, 0x41, 0x63));
    lemma_tame_none(d2);
    lemma_sampling(s2.conn, key, 5, Seq::empty(), d2, d2);
    let (v, c3, d3) = sampling(s2.conn, key, 5, Seq::empty(), d2);
    lemma_continues_join(d1, d2, d3);
    lemma_continues_join(d, d1, d3);
    lemma_still_read_back(d, d, d1, d3, s.conn.port, mode_key(fan), mode);
    lemma_tame_none(d3);
    lemma_each_later(d, d2, d3, d3, s.conn.port, key as int, v);
}

proof fn lemma_iterated_later(
    a: Dialog,
    b: Dialog,
    c: Dialog,
    e: Dialog,
    port: u32,
    fan: u8,
    v: Readings,
)
    requires
        a.asked.len() <= b.asked.len(),
        continues(c, e),
        iterated(b, c, port, fan, v),
    ensures
        iterated(a, e, port, fan, v),
{
    let key = fan_key_of(fan as int, 0x41, 0x63);
    lemma_still_read_back(a, b, c, e, port, mode_key(fan), 1);
    lemma_still_read_back(a, b, c, e, port, mode_key(fan), 0);
    lemma_each_later(a, b, c, e, port, key, v.min);
    lemma_each_later(a, b, c, e, port, key, v.auto);
}

proof fn lemma_testing_fan(
    s: Session,
    fan: u8,
    k: nat,
    n: nat,
    taken: Seq<Readings>,
    d0: Dialog,
    d: Dialog,
)
    requires
        k <= n,
        taken.len() == k,
        continues(d0, d),
        forall|j: int| 0 <= j < k ==> iterated(d0, d, s.conn.port, fan, #[trigger] taken[j]),
        testing_fan(s, fan, k, n, taken, d).0 is Ok,
    ensures
        ({
            let (r, s1, d1) = testing_fan(s, fan, k, n, taken, d);
            let v = r->Ok_0;
            &&& s1.conn.port == s.conn.port
            &&& continues(d, d1)
            &&& v.len() == n
            &&& forall|j: int| 0 <= j < n ==> iterated(d0, d1, s.conn.port, fan, #[trigger] v[j])
        }),
    decreases n - k,
{
    lemma_tame_none(d);
    if k < n {
        lemma_testing_mode(s, fan, 1, "selftest_force_min", d);
        let (low, s1, d1) = testing_mode(s, fan, 1, "selftest_force_min", d);
        lemma_testing_mode(s1, fan, 0, "selftest_return_auto", d1);
        let (high, s2, d2) = testing_mode(s1, fan, 0, "selftest_return_auto", d1);
        let x = Readings { auto: high->Ok_0, min: low->Ok_0 };
        let more = taken.push(x);
        let port = s.conn.port;
        lemma_continues_join(d, d1, d2);
        lemma_continues_join(d0, d, d2);
        lemma_tame_none(d2);
        let key = fan_key_of(fan as int, 0x41, 0x63);
        lemma_still_read_back(d, d, d1, d2, port, mode_key(fan), 1);
        lemma_still_read_back(d, d1, d2, d2, port, mode_key(fan), 0);
        lemma_each_later(d, d, d1, d2, port, key, x.min);
        lemma_each_later(d, d1, d2, d2, port, key, x.auto);
        assert(iterated(d, d2, port, fan, x));
        assert forall|j: int| 0 <= j < k + 1 implies iterated(
            d0,
            d2,
            s2.conn.port,
            fan,
            #[trigger] more[j],
        ) by {
            if j < k {
                assert(more[j] == taken[j]);
                lemma_iterated_later(d0, d0, d, d2, port, fan, taken[j]);
            } else {
                lemma_iterated_later(d0, d, d2, d2, port, fan, x);
            }
        }
        lemma_testing_fan(s2, fan, k + 1, n, more, d0, d2);
        lemma_continues_join(d, d2, testing_fan(s2, fan, k + 1, n, more, d2).2);
    }
}

/// The readings of one fan: as many iterations as asked for.
pub open spec fn fan_was_tested(
    d0: Dialog,
    d1: Dialog,
    port: u32,
    fan: u8,
    n: nat,
    v: Seq<Readings>,
) -> bool {
    v.len() == n && forall|j: int| 0 <= j < n ==> iterated(d0, d1, port, fan, #[trigger] v[j])
}

proof fn lemma_tested_later(
    a: Dialog,
    b: Dialog,
    c: Dialog,
    e: Dialog,
    port: u32,
    fan: u8,
    n: nat,
    v: Seq<Readings>,
)
    requires
        a.asked.len() <= b.asked.len(),
        continues(c, e),
        fan_was_tested(b, c, port, fan, n, v),
    ensures
        fan_was_tested(a, e, port, fan, n, v),
{
    assert forall|j: int| 0 <= j < n implies iterated(a, e, port, fan, #[trigger] v[j]) by {
        lemma_iterated_later(a, b, c, e, port, fan, v[j]);
    }
}

proof fn lemma_testing_fans(
    s: Session,
    fans: Seq<Fan>,
    i: nat,
    n: nat,
    taken: Seq<Seq<Readings>>,
    d0: Dialog,
    d: Dialog,
)
    requires
        i <= fans.len(),
        taken.len() == i,
        continues(d0, d),
        forall|j: int|
            0 <= j < i ==> fan_was_tested(
                d0,
                d,
                s.conn.port,
                fans[j].index,
                n,
                #[trigger] taken[j],
            ),
        testing_fans(s, fans, i, n, taken, d).0 is Ok,
    ensures
        ({
            let (r, _, d1) = testing_fans(s, fans, i, n, taken, d);
            let v = r->Ok_0;
            &&& v.len() == fans.len()
            &&& forall|j: int|
                0 <= j < fans.len() ==> fan_was_tested(
                    d0,
                    d1,
                    s.conn.port,
                    fans[j].index,
                    n,
                    #[trigger] v[j],
                )
        }),
    decreases fans.len() - i,
{
    if i < fans.len() {
        let fan = fans[i as int].index;
        lemma_tame_none(d);
        lemma_testing_fan(s, fan, 0, n, Seq::empty(), d, d);
        let (r, s1, d1) = testing_fan(s, fan, 0, n, Seq::empty(), d);
        let v = r->Ok_0;
        let more = taken.push(v);
        lemma_continues_join(d0, d, d1);
        lemma_tame_none(d1);
        assert forall|j: int| 0 <= j < i + 1 implies fan_was_tested(
            d0,
            d1,
            s1.conn.port,
            fans[j].index,
            n,
            #[trigger] more[j],
        ) by {
            if j < i {
                assert(more[j] == taken[j]);
                lemma_tested_later(d0, d0, d, d1, s.conn.port, fans[j].index, n, taken[j]);
            } else {
                lemma_tested_later(d0, d, d1, d1, s.conn.port, fan, n, v);
            }
        }
        lemma_testing_fans(s1, fans, i + 1, n, more, d0, d1);
    }
}

/// A self test that comes to its end has readings of every fan, of as many
/// iterations as were asked for: in each of them the fan was forced and left to
/// the firmware by its own mode key, with readbacks, and its own speed was read
/// five times in each mode.
pub proof fn law_every_fan_is_tested_by_its_own_keys(s: Session, n: nat, d: Dialog)
    requires
        testing_fans(s, s.fans, 0, n, Seq::empty(), d).0 is Ok,
    ensures
        ({
            let (r, _, d1) = testing_fans(s, s.fans, 0, n, Seq::empty(), d);
            let v = r->Ok_0;
            &&& v.len() == s.fans.len()
            &&& forall|j: int|
                0 <= j < s.fans.len() ==> fan_was_tested(
                    d,
                    d1,
                    s.conn.port,
                    s.fans[j].index,
                    n,
                    #[trigger] v[j],
                )
        }),
{
    lemma_tame_none(d);
    lemma_testing_fans(s, s.fans, 0, n, Seq::empty(), d, d);
}

} // verus!
