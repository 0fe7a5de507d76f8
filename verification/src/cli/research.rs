//! What the commands `probe` and `force-rpm` share: keys of the first fan, and
//! raw writes to them.
//!
//! These commands look for ways to move a fan that a session would not take.
//! Whatever they try, they leave the fan to the firmware at the end.

use super::debug_write::{parse_unsigned, unsigned_number};
use crate::flt::{Flt, NAN_BITS};
use crate::smc::connection::{reading_f32, writing, Conn, SmcConnection};
use crate::smc::error::SmcError;
use crate::smc::exchange::{Action, Dialog, Exchange, Request};
use vstd::prelude::*;
use vstd::string::StringExecFns;

verus! {

/// `F0Mn`, the minimum.
pub const F0MN: u32 = 0x4630_4D6E;

/// `F0Mx`, the maximum.
pub const F0MX: u32 = 0x4630_4D78;

/// `F0Ac`, the speed.
pub const F0AC: u32 = 0x4630_4163;

/// `F0Tg`, the target.
pub const F0TG: u32 = 0x4630_5467;

/// `F0Dc`, the duty cycle.
pub const F0DC: u32 = 0x4630_4463;

/// `F0md`, the mode.
pub const F0MD: u32 = 0x4630_6D64;

/// `Tp0a`, a temperature of a performance core.
pub const TP0A: u32 = 0x5470_3061;

/// 500.0, the difference from which on a fan has moved.
pub const PASS_DELTA_BITS: u32 = 0x43FA_0000;

/// 4233.0, how far the maximum is taken to be above the minimum where it cannot
/// be read.
pub const RANGE_BITS: u32 = 0x4584_4800;

/// The four bytes of a number, the most significant first.
pub open spec fn be_bytes(v: u32) -> Seq<u8> {
    seq![
        (v / 0x100_0000) as u8,
        (v / 0x1_0000 % 0x100) as u8,
        (v / 0x100 % 0x100) as u8,
        (v % 0x100) as u8,
    ]
}

/// The four bytes of a number, the most significant first.
pub fn to_be(v: u32) -> (r: [u8; 4])
    ensures
        r@ == be_bytes(v),
{
    let r: [u8; 4] = [
        (v / 0x100_0000) as u8,
        (v / 0x1_0000 % 0x100) as u8,
        (v / 0x100 % 0x100) as u8,
        (v % 0x100) as u8,
    ];
    assert(r@ =~= be_bytes(v));
    r
}

/// The speed of the fan, or no number where it cannot be read.
pub open spec fn measuring(c: Conn, d: Dialog) -> (Flt, Conn, Dialog) {
    let (r, c1, d1) = reading_f32(c, F0AC, d);
    (
        match r {
            Ok(v) => v,
            Err(_) => Flt { bits: NAN_BITS },
        },
        c1,
        d1,
    )
}

/// Reads the speed of the fan.
pub fn measure(conn: &mut SmcConnection, io: &mut Exchange) -> (r: Flt)
    requires
        old(conn).wf(),
    ensures
        final(conn).wf(),
        (r, final(conn)@, final(io)@) == measuring(old(conn)@, old(io)@),
{
    match conn.read_f32(F0AC, io) {
        Ok(v) => v,
        Err(_) => Flt { bits: NAN_BITS },
    }
}

/// Writing a number to a key, most significant byte first.
pub open spec fn writing_be(c: Conn, fourcc: u32, v: Flt, d: Dialog) -> (
    Result<(), SmcError>,
    Conn,
    Dialog,
) {
    writing(c, fourcc, be_bytes(v.bits), d)
}

/// Writes a number to a key.
pub fn write_be(conn: &mut SmcConnection, fourcc: u32, v: Flt, io: &mut Exchange) -> (r: Result<
    (),
    SmcError,
>)
    requires
        old(conn).wf(),
    ensures
        final(conn).wf(),
        (r, final(conn)@, final(io)@) == writing_be(old(conn)@, fourcc, v, old(io)@),
{
    let b: [u8; 4] = to_be(v.bits);
    conn.write_raw_for_research(fourcc, b.as_slice(), io)
}

/// Writing the mode of the fan.
pub open spec fn writing_mode(c: Conn, mode: u8, d: Dialog) -> (
    Result<(), SmcError>,
    Conn,
    Dialog,
) {
    writing(c, F0MD, seq![mode], d)
}

/// Writes the mode of the fan.
pub fn write_mode(conn: &mut SmcConnection, mode: u8, io: &mut Exchange) -> (r: Result<
    (),
    SmcError,
>)
    requires
        old(conn).wf(),
    ensures
        final(conn).wf(),
        (r, final(conn)@, final(io)@) == writing_mode(old(conn)@, mode, old(io)@),
{
    let b: [u8; 1] = [mode];
    assert(b@ =~= seq![mode]);
    conn.write_raw_for_research(F0MD, b.as_slice(), io)
}

/// Leaving the fan to the firmware, and waiting for it.
pub open spec fn resetting(c: Conn, wait_ms: u64, d: Dialog) -> (Conn, Dialog) {
    let (_, c1, d1) = writing_mode(c, 0, d);
    (c1, d1.after(Action::Sleep(wait_ms)))
}

/// Leaves the fan to the firmware, and waits for it.
pub fn reset_mode(conn: &mut SmcConnection, wait_ms: u64, io: &mut Exchange)
    requires
        old(conn).wf(),
    ensures
        final(conn).wf(),
        (final(conn)@, final(io)@) == resetting(old(conn)@, wait_ms, old(io)@),
{
    let _ = write_mode(conn, 0, io);
    let _ = io.ask(Request::Sleep(wait_ms));
}

/// Waiting until a fan has settled, after a write that succeeded.
pub open spec fn settling(ok: bool, secs: u64, d: Dialog) -> Dialog {
    if ok {
        d.after(Action::Sleep((secs * 1000) as u64))
    } else {
        d
    }
}

/// Waits until a fan has settled, after a write that succeeded.
pub fn wait_settled(ok: bool, secs: u64, io: &mut Exchange)
    requires
        secs <= 30,
    ensures
        final(io)@ == settling(ok, secs, old(io)@),
{
    if ok {
        let _ = io.ask(Request::Sleep(secs * 1000));
    }
}

/// The duty cycle that a speed stands for: its place in the range, from 0 to 1.
pub open spec fn duty_of(target: Flt, min: Flt, max: Flt) -> Flt {
    target.minus(min).over(max.minus(min)).clamped(
        Flt { bits: 0 },
        Flt { bits: crate::flt::ONE_BITS },
    )
}

/// The duty cycle that a speed stands for.
pub fn duty_for(target: Flt, min: Flt, max: Flt) -> (r: Flt)
    ensures
        r == duty_of(target, min, max),
{
    target.sub(min).div(max.sub(min)).clamp(Flt { bits: 0 }, Flt { bits: crate::flt::ONE_BITS })
}

/// A speed inside an envelope, whose bounds may be anything that was read.
pub fn clamp_to(v: Flt, low: Flt, high: Flt) -> (r: Flt)
    ensures
        r == v.clamped(low, high),
{
    if v.lt(low) {
        low
    } else if high.lt(v) {
        high
    } else {
        v
    }
}

/// A speed moved by at least 500.
pub open spec fn moved(delta: Flt) -> bool {
    (Flt { bits: PASS_DELTA_BITS }).at_most(delta.absolute())
}

/// A speed moved by at least 500.
pub fn has_moved(delta: Flt) -> (r: bool)
    ensures
        r == moved(delta),
{
    let threshold: Flt = Flt { bits: PASS_DELTA_BITS };
    threshold.le(delta.abs())
}

/// A number of seconds on the command line: kept between two bounds, and what
/// it was before where it is no number.
pub open spec fn bounded(s: Seq<char>, low: u64, high: u64, before: u64) -> u64 {
    match unsigned_number(s, u64::MAX as nat) {
        Ok(n) => if n < low {
            low
        } else if n > high {
            high
        } else {
            n as u64
        },
        Err(_) => before,
    }
}

/// A number of seconds on the command line.
pub fn parse_bounded(s: &str, low: u64, high: u64, before: u64) -> (r: u64)
    ensures
        r == bounded(s@, low, high, before),
{
    match parse_unsigned(s, u64::MAX) {
        Ok(n) => if n < low {
            low
        } else if n > high {
            high
        } else {
            n
        },
        Err(_) => before,
    }
}

/// A text with its double quotes made single.
pub open spec fn single_quoted(s: Seq<char>) -> Seq<char> {
    Seq::new(
        s.len(),
        |i: int|
            if s[i] == '"' {
                '\''
            } else {
                s[i]
            },
    )
}

/// A text with its double quotes made single.
pub fn single_quotes(s: &str) -> (r: String)
    ensures
        r@ == single_quoted(s@),
{
    let cs: Vec<char> = crate::text::chars_of(s);
    let mut r: String = String::new();
    let mut i: usize = 0;
    assert(r@ =~= single_quoted(s@).take(0));
    while i < cs.len()
        invariant
            i <= cs@.len(),
            cs@ == s@,
            r@ == single_quoted(s@).take(i as int),
        decreases cs@.len() - i,
    {
        let c: char = cs[i];
        if c == '"' {
            r.push('\'');
        } else {
            r.push(c);
        }
        assert(r@ =~= single_quoted(s@).take(i + 1));
        i = i + 1;
    }
    assert(single_quoted(s@).take(s@.len() as int) =~= single_quoted(s@));
    r
}

/// An error in words, behind what was tried.
pub fn error_text(before: &str, e: &SmcError) -> (r: String)
    ensures
        r@ == before@ + e.text(),
{
    let mut s: String = before.to_owned();
    s.append(e.message().as_str());
    s
}

} // verus!
