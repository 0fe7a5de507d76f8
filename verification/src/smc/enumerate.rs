//! Which fans there are, and what each can do.

use super::connection::{reading_f32, reading_info, reading_u32, reading_u8, Conn, SmcConnection};
use super::error::SmcError;
use super::exchange::{Dialog, Exchange};
use super::keys::{
    fan_fourcc, fan_key_fourcc, KEY_COUNT, KEY_FNUM, LOWER_C, LOWER_D, LOWER_F, LOWER_M, LOWER_N,
    LOWER_X, UPPER_A, UPPER_M, UPPER_S,
};
use crate::flt::Flt;
use vstd::prelude::*;

verus! {

/// No SMC has more keys than this; a larger number means that its bytes were
/// read in the wrong order.
pub const MAX_PLAUSIBLE_KEYS: u32 = 8000;

/// A fan.
#[derive(Debug, Clone, Copy, PartialEq, Eq)]
pub struct Fan {
    /// Counted from zero.
    pub index: u8,
    /// The lowest speed, `F<i>Mn`.
    pub min_rpm: Flt,
    /// The highest speed, `F<i>Mx`.
    pub max_rpm: Flt,
    /// The safe speed, `F<i>Sf`, if the fan has one.
    pub safe_rpm: Option<Flt>,
    /// The speed at the time of reading, `F<i>Ac`.
    pub actual_rpm: Flt,
    /// The key of the mode, `F<i>md` or `F<i>Md`.
    pub mode_key: u32,
}

/// The key `F<index><c3><c4>`.
pub fn fan_key(index: u8, c3: u8, c4: u8) -> (r: u32)
    ensures
        r == fan_fourcc(index, c3, c4),
{
    fan_key_fourcc(c3, c4, index)
}

/// Reading the number of keys. It must be plausible.
pub open spec fn reading_key_count(c: Conn, d: Dialog) -> (Result<u32, SmcError>, Conn, Dialog) {
    let (r, c1, d1) = reading_u32(c, KEY_COUNT, d);
    match r {
        Ok(count) => if count == 0 || count > MAX_PLAUSIBLE_KEYS {
            (Err(SmcError::EndiannessUnplausible { fourcc: KEY_COUNT, got: count }), c1, d1)
        } else {
            (Ok(count), c1, d1)
        },
        Err(e) => (Err(e), c1, d1),
    }
}

/// Looking for the mode key of a fan: `F<i>md` first, then `F<i>Md`.
pub open spec fn probing_mode_key(c: Conn, i: u8, d: Dialog) -> (
    Result<u32, SmcError>,
    Conn,
    Dialog,
) {
    let lower = fan_fourcc(i, LOWER_M, LOWER_D);
    let upper = fan_fourcc(i, UPPER_M, LOWER_D);
    let (r, c1, d1) = reading_info(c, lower, d);
    match r {
        Ok(_) => (Ok(lower), c1, d1),
        Err(SmcError::KeyNotFound(_)) => {
            let (r2, c2, d2) = reading_info(c1, upper, d1);
            match r2 {
                Ok(_) => (Ok(upper), c2, d2),
                Err(SmcError::KeyNotFound(_)) => (Err(SmcError::KeyNotFound(upper)), c2, d2),
                Err(e) => (Err(e), c2, d2),
            }
        },
        Err(e) => (Err(e), c1, d1),
    }
}

/// Reading the description of a fan: minimum, maximum, safe speed, actual
/// speed, mode key. Only the safe speed may be missing.
pub open spec fn reading_fan(c: Conn, i: u8, d: Dialog) -> (Result<Fan, SmcError>, Conn, Dialog) {
    let (min, c1, d1) = reading_f32(c, fan_fourcc(i, UPPER_M, LOWER_N), d);
    match min {
        Err(e) => (Err(e), c1, d1),
        Ok(min_rpm) => {
            let (max, c2, d2) = reading_f32(c1, fan_fourcc(i, UPPER_M, LOWER_X), d1);
            match max {
                Err(e) => (Err(e), c2, d2),
                Ok(max_rpm) => {
                    let (safe, c3, d3) = reading_f32(c2, fan_fourcc(i, UPPER_S, LOWER_F), d2);
                    if safe is Err && !(safe matches Err(SmcError::KeyNotFound(_))) {
                        (Err(safe->Err_0), c3, d3)
                    } else {
                        let safe_rpm = match safe {
                            Ok(v) => Some(v),
                            Err(_) => None,
                        };
                        let (actual, c4, d4) = reading_f32(c3, fan_fourcc(i, UPPER_A, LOWER_C), d3);
                        match actual {
                            Err(e) => (Err(e), c4, d4),
                            Ok(actual_rpm) => {
                                let (mode, c5, d5) = probing_mode_key(c4, i, d4);
                                match mode {
                                    Err(e) => (Err(e), c5, d5),
                                    Ok(mode_key) => (
                                        Ok(
                                            Fan {
                                                index: i,
                                                min_rpm,
                                                max_rpm,
                                                safe_rpm,
                                                actual_rpm,
                                                mode_key,
                                            },
                                        ),
                                        c5,
                                        d5,
                                    ),
                                }
                            },
                        }
                    }
                },
            }
        },
    }
}

/// Reading the fans from `i` to `n`, behind those that are already known.
pub open spec fn reading_fans(c: Conn, i: int, n: int, known: Seq<Fan>, d: Dialog) -> (
    Result<Seq<Fan>, SmcError>,
    Conn,
    Dialog,
)
    decreases n - i,
{
    if i >= n {
        (Ok(known), c, d)
    } else {
        let (r, c1, d1) = reading_fan(c, i as u8, d);
        match r {
            Ok(fan) => reading_fans(c1, i + 1, n, known.push(fan), d1),
            Err(e) => (Err(e), c1, d1),
        }
    }
}

/// Finding all fans: a plausible number of keys, the number of fans (none if
/// the key is missing), and each fan.
pub open spec fn enumerating(c: Conn, d: Dialog) -> (Result<Seq<Fan>, SmcError>, Conn, Dialog) {
    let (keys, c1, d1) = reading_key_count(c, d);
    match keys {
        Err(e) => (Err(e), c1, d1),
        Ok(_) => {
            let (count, c2, d2) = reading_u8(c1, KEY_FNUM, d1);
            match count {
                Ok(n) => reading_fans(c2, 0, n as int, Seq::empty(), d2),
                Err(SmcError::KeyNotFound(_)) => (Ok(Seq::empty()), c2, d2),
                Err(e) => (Err(e), c2, d2),
            }
        },
    }
}

/// Reads the number of keys. This is the first number that is read, and shows
/// whether numbers are read in the right byte order.
pub fn read_key_count(conn: &mut SmcConnection, io: &mut Exchange) -> (r: Result<u32, SmcError>)
    requires
        old(conn).wf(),
    ensures
        (r, final(conn)@, final(io)@) == reading_key_count(old(conn)@, old(io)@),
        final(conn).wf(),
{
    match conn.read_u32(KEY_COUNT, io) {
        Ok(count) => {
            if count == 0 || count > MAX_PLAUSIBLE_KEYS {
                return Err(SmcError::EndiannessUnplausible { fourcc: KEY_COUNT, got: count });
            }
            Ok(count)
        },
        Err(e) => Err(e),
    }
}

/// Looks for the mode key of a fan.
pub fn probe_mode_key(conn: &mut SmcConnection, i: u8, io: &mut Exchange) -> (r: Result<
    u32,
    SmcError,
>)
    requires
        old(conn).wf(),
    ensures
        (r, final(conn)@, final(io)@) == probing_mode_key(old(conn)@, i, old(io)@),
        final(conn).wf(),
{
    let lowercase: u32 = fan_key(i, LOWER_M, LOWER_D);
    match conn.read_key_info(lowercase, io) {
        Ok(_) => {
            return Ok(lowercase);
        },
        Err(SmcError::KeyNotFound(_)) => {},
        Err(e) => {
            return Err(e);
        },
    }
    let uppercase: u32 = fan_key(i, UPPER_M, LOWER_D);
    match conn.read_key_info(uppercase, io) {
        Ok(_) => Ok(uppercase),
        Err(SmcError::KeyNotFound(_)) => Err(SmcError::KeyNotFound(uppercase)),
        Err(e) => Err(e),
    }
}

fn read_fan(conn: &mut SmcConnection, i: u8, io: &mut Exchange) -> (r: Result<Fan, SmcError>)
    requires
        old(conn).wf(),
    ensures
        (r, final(conn)@, final(io)@) == reading_fan(old(conn)@, i, old(io)@),
        final(conn).wf(),
{
    let min_rpm: Flt = match conn.read_f32(fan_key(i, UPPER_M, LOWER_N), io) {
        Ok(v) => v,
        Err(e) => {
            return Err(e);
        },
    };
    let max_rpm: Flt = match conn.read_f32(fan_key(i, UPPER_M, LOWER_X), io) {
        Ok(v) => v,
        Err(e) => {
            return Err(e);
        },
    };
    let safe_rpm: Option<Flt> = match conn.read_f32(fan_key(i, UPPER_S, LOWER_F), io) {
        Ok(v) => Some(v),
        Err(SmcError::KeyNotFound(_)) => None,
        Err(e) => {
            return Err(e);
        },
    };
    let actual_rpm: Flt = match conn.read_f32(fan_key(i, UPPER_A, LOWER_C), io) {
        Ok(v) => v,
        Err(e) => {
            return Err(e);
        },
    };
    let mode_key: u32 = match probe_mode_key(conn, i, io) {
        Ok(v) => v,
        Err(e) => {
            return Err(e);
        },
    };
    Ok(Fan { index: i, min_rpm, max_rpm, safe_rpm, actual_rpm, mode_key })
}

/// Finds all fans.
pub fn enumerate_fans(conn: &mut SmcConnection, io: &mut Exchange) -> (r: Result<
    Vec<Fan>,
    SmcError,
>)
    requires
        old(conn).wf(),
    ensures
        ({
            let (found, c, d) = enumerating(old(conn)@, old(io)@);
            &&& final(conn)@ == c
            &&& final(io)@ == d
            &&& match r {
                Ok(fans) => found == Ok::<Seq<Fan>, SmcError>(fans@),
                Err(e) => found == Err::<Seq<Fan>, SmcError>(e),
            }
        }),
        final(conn).wf(),
        r matches Ok(fans) ==> fans@.len() <= 255 && forall|i: int|
            0 <= i < fans@.len() ==> (#[trigger] fans@[i]).index == i,
{
    match read_key_count(conn, io) {
        Ok(_) => {},
        Err(e) => {
            return Err(e);
        },
    }
    let fan_count: u8 = match conn.read_u8(KEY_FNUM, io) {
        Ok(n) => n,
        Err(SmcError::KeyNotFound(_)) => 0,
        Err(e) => {
            return Err(e);
        },
    };
    let ghost c2 = conn@;
    let ghost d2 = io@;
    let mut fans: Vec<Fan> = Vec::new();
    let mut i: u8 = 0;
    while i < fan_count
        invariant
            i <= fan_count,
            conn.wf(),
            fans@.len() == i,
            forall|k: int| 0 <= k < i ==> (#[trigger] fans@[k]).index == k,
            reading_fans(conn@, i as int, fan_count as int, fans@, io@) == reading_fans(
                c2,
                0,
                fan_count as int,
                Seq::empty(),
                d2,
            ),
            enumerating(old(conn)@, old(io)@) == reading_fans(
                c2,
                0,
                fan_count as int,
                Seq::empty(),
                d2,
            ),
        decreases fan_count - i,
    {
        match read_fan(conn, i, io) {
            Ok(fan) => {
                fans.push(fan);
            },
            Err(e) => {
                return Err(e);
            },
        }
        i = i + 1;
    }
    Ok(fans)
}

} // verus!
