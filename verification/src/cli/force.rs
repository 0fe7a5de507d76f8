//! The command `force-rpm`: hold the first fan at a speed, in whichever way
//! works on this machine.
//!
//! The ways are tried in turn, and the first that moves the fan is kept for a
//! while. What was changed is put back, and in the end the fan is left to the
//! firmware.

use super::probe::{read_envelope, reading_envelope, Envelope};
use super::research::{
    bounded, duty_for, duty_of, has_moved, measure, measuring, moved, parse_bounded, reset_mode,
    resetting, settling, single_quoted, single_quotes, wait_settled, write_be, write_mode,
    writing_be, writing_mode, F0DC, F0MN, F0TG,
};
use super::run::{one_warning, unknown_option};
use super::say::{
    err, left, out, put_error, put_left, rule, rule_text, said, say, say_text, silent, start, warn,
    warn_text, Line, Outcome, Said,
};
use crate::flt::Flt;
use crate::glyph::{
    fixed, plain, put_fixed, put_number, put_signed, put_text, shown, with_sign, Glyph, Mark,
};
use crate::smc::connection::{closing, opening, Conn, SmcConnection};
use crate::smc::error::SmcError;
use crate::smc::exchange::{Dialog, Exchange};
use crate::text::{decimal, same_text, texts};
use vstd::prelude::*;

verus! {

/// How the command is used.
pub const FORCE_USAGE: &'static str = "usage: fand force-rpm <rpm> [--settle-secs N] [--hold-secs N] [--json]\n\nHolds fan 0 at the requested RPM by trying each SMC bypass path:\n1. F0Tg direct\n2. F0Dc direct\n3. F0md=1 then F0Tg\n4. F0Mn raise + F0md=1 (forced-min floor bypass)\n\nStops at the first path that moves F0Ac by ≥ 500 RPM from baseline.\nOptionally holds the fan at target for --hold-secs seconds before\nrestoring auto mode. Ctrl-C aborts the hold cleanly.\n\n--hold-secs 0 (default) runs the probe once and exits.\n\nTeardown always writes F0md=0 and restores any modified floor.";

/// The arguments, as far as they were read.
#[derive(Debug, Clone, Copy, PartialEq, Eq)]
pub struct ForceArgs {
    /// The speed, once it was named.
    pub target: Option<Flt>,
    /// How long a fan may take to settle, in seconds.
    pub settle_secs: u64,
    /// How long the fan is held, in seconds.
    pub hold_secs: u64,
    pub json: bool,
}

/// What holds without arguments.
pub open spec fn default_args() -> ForceArgs {
    ForceArgs { target: None, settle_secs: 4, hold_secs: 0, json: false }
}

/// A speed that can be asked for.
pub open spec fn positive(v: Flt) -> bool {
    v.finite() && (Flt { bits: 0 }).less(v)
}

/// The arguments from the `i`-th on, behind those that were read before; or
/// what the command comes to without running. `floats` holds each argument as a
/// number, if it is one.
pub open spec fn force_args(
    args: Seq<Seq<char>>,
    floats: Seq<Option<Flt>>,
    i: int,
    p: ForceArgs,
) -> Result<ForceArgs, (u8, Seq<Said>)>
    decreases args.len() - i,
{
    if i >= args.len() {
        match p.target {
            Some(_) => Ok(p),
            None => Err(
                (
                    64,
                    seq![
                        err(plain("fand force-rpm: target RPM required"@)),
                        err(plain(FORCE_USAGE@)),
                    ],
                ),
            ),
        }
    } else if args[i] == "--settle-secs"@ {
        if i + 1 >= args.len() {
            force_args(args, floats, i + 1, p)
        } else {
            force_args(
                args,
                floats,
                i + 2,
                ForceArgs { settle_secs: bounded(args[i + 1], 1, 30, p.settle_secs), ..p },
            )
        }
    } else if args[i] == "--hold-secs"@ {
        if i + 1 >= args.len() {
            force_args(args, floats, i + 1, p)
        } else {
            force_args(
                args,
                floats,
                i + 2,
                ForceArgs { hold_secs: bounded(args[i + 1], 0, 3600, p.hold_secs), ..p },
            )
        }
    } else if args[i] == "--json"@ {
        force_args(args, floats, i + 1, ForceArgs { json: true, ..p })
    } else if args[i] == "--help"@ || args[i] == "-h"@ {
        Err((0, seq![err(plain(FORCE_USAGE@))]))
    } else {
        match floats[i] {
            Some(v) => if positive(v) {
                force_args(args, floats, i + 1, ForceArgs { target: Some(v), ..p })
            } else {
                Err(
                    (
                        64,
                        seq![err(plain("fand force-rpm: target must be positive finite RPM"@))],
                    ),
                )
            },
            None => Err(
                (
                    64,
                    seq![
                        err(
                            plain("fand force-rpm: unknown flag '"@) + plain(args[i]) + plain(
                                "'"@,
                            ),
                        ),
                    ],
                ),
            ),
        }
    }
}

/// Reads the arguments. `floats` holds each of them as a number, if it is one.
pub fn parse_args(args: &Vec<String>, floats: &Vec<Option<Flt>>) -> (r: Result<ForceArgs, Outcome>)
    requires
        floats@.len() == args@.len(),
    ensures
        match r {
            Ok(a) => {
                &&& force_args(texts(args@), floats@, 0, default_args()) == Ok::<
                    ForceArgs,
                    (u8, Seq<Said>),
                >(a)
                &&& 1 <= a.settle_secs <= 30
                &&& a.hold_secs <= 3600
                &&& a.target is Some
            },
            Err(o) => force_args(texts(args@), floats@, 0, default_args()) == Err::<
                ForceArgs,
                (u8, Seq<Said>),
            >(o@),
        },
{
    let ghost words = texts(args@);
    let zero: Flt = Flt { bits: 0 };
    let mut p: ForceArgs = ForceArgs { target: None, settle_secs: 4, hold_secs: 0, json: false };
    let mut i: usize = 0;
    let len: usize = args.len();
    while i < len
        invariant
            i <= len,
            len == args@.len(),
            floats@.len() == len,
            words == texts(args@),
            zero == (Flt { bits: 0 }),
            1 <= p.settle_secs <= 30,
            p.hold_secs <= 3600,
            force_args(words, floats@, 0, default_args()) == force_args(
                words,
                floats@,
                i as int,
                p,
            ),
        decreases len - i,
    {
        let arg: &str = args[i].as_str();
        assert(words[i as int] == arg@);
        if same_text(arg, "--settle-secs") {
            if i + 1 < len {
                i = i + 1;
                let v: &str = args[i].as_str();
                assert(words[i as int] == v@);
                p.settle_secs = parse_bounded(v, 1, 30, p.settle_secs);
            }
        } else if same_text(arg, "--hold-secs") {
            if i + 1 < len {
                i = i + 1;
                let v: &str = args[i].as_str();
                assert(words[i as int] == v@);
                p.hold_secs = parse_bounded(v, 0, 3600, p.hold_secs);
            }
        } else if same_text(arg, "--json") {
            p.json = true;
        } else if same_text(arg, "--help") || same_text(arg, "-h") {
            return Err(one_warning(0, start(FORCE_USAGE)));
        } else {
            match floats[i] {
                Some(v) => {
                    if v.is_finite() && zero.lt(v) {
                        p.target = Some(v);
                    } else {
                        return Err(
                            one_warning(
                                64,
                                start("fand force-rpm: target must be positive finite RPM"),
                            ),
                        );
                    }
                },
                None => {
                    return Err(unknown_option("fand force-rpm: unknown flag '", arg));
                },
            }
        }
        i = i + 1;
    }
    if p.target.is_none() {
        let mut lines: Vec<Line> = silent();
        warn_text(&mut lines, "fand force-rpm: target RPM required");
        warn_text(&mut lines, FORCE_USAGE);
        assert(said(lines@) =~= seq![
            err(plain("fand force-rpm: target RPM required"@)),
            err(plain(FORCE_USAGE@)),
        ]);
        return Err(Outcome { code: 64, lines });
    }
    Ok(p)
}

/// A way that was tried: the speed after it, or why it could not be gone.
#[derive(Debug)]
pub struct Attempt {
    pub path: &'static str,
    pub outcome: Result<Flt, String>,
}

/// A way that was tried, with texts as sequences.
#[verifier::ext_equal]
pub struct Tried {
    pub path: Seq<char>,
    pub outcome: Result<Flt, Seq<char>>,
}

impl Tried {
    /// The fan moved away from where it was.
    pub open spec fn held(self, baseline: Flt) -> bool {
        match self.outcome {
            Ok(after) => moved(after.minus(baseline)),
            Err(_) => false,
        }
    }
}

impl Attempt {
    pub open spec fn view(&self) -> Tried {
        Tried {
            path: self.path@,
            outcome: match self.outcome {
                Ok(v) => Ok(v),
                Err(s) => Err(s@),
            },
        }
    }

    /// The fan moved away from where it was.
    pub fn has_held(&self, baseline: Flt) -> (r: bool)
        ensures
            r == self@.held(baseline),
    {
        match &self.outcome {
            Ok(after) => has_moved(after.sub(baseline)),
            Err(_) => false,
        }
    }
}

/// What was tried, with texts as sequences.
pub open spec fn tries(v: Seq<Attempt>) -> Seq<Tried> {
    Seq::new(v.len(), |i: int| v[i]@)
}

/// The name of the first way that moved the fan, from the `i`-th on.
pub open spec fn winning(t: Seq<Tried>, baseline: Flt, i: int) -> Option<Seq<char>>
    decreases t.len() - i,
{
    if i >= t.len() {
        None
    } else if t[i].held(baseline) {
        Some(t[i].path)
    } else {
        winning(t, baseline, i + 1)
    }
}

/// The first way that moved the fan.
pub fn winner(v: &Vec<Attempt>, baseline: Flt) -> (r: Option<&'static str>)
    ensures
        (match r {
            Some(s) => Some(s@),
            None => None,
        }) == winning(tries(v@), baseline, 0),
{
    let ghost t = tries(v@);
    let mut i: usize = 0;
    while i < v.len()
        invariant
            i <= v@.len(),
            t == tries(v@),
            winning(t, baseline, 0) == winning(t, baseline, i as int),
        decreases v@.len() - i,
    {
        assert(t[i as int] == v@[i as int]@);
        if v[i].has_held(baseline) {
            return Some(v[i].path);
        }
        i = i + 1;
    }
    None
}

/// The name of each way.
pub open spec fn way_name(way: int) -> Seq<char> {
    if way == 0 {
        "F0Tg_direct"@
    } else if way == 1 {
        "F0Dc_direct"@
    } else if way == 2 {
        "F0md=1_then_F0Tg"@
    } else {
        "F0Mn_raise_then_F0md=1"@
    }
}

/// What each way writes.
pub open spec fn going(way: int, e: Envelope, c: Conn, d: Dialog) -> (
    Result<(), SmcError>,
    Conn,
    Dialog,
) {
    if way == 0 {
        writing_be(c, F0TG, e.target, d)
    } else if way == 1 {
        writing_be(c, F0DC, duty_of(e.target, e.min_rpm, e.max_rpm), d)
    } else if way == 2 {
        let (m, c1, d1) = writing_mode(c, 1, d);
        if m is Err {
            (m, c1, d1)
        } else {
            writing_be(c1, F0TG, e.target, d1)
        }
    } else {
        let (m, c1, d1) = writing_be(c, F0MN, e.target, d);
        if m is Err {
            (m, c1, d1)
        } else {
            writing_mode(c1, 1, d1)
        }
    }
}

fn go(way: u8, e: &Envelope, conn: &mut SmcConnection, io: &mut Exchange) -> (r: Result<(), SmcError>)
    requires
        old(conn).wf(),
    ensures
        final(conn).wf(),
        (r, final(conn)@, final(io)@) == going(way as int, *e, old(conn)@, old(io)@),
{
    if way == 0 {
        write_be(conn, F0TG, e.target, io)
    } else if way == 1 {
        let duty: Flt = duty_for(e.target, e.min_rpm, e.max_rpm);
        write_be(conn, F0DC, duty, io)
    } else if way == 2 {
        let mode: Result<(), SmcError> = write_mode(conn, 1, io);
        if mode.is_err() {
            return mode;
        }
        write_be(conn, F0TG, e.target, io)
    } else {
        let floor: Result<(), SmcError> = write_be(conn, F0MN, e.target, io);
        if floor.is_err() {
            return floor;
        }
        write_mode(conn, 1, io)
    }
}

/// Going a way, and reading the speed once the fan has settled.
#[verifier::opaque]
pub open spec fn trying(way: int, e: Envelope, settle: u64, c: Conn, d: Dialog) -> (
    Tried,
    Conn,
    Dialog,
) {
    let (w, c1, d1) = going(way, e, c, d);
    let (after, c2, d2) = measuring(c1, settling(w is Ok, settle, d1));
    (
        Tried {
            path: way_name(way),
            outcome: match w {
                Ok(_) => Ok(after),
                Err(e) => Err(e.text()),
            },
        },
        c2,
        d2,
    )
}

fn try_path(way: u8, e: &Envelope, settle_secs: u64, conn: &mut SmcConnection, io: &mut Exchange) -> (r:
    Attempt)
    requires
        old(conn).wf(),
        settle_secs <= 30,
    ensures
        final(conn).wf(),
        (r@, final(conn)@, final(io)@) == trying(
            way as int,
            *e,
            settle_secs,
            old(conn)@,
            old(io)@,
        ),
{
    reveal(trying);
    let path: &'static str = if way == 0 {
        "F0Tg_direct"
    } else if way == 1 {
        "F0Dc_direct"
    } else if way == 2 {
        "F0md=1_then_F0Tg"
    } else {
        "F0Mn_raise_then_F0md=1"
    };
    let written: Result<(), SmcError> = go(way, e, conn, io);
    wait_settled(written.is_ok(), settle_secs, io);
    let after: Flt = measure(conn, io);
    let outcome: Result<Flt, String> = match written {
        Ok(_) => Ok(after),
        Err(e) => Err(e.message()),
    };
    Attempt { path, outcome }
}

/// How long a fan is given to come back, in milliseconds.
pub const RESET_WAIT_MS: u64 = 1500;

/// What follows a way that did not move the fan: the minimum is put back, if it
/// was raised, and the fan is left to the firmware.
pub open spec fn giving_up(way: int, min: Flt, c: Conn, d: Dialog) -> (Conn, Dialog) {
    if way == 3 {
        let (_, c1, d1) = writing_be(c, F0MN, min, d);
        resetting(c1, RESET_WAIT_MS, d1)
    } else {
        resetting(c, RESET_WAIT_MS, d)
    }
}

/// The ways from one of them on, until one moves the fan.
pub open spec fn trying_all(
    way: int,
    e: Envelope,
    settle: u64,
    baseline: Flt,
    before: Seq<Tried>,
    c: Conn,
    d: Dialog,
) -> (Seq<Tried>, Conn, Dialog)
    decreases 4 - way,
{
    if way >= 4 {
        (before, c, d)
    } else {
        let (t, c1, d1) = trying(way, e, settle, c, d);
        if t.held(baseline) {
            (before.push(t), c1, d1)
        } else {
            let (c2, d2) = giving_up(way, e.min_rpm, c1, d1);
            trying_all(way + 1, e, settle, baseline, before.push(t), c2, d2)
        }
    }
}

/// What was tried, on a connection that is still open.
pub struct Forced {
    pub conn: SmcConnection,
    pub envelope: Envelope,
    /// The speed before anything was tried.
    pub baseline: Flt,
    pub attempts: Vec<Attempt>,
}

/// Finding out where the fan is, and trying the ways.
pub open spec fn attempting(e: Envelope, settle: u64, c: Conn, d: Dialog) -> (
    Flt,
    Seq<Tried>,
    Conn,
    Dialog,
) {
    let (baseline, c1, d1) = measuring(c, d);
    let (c2, d2) = resetting(c1, RESET_WAIT_MS, d1);
    let (t, c3, d3) = trying_all(0, e, settle, baseline, Seq::empty(), c2, d2);
    (baseline, t, c3, d3)
}

/// The first part of the command: open, and find out where the fan is. Or what
/// the command comes to where that is not possible.
pub open spec fn preparing(target: Flt, d: Dialog) -> (
    Result<(Conn, Envelope), (u8, Seq<Said>)>,
    Dialog,
) {
    let (opened, d1) = opening(d);
    match opened {
        Err(e) => (
            Err(
                (
                    2,
                    seq![
                        err(plain("fand force-rpm: SMC open failed: "@) + plain(e.text())),
                        err(plain("  hint: run as root (sudo fand force-rpm ...)"@)),
                    ],
                ),
            ),
            d1,
        ),
        Ok(c1) => {
            let (envelope, c2, d2) = reading_envelope(target, c1, d1);
            match envelope {
                Err(e) => (
                    Err(
                        (
                            1,
                            seq![
                                err(
                                    plain("fand force-rpm: read F0Mn failed: "@) + plain(e.text()),
                                ),
                            ],
                        ),
                    ),
                    closing(c2, d2).1,
                ),
                Ok(e) => (Ok((c2, e)), d2),
            }
        },
    }
}

/// The second part of the command: tries the ways, until one moves the fan.
/// Returns the speed before anything was tried, and what was tried. The third
/// part, after the fan was held, is [`release`].
pub fn attempt(
    e: &Envelope,
    settle_secs: u64,
    conn: &mut SmcConnection,
    io: &mut Exchange,
) -> (r: (Flt, Vec<Attempt>))
    requires
        old(conn).wf(),
        settle_secs <= 30,
    ensures
        final(conn).wf(),
        (r.0, tries(r.1@), final(conn)@, final(io)@) == attempting(
            *e,
            settle_secs,
            old(conn)@,
            old(io)@,
        ),
{
    let baseline: Flt = measure(conn, io);
    reset_mode(conn, RESET_WAIT_MS, io);
    let ghost goal = trying_all(0, *e, settle_secs, baseline, Seq::empty(), conn@, io@);
    let mut attempts: Vec<Attempt> = Vec::new();
    assert(tries(attempts@) =~= Seq::<Tried>::empty());
    let mut way: u8 = 0;
    while way < 4
        invariant
            way <= 4,
            conn.wf(),
            settle_secs <= 30,
            trying_all(way as int, *e, settle_secs, baseline, tries(attempts@), conn@, io@)
                == goal,
            attempting(*e, settle_secs, old(conn)@, old(io)@) == (
                baseline,
                goal.0,
                goal.1,
                goal.2,
            ),
        decreases 4 - way,
    {
        let ghost before = attempts@;
        let a: Attempt = try_path(way, e, settle_secs, conn, io);
        let held: bool = a.has_held(baseline);
        let ghost t = a@;
        attempts.push(a);
        assert(tries(attempts@) =~= tries(before).push(t));
        if held {
            return (baseline, attempts);
        }
        if way == 3 {
            let _ = write_be(conn, F0MN, e.min_rpm, io);
        }
        reset_mode(conn, RESET_WAIT_MS, io);
        way = way + 1;
    }
    (baseline, attempts)
}

/// The first part of the command. The second is [`attempt`].
pub fn prepare(target: Flt, io: &mut Exchange) -> (r: Result<(SmcConnection, Envelope), Outcome>)
    ensures
        match r {
            Ok((c, e)) => {
                &&& c.wf()
                &&& preparing(target, old(io)@) == (
                    Ok::<(Conn, Envelope), (u8, Seq<Said>)>((c@, e)),
                    final(io)@,
                )
            },
            Err(o) => preparing(target, old(io)@) == (
                Err::<(Conn, Envelope), (u8, Seq<Said>)>(o@),
                final(io)@,
            ),
        },
{
    let mut conn: SmcConnection = match SmcConnection::open(io) {
        Ok(c) => c,
        Err(e) => {
            let mut lines: Vec<Line> = silent();
            let mut m: Vec<Glyph> = start("fand force-rpm: SMC open failed: ");
            put_error(&mut m, &e);
            warn(&mut lines, m);
            warn_text(&mut lines, "  hint: run as root (sudo fand force-rpm ...)");
            assert(said(lines@) =~= seq![
                err(plain("fand force-rpm: SMC open failed: "@) + plain(e.text())),
                err(plain("  hint: run as root (sudo fand force-rpm ...)"@)),
            ]);
            return Err(Outcome { code: 2, lines });
        },
    };
    let envelope: Envelope = match read_envelope(&mut conn, target, io) {
        Ok(e) => e,
        Err(e) => {
            conn.close(io);
            let mut m: Vec<Glyph> = start("fand force-rpm: read F0Mn failed: ");
            put_error(&mut m, &e);
            return Err(one_warning(1, m));
        },
    };
    Ok((conn, envelope))
}

/// The head of the report.
pub open spec fn head_line(e: Envelope, settle: u64) -> Said {
    out(
        plain("fand force-rpm — target="@) + fixed(e.target, 0, 0) + plain(" (clamped to ["@)
            + fixed(e.min_rpm, 0, 0) + plain(", "@) + fixed(e.max_rpm, 0, 0) + plain(
            "]), settle="@,
        ) + plain(decimal(settle as nat)) + plain("s"@),
    )
}

/// Says which way holds the fan, and for how long.
pub open spec fn hold_line(path: Seq<char>, hold: u64) -> Said {
    out(
        plain("holding for "@) + plain(decimal(hold as nat)) + plain("s via path="@) + plain(path)
            + plain(" — press Ctrl-C to exit early"@),
    )
}

/// What is said before anything is tried.
pub fn announce(a: &ForceArgs, e: &Envelope) -> (lines: Vec<Line>)
    ensures
        said(lines@) == (if a.json {
            Seq::empty()
        } else {
            seq![head_line(*e, a.settle_secs)]
        }),
{
    let mut lines: Vec<Line> = silent();
    if !a.json {
        let mut m: Vec<Glyph> = start("fand force-rpm — target=");
        put_fixed(&mut m, e.target, 0, 0);
        put_text(&mut m, " (clamped to [");
        put_fixed(&mut m, e.min_rpm, 0, 0);
        put_text(&mut m, ", ");
        put_fixed(&mut m, e.max_rpm, 0, 0);
        put_text(&mut m, "]), settle=");
        put_number(&mut m, a.settle_secs);
        put_text(&mut m, "s");
        say(&mut lines, m);
        assert(said(lines@) =~= seq![head_line(*e, a.settle_secs)]);
    }
    lines
}

/// What is said before the fan is held.
pub open spec fn holding_lines(a: ForceArgs, winner: Option<Seq<char>>) -> Seq<Said> {
    match winner {
        Some(path) => if a.hold_secs > 0 && !a.json {
            seq![hold_line(path, a.hold_secs)]
        } else {
            Seq::empty()
        },
        None => Seq::empty(),
    }
}

/// How long the fan is held, in seconds, and what is said before.
pub fn hold(a: &ForceArgs, f: &Forced) -> (r: (u64, Vec<Line>))
    ensures
        said(r.1@) == holding_lines(*a, winning(tries(f.attempts@), f.baseline, 0)),
        r.0 == (if winning(tries(f.attempts@), f.baseline, 0) is Some {
            a.hold_secs
        } else {
            0
        }),
{
    let best: Option<&'static str> = winner(&f.attempts, f.baseline);
    let mut lines: Vec<Line> = silent();
    match best {
        Some(path) => {
            if a.hold_secs > 0 && !a.json {
                let mut m: Vec<Glyph> = start("holding for ");
                put_number(&mut m, a.hold_secs);
                put_text(&mut m, "s via path=");
                put_text(&mut m, path);
                put_text(&mut m, " — press Ctrl-C to exit early");
                say(&mut lines, m);
                assert(said(lines@) =~= seq![hold_line(path@, a.hold_secs)]);
            }
            (a.hold_secs, lines)
        },
        None => (0, lines),
    }
}

/// Putting back what was changed: the minimum, if the way that moved the fan
/// raised it, and the mode. Then the connection is closed.
pub open spec fn releasing(winner: Option<Seq<char>>, min: Flt, c: Conn, d: Dialog) -> (
    Conn,
    Dialog,
) {
    if winner == Some(way_name(3)) {
        let (_, c1, d1) = writing_be(c, F0MN, min, d);
        let (c2, d2) = resetting(c1, RESET_WAIT_MS, d1);
        closing(c2, d2)
    } else {
        let (c1, d1) = resetting(c, RESET_WAIT_MS, d);
        closing(c1, d1)
    }
}

/// A way in the report.
pub open spec fn tried_row(t: Tried, baseline: Flt) -> Said {
    match t.outcome {
        Ok(after) => out(
            plain(left(t.path, 26)) + plain(" after="@) + fixed(after, 6, 0) + plain(" delta="@)
                + with_sign(after.minus(baseline), 7, 0) + plain(
                if t.held(baseline) {
                    " HELD"@
                } else {
                    " no-op"@
                },
            ),
        ),
        Err(s) => out(plain(left(t.path, 26)) + plain(" ERROR "@) + plain(s)),
    }
}

/// The ways in the report.
pub open spec fn tried_rows(t: Seq<Tried>, baseline: Flt) -> Seq<Said>
    decreases t.len(),
{
    if t.len() == 0 {
        seq![out(plain(rule(72)))]
    } else {
        tried_rows(t.drop_last(), baseline).push(tried_row(t.last(), baseline))
    }
}

/// A way in the report, for machines.
pub open spec fn json_tried(t: Tried, baseline: Flt) -> Seq<Mark> {
    match t.outcome {
        Ok(after) => plain("{\"path\":\""@) + plain(t.path) + plain("\",\"ok\":true,\"after\":"@)
            + fixed(after, 0, 0) + plain(",\"delta\":"@) + fixed(after.minus(baseline), 0, 0)
            + plain("}"@),
        Err(s) => plain("{\"path\":\""@) + plain(t.path) + plain("\",\"ok\":false,\"error\":\""@)
            + plain(single_quoted(s)) + plain("\"}"@),
    }
}

/// The report up to some ways, for machines.
pub open spec fn json_tries(t: Seq<Tried>, baseline: Flt) -> Seq<Mark>
    decreases t.len(),
{
    if t.len() == 0 {
        plain("{\"baseline\":"@) + fixed(baseline, 0, 0) + plain(",\"attempts\":["@)
    } else if t.len() == 1 {
        json_tries(t.drop_last(), baseline) + json_tried(t.last(), baseline)
    } else {
        json_tries(t.drop_last(), baseline) + plain(","@) + json_tried(t.last(), baseline)
    }
}

/// The name of the way that moved the fan, for machines.
pub open spec fn json_winner(winner: Option<Seq<char>>) -> Seq<Mark> {
    match winner {
        Some(p) => plain("\""@) + plain(p) + plain("\"}"@),
        None => plain("null}"@),
    }
}

/// The report.
pub open spec fn report(json: bool, t: Seq<Tried>, baseline: Flt) -> Seq<Said> {
    let winner = winning(t, baseline, 0);
    if json {
        seq![out(json_tries(t, baseline) + plain("],\"winner\":"@) + json_winner(winner))]
    } else {
        tried_rows(t, baseline).push(out(plain(rule(72)))).push(
            out(
                match winner {
                    Some(p) => plain("winner: "@) + plain(p),
                    None => plain("no path moved the fan ≥ 500 RPM"@),
                },
            ),
        )
    }
}

fn row_message(a: &Attempt, baseline: Flt) -> (m: Vec<Glyph>)
    ensures
        out(shown(m@)) == tried_row(a@, baseline),
{
    let mut m: Vec<Glyph> = Vec::new();
    put_left(&mut m, a.path, 26);
    assert(shown(m@) =~= plain(left(a.path@, 26)));
    let held: bool = a.has_held(baseline);
    match &a.outcome {
        Ok(after) => {
            put_text(&mut m, " after=");
            put_fixed(&mut m, *after, 6, 0);
            put_text(&mut m, " delta=");
            put_signed(&mut m, after.sub(baseline), 7, 0);
            if held {
                put_text(&mut m, " HELD");
            } else {
                put_text(&mut m, " no-op");
            }
        },
        Err(s) => {
            put_text(&mut m, " ERROR ");
            put_text(&mut m, s.as_str());
        },
    }
    m
}

fn say_report(v: &Vec<Attempt>, baseline: Flt) -> (lines: Vec<Line>)
    ensures
        said(lines@) == report(false, tries(v@), baseline),
{
    let ghost t = tries(v@);
    let line: String = rule_text(72);
    let mut lines: Vec<Line> = silent();
    say_text(&mut lines, line.as_str());
    assert(t.take(0) =~= Seq::<Tried>::empty());
    assert(said(lines@) =~= tried_rows(t.take(0), baseline));
    let mut i: usize = 0;
    while i < v.len()
        invariant
            i <= v@.len(),
            t == tries(v@),
            said(lines@) == tried_rows(t.take(i as int), baseline),
        decreases v@.len() - i,
    {
        say(&mut lines, row_message(&v[i], baseline));
        proof {
            let next = t.take(i + 1);
            assert(next.drop_last() =~= t.take(i as int));
            assert(next.last() == v@[i as int]@);
        }
        i = i + 1;
    }
    assert(t.take(t.len() as int) =~= t);
    say_text(&mut lines, line.as_str());
    match winner(v, baseline) {
        Some(p) => {
            let mut m: Vec<Glyph> = start("winner: ");
            put_text(&mut m, p);
            say(&mut lines, m);
        },
        None => say_text(&mut lines, "no path moved the fan ≥ 500 RPM"),
    }
    lines
}

fn put_json_tried(m: &mut Vec<Glyph>, a: &Attempt, baseline: Flt)
    ensures
        shown(final(m)@) == shown(old(m)@) + json_tried(a@, baseline),
{
    let ghost before = shown(m@);
    put_text(m, "{\"path\":\"");
    put_text(m, a.path);
    match &a.outcome {
        Ok(after) => {
            put_text(m, "\",\"ok\":true,\"after\":");
            put_fixed(m, *after, 0, 0);
            put_text(m, ",\"delta\":");
            put_fixed(m, after.sub(baseline), 0, 0);
            put_text(m, "}");
        },
        Err(s) => {
            put_text(m, "\",\"ok\":false,\"error\":\"");
            put_text(m, single_quotes(s.as_str()).as_str());
            put_text(m, "\"}");
        },
    }
    assert(shown(m@) =~= before + json_tried(a@, baseline));
}

fn json_report(v: &Vec<Attempt>, baseline: Flt) -> (lines: Vec<Line>)
    ensures
        said(lines@) == report(true, tries(v@), baseline),
{
    let ghost t = tries(v@);
    let mut m: Vec<Glyph> = start("{\"baseline\":");
    put_fixed(&mut m, baseline, 0, 0);
    put_text(&mut m, ",\"attempts\":[");
    assert(t.take(0) =~= Seq::<Tried>::empty());
    let mut i: usize = 0;
    while i < v.len()
        invariant
            i <= v@.len(),
            t == tries(v@),
            shown(m@) == json_tries(t.take(i as int), baseline),
        decreases v@.len() - i,
    {
        if i > 0 {
            put_text(&mut m, ",");
        }
        put_json_tried(&mut m, &v[i], baseline);
        proof {
            let next = t.take(i + 1);
            assert(next.drop_last() =~= t.take(i as int));
            assert(next.last() == v@[i as int]@);
        }
        i = i + 1;
    }
    assert(t.take(t.len() as int) =~= t);
    put_text(&mut m, "],\"winner\":");
    let ghost body = shown(m@);
    let best: Option<&'static str> = winner(v, baseline);
    match best {
        Some(p) => {
            put_text(&mut m, "\"");
            put_text(&mut m, p);
            put_text(&mut m, "\"}");
        },
        None => put_text(&mut m, "null}"),
    }
    assert(shown(m@) =~= body + json_winner(winning(t, baseline, 0)));
    let ghost whole = shown(m@);
    let mut lines: Vec<Line> = silent();
    say(&mut lines, m);
    assert(said(lines@) =~= seq![out(whole)]);
    lines
}

/// The third part of the command: what was changed is put back, and what came
/// of the ways is told.
pub fn release(f: &mut Forced, json: bool, io: &mut Exchange) -> (r: Outcome)
    requires
        old(f).conn.wf(),
    ensures
        (final(f).conn@, final(io)@) == releasing(
            winning(tries(old(f).attempts@), old(f).baseline, 0),
            old(f).envelope.min_rpm,
            old(f).conn@,
            old(io)@,
        ),
        final(f).envelope == old(f).envelope,
        final(f).baseline == old(f).baseline,
        final(f).attempts == old(f).attempts,
        said(r.lines@) == report(json, tries(old(f).attempts@), old(f).baseline),
        r.code == (if winning(tries(old(f).attempts@), old(f).baseline, 0) is Some {
            0u8
        } else {
            1u8
        }),
{
    let best: Option<&'static str> = winner(&f.attempts, f.baseline);
    let raised: bool = match best {
        Some(p) => same_text(p, "F0Mn_raise_then_F0md=1"),
        None => false,
    };
    if raised {
        let _ = write_be(&mut f.conn, F0MN, f.envelope.min_rpm, io);
    }
    reset_mode(&mut f.conn, RESET_WAIT_MS, io);
    f.conn.close(io);
    let lines: Vec<Line> = if json {
        json_report(&f.attempts, f.baseline)
    } else {
        say_report(&f.attempts, f.baseline)
    };
    let code: u8 = if best.is_some() {
        0
    } else {
        1
    };
    Outcome { code, lines }
}

/// The ways have their names, in their order, and only the last that was tried
/// can have moved the fan: none is tried after one that did.
pub proof fn law_the_first_way_that_works_is_kept(
    e: Envelope,
    settle: u64,
    c: Conn,
    d: Dialog,
)
    ensures
        ({
            let (baseline, t, _, _) = attempting(e, settle, c, d);
            &&& 1 <= t.len() <= 4
            &&& forall|i: int| 0 <= i < t.len() ==> (#[trigger] t[i]).path == way_name(i)
            &&& forall|i: int| 0 <= i < t.len() - 1 ==> !(#[trigger] t[i]).held(baseline)
            &&& t.len() < 4 ==> t.last().held(baseline)
            &&& winning(t, baseline, 0) == (if t.last().held(baseline) {
                Some(t.last().path)
            } else {
                None
            })
        }),
{
    let (baseline, c1, d1) = measuring(c, d);
    let (c2, d2) = resetting(c1, RESET_WAIT_MS, d1);
    let t = trying_all(0, e, settle, baseline, Seq::empty(), c2, d2).0;
    lemma_ways(0, e, settle, baseline, Seq::empty(), c2, d2);
    lemma_winner(t, baseline, 0);
}

proof fn lemma_ways(
    way: int,
    e: Envelope,
    settle: u64,
    baseline: Flt,
    before: Seq<Tried>,
    c: Conn,
    d: Dialog,
)
    requires
        0 <= way <= 4,
        before.len() == way,
        forall|i: int| 0 <= i < way ==> (#[trigger] before[i]).path == way_name(i),
        forall|i: int| 0 <= i < way ==> !(#[trigger] before[i]).held(baseline),
    ensures
        ({
            let t = trying_all(way, e, settle, baseline, before, c, d).0;
            &&& way <= t.len() <= 4
            &&& way < 4 ==> way < t.len()
            &&& forall|i: int| 0 <= i < t.len() ==> (#[trigger] t[i]).path == way_name(i)
            &&& forall|i: int| 0 <= i < t.len() - 1 ==> !(#[trigger] t[i]).held(baseline)
            &&& t.len() < 4 ==> t.last().held(baseline)
        }),
    decreases 4 - way,
{
    if way < 4 {
        reveal(trying);
        let (t, c1, d1) = trying(way, e, settle, c, d);
        if !t.held(baseline) {
            let (c2, d2) = giving_up(way, e.min_rpm, c1, d1);
            lemma_ways(way + 1, e, settle, baseline, before.push(t), c2, d2);
        }
    }
}

proof fn lemma_winner(t: Seq<Tried>, baseline: Flt, i: int)
    requires
        0 <= i < t.len(),
        forall|j: int| 0 <= j < t.len() - 1 ==> !(#[trigger] t[j]).held(baseline),
    ensures
        winning(t, baseline, i) == (if t.last().held(baseline) {
            Some(t.last().path)
        } else {
            None
        }),
    decreases t.len() - i,
{
    if i < t.len() - 1 {
        lemma_winner(t, baseline, i + 1);
    } else {
        assert(winning(t, baseline, i + 1) == None::<Seq<char>>);
    }
}

/// From one state on, the minimum is written, the fan left to the firmware, and
/// the connection closed.
pub open spec fn puts_back(held: bool, min: Flt, c: Conn, d: Dialog, end: (Conn, Dialog)) -> bool {
    let (_, c1, d1) = writing_be(c, F0MN, min, d);
    let (c2, d2) = resetting(c1, RESET_WAIT_MS, d1);
    let (c3, d3) = if held {
        (c2, d2)
    } else {
        resetting(c2, RESET_WAIT_MS, d2)
    };
    end == closing(c3, d3)
}

/// The last way ends in a state from which the minimum is still to be put back,
/// or behind one from which it was.
spec fn ends(held: bool, min: Flt, c: Conn, d: Dialog, end: (Conn, Dialog)) -> bool {
    let (_, c1, d1) = writing_be(c, F0MN, min, d);
    if held {
        end == (c, d)
    } else {
        end == resetting(c1, RESET_WAIT_MS, d1)
    }
}

/// Where the minimum was raised, it is put back before the fan is left to the
/// firmware and the connection closed: at once if the fan did not move, and
/// after it was held if it did.
pub proof fn law_a_raised_floor_is_put_back(e: Envelope, settle: u64, c: Conn, d: Dialog)
    requires
        attempting(e, settle, c, d).1.len() == 4,
    ensures
        ({
            let (baseline, t, c1, d1) = attempting(e, settle, c, d);
            exists|c2: Conn, d2: Dialog| #[trigger]
                puts_back(
                    t.last().held(baseline),
                    e.min_rpm,
                    c2,
                    d2,
                    releasing(winning(t, baseline, 0), e.min_rpm, c1, d1),
                )
        }),
{
    let (baseline, c1, d1) = measuring(c, d);
    let (c2, d2) = resetting(c1, RESET_WAIT_MS, d1);
    let (t, c3, d3) = trying_all(0, e, settle, baseline, Seq::empty(), c2, d2);
    law_the_first_way_that_works_is_kept(e, settle, c, d);
    lemma_last_way(0, e, settle, baseline, Seq::empty(), c2, d2);
    let (c4, d4) = choose|c4: Conn, d4: Dialog| #[trigger]
        ends(t.last().held(baseline), e.min_rpm, c4, d4, (c3, d3));
    let r = attempting(e, settle, c, d);
    assert(puts_back(
        r.1.last().held(r.0),
        e.min_rpm,
        c4,
        d4,
        releasing(winning(r.1, r.0, 0), e.min_rpm, r.2, r.3),
    ));
}

proof fn lemma_last_way(
    way: int,
    e: Envelope,
    settle: u64,
    baseline: Flt,
    before: Seq<Tried>,
    c: Conn,
    d: Dialog,
)
    requires
        0 <= way < 4,
        before.len() == way,
        trying_all(way, e, settle, baseline, before, c, d).0.len() == 4,
    ensures
        ({
            let (t, c1, d1) = trying_all(way, e, settle, baseline, before, c, d);
            exists|c2: Conn, d2: Dialog| #[trigger]
                ends(t.last().held(baseline), e.min_rpm, c2, d2, (c1, d1))
        }),
    decreases 4 - way,
{
    let r = trying_all(way, e, settle, baseline, before, c, d);
    let (t, c1, d1) = trying(way, e, settle, c, d);
    if t.held(baseline) {
        assert(r == (before.push(t), c1, d1));
        assert(before.push(t).last() == t);
        assert(ends(r.0.last().held(baseline), e.min_rpm, c1, d1, (r.1, r.2)));
    } else {
        let (c2, d2) = giving_up(way, e.min_rpm, c1, d1);
        if way < 3 {
            lemma_last_way(way + 1, e, settle, baseline, before.push(t), c2, d2);
        } else {
            assert(trying_all(4, e, settle, baseline, before.push(t), c2, d2) == (
                before.push(t),
                c2,
                d2,
            ));
            assert(before.push(t).last() == t);
            assert(r == (before.push(t), c2, d2));
            assert(ends(r.0.last().held(baseline), e.min_rpm, c1, d1, (r.1, r.2)));
        }
    }
}

} // verus!
