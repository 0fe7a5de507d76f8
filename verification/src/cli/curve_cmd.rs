//! The command `curve`: the curve of each fan, as a plot and in numbers.
//!
//! What a plot shows is computed here. To draw it is left to the host.

use super::parse::{fan_index, parse_fan_index};
use super::run::{one_warning, unknown_option};
use super::say::{
    decimal_text, err, out, put_right, right, said, say, say_text, silent, start, Line, Outcome,
    Said,
};
use crate::config::schema::{Breakpoint, FanBinding, SensorRef};
use crate::control::curve::{evaluate, evaluated};
use crate::flt::{whole, Flt};
use crate::glyph::{fixed, plain, put_fixed, put_number, put_text, Glyph};
use crate::text::{decimal, same_text, texts};
use vstd::prelude::*;
use vstd::string::StringExecFns;

verus! {

/// The arguments.
#[derive(Debug, Clone, PartialEq, Eq)]
pub struct CurveArgs {
    pub config_path: String,
    /// The fan to show; every fan without it.
    pub fan: Option<u8>,
}

/// The arguments, with the path as a sequence.
pub struct CurveAsk {
    pub config_path: Seq<char>,
    pub fan: Option<u8>,
}

impl CurveArgs {
    pub open spec fn view(&self) -> CurveAsk {
        CurveAsk { config_path: self.config_path@, fan: self.fan }
    }
}

/// The arguments from the `i`-th on, behind those that were read before; or
/// what the command comes to without running.
pub open spec fn curve_args(args: Seq<Seq<char>>, i: int, p: CurveAsk) -> Result<
    CurveAsk,
    (u8, Seq<Said>),
>
    decreases args.len() - i,
{
    if i >= args.len() {
        Ok(p)
    } else if args[i] == "--config"@ {
        if i + 1 >= args.len() {
            Err((64, seq![err(plain("fand curve: --config requires a path"@))]))
        } else {
            curve_args(args, i + 2, CurveAsk { config_path: args[i + 1], ..p })
        }
    } else if args[i] == "--fan"@ {
        if i + 1 >= args.len() {
            Err((64, seq![err(plain("fand curve: --fan requires an index"@))]))
        } else {
            match fan_index(args[i + 1]) {
                Ok(n) => curve_args(args, i + 2, CurveAsk { fan: Some(n), ..p }),
                Err(e) => Err((64, seq![err(plain("fand curve: "@) + plain(e.words()))])),
            }
        }
    } else if args[i] == "--help"@ || args[i] == "-h"@ {
        Err((0, seq![err(plain("usage: fand curve [--config PATH] [--fan N]"@))]))
    } else {
        Err((64, seq![err(plain("fand curve: unknown option '"@) + plain(args[i]) + plain("'"@))]))
    }
}

/// What holds without arguments.
pub open spec fn default_args() -> CurveAsk {
    CurveAsk { config_path: "/etc/fand.toml"@, fan: None }
}

/// Reads the arguments.
pub fn parse_args(args: &Vec<String>) -> (r: Result<CurveArgs, Outcome>)
    ensures
        match r {
            Ok(a) => curve_args(texts(args@), 0, default_args()) == Ok::<
                CurveAsk,
                (u8, Seq<Said>),
            >(a@),
            Err(o) => curve_args(texts(args@), 0, default_args()) == Err::<
                CurveAsk,
                (u8, Seq<Said>),
            >(o@),
        },
{
    let ghost words = texts(args@);
    let mut config_path: String = "/etc/fand.toml".to_owned();
    let mut fan: Option<u8> = None;
    let mut i: usize = 0;
    let len: usize = args.len();
    while i < len
        invariant
            i <= len,
            len == args@.len(),
            words == texts(args@),
            curve_args(words, 0, default_args()) == curve_args(
                words,
                i as int,
                CurveAsk { config_path: config_path@, fan },
            ),
        decreases len - i,
    {
        let arg: &str = args[i].as_str();
        assert(words[i as int] == arg@);
        if same_text(arg, "--config") {
            if i + 1 >= len {
                return Err(one_warning(64, start("fand curve: --config requires a path")));
            }
            i = i + 1;
            let v: &str = args[i].as_str();
            assert(words[i as int] == v@);
            config_path = v.to_owned();
        } else if same_text(arg, "--fan") {
            if i + 1 >= len {
                return Err(one_warning(64, start("fand curve: --fan requires an index")));
            }
            i = i + 1;
            let v: &str = args[i].as_str();
            assert(words[i as int] == v@);
            match parse_fan_index(v) {
                Ok(n) => {
                    fan = Some(n);
                },
                Err(e) => {
                    let mut m: Vec<Glyph> = start("fand curve: ");
                    put_text(&mut m, e.message());
                    return Err(one_warning(64, m));
                },
            }
        } else if same_text(arg, "--help") || same_text(arg, "-h") {
            return Err(one_warning(0, start("usage: fand curve [--config PATH] [--fan N]")));
        } else {
            return Err(unknown_option("fand curve: unknown option '", arg));
        }
        i = i + 1;
    }
    Ok(CurveArgs { config_path, fan })
}

/// The place of the first fan with an index, from the `i`-th on.
pub open spec fn place_of(fans: Seq<FanBinding>, index: u8, i: int) -> Option<int>
    decreases fans.len() - i,
{
    if i >= fans.len() {
        None
    } else if fans[i].index == index {
        Some(i)
    } else {
        place_of(fans, index, i + 1)
    }
}

/// The fans to show, from a place up to another.
pub open spec fn selection(fans: Seq<FanBinding>, fan: Option<u8>) -> Result<
    (int, int),
    (u8, Seq<Said>),
> {
    match fan {
        None => Ok((0, fans.len() as int)),
        Some(index) => match place_of(fans, index, 0) {
            Some(i) => Ok((i, i + 1)),
            None => Err(
                (
                    1,
                    seq![
                        err(
                            plain("fand curve: fan index "@) + plain(decimal(index as nat))
                                + plain(" not found in config"@),
                        ),
                    ],
                ),
            ),
        },
    }
}

/// The fans to show: from the first place up to the second.
pub fn select(fans: &Vec<FanBinding>, fan: Option<u8>) -> (r: Result<(usize, usize), Outcome>)
    ensures
        match r {
            Ok(p) => {
                &&& selection(fans@, fan) == Ok::<(int, int), (u8, Seq<Said>)>(
                    (p.0 as int, p.1 as int),
                )
                &&& p.0 <= p.1 <= fans@.len()
            },
            Err(o) => selection(fans@, fan) == Err::<(int, int), (u8, Seq<Said>)>(o@),
        },
{
    let len: usize = fans.len();
    let index: u8 = match fan {
        Some(n) => n,
        None => {
            return Ok((0, len));
        },
    };
    let mut i: usize = 0;
    while i < len
        invariant
            i <= len,
            len == fans@.len(),
            fan == Some(index),
            place_of(fans@, index, 0) == place_of(fans@, index, i as int),
        decreases len - i,
    {
        if fans[i].index == index {
            return Ok((i, i + 1));
        }
        i = i + 1;
    }
    let mut m: Vec<Glyph> = start("fand curve: fan index ");
    put_number(&mut m, index as u64);
    put_text(&mut m, " not found in config");
    Err(one_warning(1, m))
}

/// What a plot shows.
#[derive(Debug, Clone, PartialEq, Eq)]
pub struct Picture {
    /// The temperatures at the left and at the right edge.
    pub t_min: Flt,
    pub t_max: Flt,
    /// The speed at the upper edge; the lower is at 0.
    pub rpm_top: Flt,
    /// The curve, at 101 temperatures.
    pub line: Vec<(Flt, Flt)>,
    /// The points of the curve.
    pub knots: Vec<(Flt, Flt)>,
}

/// What a plot shows, with points as sequences.
#[verifier::ext_equal]
pub struct Drawn {
    pub t_min: Flt,
    pub t_max: Flt,
    pub rpm_top: Flt,
    pub line: Seq<(Flt, Flt)>,
    pub knots: Seq<(Flt, Flt)>,
}

impl Picture {
    pub open spec fn view(&self) -> Drawn {
        Drawn {
            t_min: self.t_min,
            t_max: self.t_max,
            rpm_top: self.rpm_top,
            line: self.line@,
            knots: self.knots@,
        }
    }
}

/// 5.0
pub const MARGIN_BITS: u32 = 0x40A0_0000;

/// 100.0
pub const HUNDRED_BITS: u32 = 0x42C8_0000;

/// 200.0
pub const HEADROOM_BITS: u32 = 0x4348_0000;

/// The highest speed of a curve.
pub open spec fn top_speed(points: Seq<Breakpoint>) -> u32
    decreases points.len(),
{
    if points.len() == 0 {
        0
    } else {
        let before = top_speed(points.drop_last());
        if points.last().1 > before {
            points.last().1
        } else {
            before
        }
    }
}

/// The `i`-th of 101 temperatures from one to another.
pub open spec fn step(t_min: Flt, t_max: Flt, i: nat) -> Flt {
    t_min.plus(t_max.minus(t_min).times(whole(i)).over(Flt { bits: HUNDRED_BITS }))
}

/// What the plot of a curve shows.
pub open spec fn picture_of(points: Seq<Breakpoint>) -> Drawn {
    let margin = Flt { bits: MARGIN_BITS };
    let t_min = points[0].0.minus(margin);
    let t_max = points.last().0.plus(margin);
    Drawn {
        t_min,
        t_max,
        rpm_top: whole(top_speed(points) as nat).plus(Flt { bits: HEADROOM_BITS }),
        line: Seq::new(
            101,
            |i: int|
                {
                    let t = step(t_min, t_max, i as nat);
                    (t, evaluated(points, t))
                },
        ),
        knots: Seq::new(points.len(), |i: int| (points[i].0, whole(points[i].1 as nat))),
    }
}

/// What the plot of a curve shows.
pub fn picture(points: &Vec<Breakpoint>) -> (r: Picture)
    requires
        points@.len() >= 2,
    ensures
        r@ == picture_of(points@),
{
    let ghost goal = picture_of(points@);
    let len: usize = points.len();
    let margin: Flt = Flt { bits: MARGIN_BITS };
    let t_min: Flt = points[0].0.sub(margin);
    let t_max: Flt = points[len - 1].0.add(margin);
    let mut top: u32 = 0;
    let mut knots: Vec<(Flt, Flt)> = Vec::new();
    let mut i: usize = 0;
    assert(points@.take(0) =~= Seq::<Breakpoint>::empty());
    while i < len
        invariant
            i <= len,
            len == points@.len(),
            goal == picture_of(points@),
            top == top_speed(points@.take(i as int)),
            knots@ =~= goal.knots.take(i as int),
        decreases len - i,
    {
        let p: Breakpoint = points[i];
        assert(points@.take(i + 1).drop_last() =~= points@.take(i as int));
        if p.1 > top {
            top = p.1;
        }
        knots.push((p.0, Flt::from_u32(p.1)));
        i = i + 1;
    }
    assert(points@.take(len as int) =~= points@);
    assert(goal.knots.take(len as int) =~= goal.knots);
    let mut line: Vec<(Flt, Flt)> = Vec::new();
    let mut k: u32 = 0;
    while k < 101
        invariant
            k <= 101,
            goal == picture_of(points@),
            t_min == goal.t_min,
            t_max == goal.t_max,
            line@ =~= goal.line.take(k as int),
        decreases 101 - k,
    {
        let t: Flt = t_min.add(
            t_max.sub(t_min).mul(Flt::from_u32(k)).div(Flt { bits: HUNDRED_BITS }),
        );
        line.push((t, evaluate(points.as_slice(), t)));
        k = k + 1;
    }
    assert(goal.line.take(101) =~= goal.line);
    let rpm_top: Flt = Flt::from_u32(top).add(Flt { bits: HEADROOM_BITS });
    Picture { t_min, t_max, rpm_top, line, knots }
}

/// The sensors of a fan, with commas between them.
pub open spec fn sensor_list(sensors: Seq<SensorRef>) -> Seq<char>
    decreases sensors.len(),
{
    if sensors.len() == 0 {
        Seq::empty()
    } else if sensors.len() == 1 {
        sensors.last().key()
    } else {
        sensor_list(sensors.drop_last()) + ", "@ + sensors.last().key()
    }
}

fn sensors_text(sensors: &Vec<SensorRef>) -> (r: String)
    ensures
        r@ == sensor_list(sensors@),
{
    let mut s: String = String::new();
    let mut i: usize = 0;
    assert(sensors@.take(0) =~= Seq::<SensorRef>::empty());
    assert(s@ =~= Seq::<char>::empty());
    while i < sensors.len()
        invariant
            i <= sensors@.len(),
            s@ == sensor_list(sensors@.take(i as int)),
        decreases sensors@.len() - i,
    {
        if i > 0 {
            s.append(", ");
        }
        s.append(sensors[i].as_str());
        proof {
            let next = sensors@.take(i + 1);
            assert(next.drop_last() =~= sensors@.take(i as int));
            assert(next.last() == sensors@[i as int]);
            assert(s@ =~= sensor_list(next));
        }
        i = i + 1;
    }
    assert(sensors@.take(sensors@.len() as int) =~= sensors@);
    s
}

/// What stands above the plot of a fan.
pub open spec fn above(fan: FanBinding) -> Seq<Said> {
    let head = out(
        plain("Fan "@) + plain(decimal(fan.index as nat)) + plain(" — sensors: "@) + plain(
            sensor_list(fan.sensors@),
        ) + plain(" — hysteresis: "@) + fixed(fan.hysteresis_up, 0, 1) + plain("/"@) + fixed(
            fan.hysteresis_down,
            0,
            1,
        ) + plain("°C"@),
    );
    if fan.curve@.len() < 2 {
        seq![head, out(plain("  (curve has fewer than 2 points — cannot plot)"@))]
    } else {
        seq![head]
    }
}

/// A point of a curve.
pub open spec fn point_line(p: Breakpoint) -> Said {
    out(
        plain("    "@) + fixed(p.0, 6, 1) + plain("°C → "@) + plain(
            right(decimal(p.1 as nat), 5),
        ) + plain(" RPM"@),
    )
}

/// The points of a curve.
pub open spec fn point_lines(points: Seq<Breakpoint>) -> Seq<Said>
    decreases points.len(),
{
    if points.len() == 0 {
        seq![out(plain("  Curve points:"@))]
    } else {
        point_lines(points.drop_last()).push(point_line(points.last()))
    }
}

/// What is said of a hysteresis, if there is one.
pub open spec fn band_lines(down: Flt) -> Seq<Said> {
    if (Flt { bits: 0 }).less(down) {
        seq![
            out(
                plain("  Hysteresis band: cooling requires "@) + fixed(down, 0, 1) + plain(
                    "°C additional drop before RPM decreases."@,
                ),
            ),
        ]
    } else {
        Seq::empty()
    }
}

/// What stands below the plot of a fan.
pub open spec fn below(fan: FanBinding) -> Seq<Said> {
    if fan.curve@.len() < 2 {
        Seq::empty()
    } else {
        (point_lines(fan.curve@) + band_lines(fan.hysteresis_down)).push(
            out(plain("  (no SMC access — live sensor marker unavailable)"@)),
        ).push(out(plain(""@)))
    }
}

/// A fan: what stands above its plot, the plot, and what stands below it.
#[derive(Debug, Clone, PartialEq, Eq)]
pub struct Sheet {
    pub above: Vec<Line>,
    pub picture: Option<Picture>,
    pub below: Vec<Line>,
}

fn say_points(points: &Vec<Breakpoint>) -> (lines: Vec<Line>)
    ensures
        said(lines@) == point_lines(points@),
{
    let mut lines: Vec<Line> = silent();
    say_text(&mut lines, "  Curve points:");
    assert(points@.take(0) =~= Seq::<Breakpoint>::empty());
    assert(said(lines@) =~= point_lines(points@.take(0)));
    let mut i: usize = 0;
    while i < points.len()
        invariant
            i <= points@.len(),
            said(lines@) == point_lines(points@.take(i as int)),
        decreases points@.len() - i,
    {
        let p: Breakpoint = points[i];
        let mut m: Vec<Glyph> = start("    ");
        put_fixed(&mut m, p.0, 6, 1);
        put_text(&mut m, "°C → ");
        put_right(&mut m, decimal_text(p.1 as u64).as_str(), 5);
        put_text(&mut m, " RPM");
        say(&mut lines, m);
        assert(points@.take(i + 1).drop_last() =~= points@.take(i as int));
        i = i + 1;
    }
    assert(points@.take(points@.len() as int) =~= points@);
    lines
}

/// A fan. There is a plot if its curve has two points or more.
pub fn print_curve(fan: &FanBinding) -> (r: Sheet)
    ensures
        said(r.above@) == above(*fan),
        said(r.below@) == below(*fan),
        match r.picture {
            Some(p) => fan.curve@.len() >= 2 && p@ == picture_of(fan.curve@),
            None => fan.curve@.len() < 2,
        },
{
    let mut head: Vec<Line> = silent();
    let mut m: Vec<Glyph> = start("Fan ");
    put_number(&mut m, fan.index as u64);
    put_text(&mut m, " — sensors: ");
    put_text(&mut m, sensors_text(&fan.sensors).as_str());
    put_text(&mut m, " — hysteresis: ");
    put_fixed(&mut m, fan.hysteresis_up, 0, 1);
    put_text(&mut m, "/");
    put_fixed(&mut m, fan.hysteresis_down, 0, 1);
    put_text(&mut m, "°C");
    say(&mut head, m);
    if fan.curve.len() < 2 {
        say_text(&mut head, "  (curve has fewer than 2 points — cannot plot)");
        assert(said(head@) =~= above(*fan));
        return Sheet { above: head, picture: None, below: silent() };
    }
    assert(said(head@) =~= above(*fan));
    let mut tail: Vec<Line> = say_points(&fan.curve);
    let zero: Flt = Flt { bits: 0 };
    if zero.lt(fan.hysteresis_down) {
        let mut b: Vec<Glyph> = start("  Hysteresis band: cooling requires ");
        put_fixed(&mut b, fan.hysteresis_down, 0, 1);
        put_text(&mut b, "°C additional drop before RPM decreases.");
        say(&mut tail, b);
    }
    assert(said(tail@) =~= point_lines(fan.curve@) + band_lines(fan.hysteresis_down));
    say_text(&mut tail, "  (no SMC access — live sensor marker unavailable)");
    say_text(&mut tail, "");
    Sheet { above: head, picture: Some(picture(&fan.curve)), below: tail }
}

} // verus!
