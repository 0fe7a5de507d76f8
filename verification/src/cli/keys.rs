//! The command `keys`: what fans and keys there are.

use super::say::{
    decimal_text, err, hex_text, left, out, put_error, put_left, put_right, right, said, say,
    say_all, say_text, silent, start, warn, warn_text, Line, Outcome, Said,
};
use crate::flt::Flt;
use crate::glyph::{fixed, plain, put_fixed, put_number, put_text, shown, Glyph, Mark};
use crate::smc::connection::{closing, opening, writing_u8, SmcConnection};
use crate::smc::enumerate::{enumerate_fans, enumerating, Fan};
use crate::smc::error::{unsigned, KernReturnT, SmcError};
use crate::smc::exchange::{Dialog, Exchange};
use crate::smc::keys::Target;
use crate::text::{
    chars_of, decimal, digits, hex_upper, push_digits, same_text, text_of, texts, trim_chars,
    trimmed,
};
use vstd::prelude::*;
use vstd::string::StringExecFns;
use vstd::utf8::encode_utf8;

verus! {

/// What the command is asked to do.
#[derive(Debug, Clone, PartialEq, Eq)]
pub enum Mode {
    /// The catalogue of fans.
    Default,
    /// Open and close a connection.
    DebugOpen,
    /// The catalogue of fans, for machines.
    Json,
    /// The keys of fans.
    AllFanKeys,
    /// The value of a key.
    Read(String),
    /// Write a value to a key, whatever it is.
    DebugWrite { fourcc: String, value: String },
}

/// A mode, with texts as sequences.
pub enum Ask {
    Default,
    DebugOpen,
    Json,
    AllFanKeys,
    Read(Seq<char>),
    DebugWrite { fourcc: Seq<char>, value: Seq<char> },
}

impl Mode {
    pub open spec fn view(&self) -> Ask {
        match *self {
            Mode::Default => Ask::Default,
            Mode::DebugOpen => Ask::DebugOpen,
            Mode::Json => Ask::Json,
            Mode::AllFanKeys => Ask::AllFanKeys,
            Mode::Read(s) => Ask::Read(s@),
            Mode::DebugWrite { fourcc, value } => Ask::DebugWrite {
                fourcc: fourcc@,
                value: value@,
            },
        }
    }
}

/// What the arguments from the `i`-th on ask for, after those before asked for
/// `mode`. Only one mode can be asked for.
pub open spec fn asked_mode(args: Seq<Seq<char>>, i: int, mode: Ask) -> Result<Ask, Seq<char>>
    decreases args.len() - i,
{
    if i >= args.len() {
        Ok(mode)
    } else if args[i] == "--all"@ {
        if mode !is Default {
            Err("--all is mutually exclusive with other modes"@)
        } else {
            asked_mode(args, i + 1, Ask::AllFanKeys)
        }
    } else if args[i] == "--read"@ {
        if mode !is Default {
            Err("--read is mutually exclusive with other modes"@)
        } else if i + 1 >= args.len() {
            Err("--read requires a 4-character fourcc"@)
        } else if encode_utf8(args[i + 1]).len() != 4 {
            Err(
                "--read fourcc must be exactly 4 bytes, got "@ + decimal(
                    encode_utf8(args[i + 1]).len(),
                ),
            )
        } else {
            asked_mode(args, i + 2, Ask::Read(args[i + 1]))
        }
    } else if args[i] == "--write"@ {
        if mode !is Default {
            Err("--write is mutually exclusive with other modes"@)
        } else if i + 1 >= args.len() {
            Err("--write requires <fourcc> <type:value>"@)
        } else if encode_utf8(args[i + 1]).len() != 4 {
            Err(
                "--write fourcc must be 4 bytes, got "@ + decimal(encode_utf8(args[i + 1]).len()),
            )
        } else if i + 2 >= args.len() {
            Err("--write requires a type:value argument"@)
        } else {
            asked_mode(
                args,
                i + 3,
                Ask::DebugWrite { fourcc: args[i + 1], value: args[i + 2] },
            )
        }
    } else if args[i] == "--debug-open"@ {
        if mode !is Default {
            Err("--debug-open is mutually exclusive"@)
        } else {
            asked_mode(args, i + 1, Ask::DebugOpen)
        }
    } else if args[i] == "--json"@ {
        if mode !is Default {
            Err("--json is mutually exclusive"@)
        } else {
            asked_mode(args, i + 1, Ask::Json)
        }
    } else {
        Err("unknown flag: "@ + args[i])
    }
}

/// A parsed mode is the one that was asked for.
pub open spec fn mode_agrees(r: Result<Mode, String>, with: Result<Ask, Seq<char>>) -> bool {
    match r {
        Ok(m) => with == Ok::<Ask, Seq<char>>(m@),
        Err(s) => with == Err::<Ask, Seq<char>>(s@),
    }
}

fn byte_count(s: &str) -> (n: usize)
    ensures
        n == encode_utf8(s@).len(),
{
    let b: &[u8] = s.as_bytes();
    b.len()
}

/// Reads the arguments.
pub fn parse_args(args: &Vec<String>) -> (r: Result<Mode, String>)
    ensures
        mode_agrees(r, asked_mode(texts(args@), 0, Ask::Default)),
{
    let ghost words = texts(args@);
    let mut mode: Mode = Mode::Default;
    let mut i: usize = 0;
    let len: usize = args.len();
    while i < len
        invariant
            i <= len,
            len == args@.len(),
            words == texts(args@),
            asked_mode(words, 0, Ask::Default) == asked_mode(words, i as int, mode@),
        decreases len - i,
    {
        let arg: &str = args[i].as_str();
        assert(words[i as int] == arg@);
        let free: bool = match mode {
            Mode::Default => true,
            _ => false,
        };
        if same_text(arg, "--all") {
            if !free {
                return Err("--all is mutually exclusive with other modes".to_owned());
            }
            mode = Mode::AllFanKeys;
        } else if same_text(arg, "--read") {
            if !free {
                return Err("--read is mutually exclusive with other modes".to_owned());
            }
            if i + 1 >= len {
                return Err("--read requires a 4-character fourcc".to_owned());
            }
            i = i + 1;
            let v: &str = args[i].as_str();
            assert(words[i as int] == v@);
            let n: usize = byte_count(v);
            if n != 4 {
                let mut s: String = "--read fourcc must be exactly 4 bytes, got ".to_owned();
                s.append(decimal_text(n as u64).as_str());
                return Err(s);
            }
            mode = Mode::Read(v.to_owned());
        } else if same_text(arg, "--write") {
            if !free {
                return Err("--write is mutually exclusive with other modes".to_owned());
            }
            if i + 1 >= len {
                return Err("--write requires <fourcc> <type:value>".to_owned());
            }
            i = i + 1;
            let v: &str = args[i].as_str();
            assert(words[i as int] == v@);
            let n: usize = byte_count(v);
            if n != 4 {
                let mut s: String = "--write fourcc must be 4 bytes, got ".to_owned();
                s.append(decimal_text(n as u64).as_str());
                return Err(s);
            }
            if i + 1 >= len {
                return Err("--write requires a type:value argument".to_owned());
            }
            i = i + 1;
            let value: &str = args[i].as_str();
            assert(words[i as int] == value@);
            mode = Mode::DebugWrite { fourcc: v.to_owned(), value: value.to_owned() };
        } else if same_text(arg, "--debug-open") {
            if !free {
                return Err("--debug-open is mutually exclusive".to_owned());
            }
            mode = Mode::DebugOpen;
        } else if same_text(arg, "--json") {
            if !free {
                return Err("--json is mutually exclusive".to_owned());
            }
            mode = Mode::Json;
        } else {
            let mut s: String = "unknown flag: ".to_owned();
            s.append(arg);
            return Err(s);
        }
        i = i + 1;
    }
    Ok(mode)
}

/// What is said of arguments that cannot be used.
pub open spec fn usage_lines(why: Seq<char>) -> Seq<Said> {
    seq![
        err(plain("fand keys: "@) + plain(why)),
        err(plain("usage: fand keys [--debug-open | --json | --all]"@)),
    ]
}

/// What is said of arguments that cannot be used.
pub fn usage(why: &str) -> (r: Outcome)
    ensures
        r@ == (64u8, usage_lines(why@)),
{
    let mut lines: Vec<Line> = silent();
    let mut m: Vec<Glyph> = start("fand keys: ");
    put_text(&mut m, why);
    warn(&mut lines, m);
    warn_text(&mut lines, "usage: fand keys [--debug-open | --json | --all]");
    assert(said(lines@) =~= usage_lines(why@));
    Outcome { code: 64, lines }
}

/// A byte of a key in a catalogue: itself when it is visible ASCII, else `?`.
pub open spec fn visible(b: nat) -> char {
    if 33 <= b <= 126 {
        b as char
    } else {
        '?'
    }
}

/// A key in a catalogue.
pub open spec fn key_text(fourcc: u32) -> Seq<char> {
    seq![
        visible((fourcc / 0x100_0000) as nat),
        visible((fourcc / 0x1_0000 % 0x100) as nat),
        visible((fourcc / 0x100 % 0x100) as nat),
        visible((fourcc % 0x100) as nat),
    ]
}

fn visible_char(b: u8) -> (c: char)
    ensures
        c == visible(b as nat),
{
    if 33 <= b && b <= 126 {
        b as char
    } else {
        '?'
    }
}

/// A key in a catalogue.
pub fn fourcc_to_string(fourcc: u32) -> (r: String)
    ensures
        r@ == key_text(fourcc),
{
    let mut s: String = String::new();
    s.push(visible_char((fourcc / 0x100_0000) as u8));
    s.push(visible_char((fourcc / 0x1_0000 % 0x100) as u8));
    s.push(visible_char((fourcc / 0x100 % 0x100) as u8));
    s.push(visible_char((fourcc % 0x100) as u8));
    assert(s@ =~= key_text(fourcc));
    s
}

/// What stands for the attributes of a key.
pub fn format_attributes_placeholder() -> (r: &'static str)
    ensures
        r@ == "(unknown)"@,
{
    "(unknown)"
}

/// A character in a JSON string.
pub open spec fn escaped(c: char) -> Seq<char> {
    if c == '"' {
        seq!['\\', '"']
    } else if c == '\\' {
        seq!['\\', '\\']
    } else if c == '\n' {
        seq!['\\', 'n']
    } else if c == '\r' {
        seq!['\\', 'r']
    } else if c == '\t' {
        seq!['\\', 't']
    } else if (c as u32) < 0x20 {
        seq!['\\', 'u'] + digits(c as nat, 16, 4)
    } else {
        seq![c]
    }
}

/// A text in a JSON string.
pub open spec fn json_text(s: Seq<char>) -> Seq<char>
    decreases s.len(),
{
    if s.len() == 0 {
        Seq::empty()
    } else {
        json_text(s.drop_last()) + escaped(s.last())
    }
}

fn push_escaped(s: &mut String, c: char)
    ensures
        final(s)@ == old(s)@ + escaped(c),
{
    if c == '"' {
        s.push('\\');
        s.push('"');
    } else if c == '\\' {
        s.push('\\');
        s.push('\\');
    } else if c == '\n' {
        s.push('\\');
        s.push('n');
    } else if c == '\r' {
        s.push('\\');
        s.push('r');
    } else if c == '\t' {
        s.push('\\');
        s.push('t');
    } else if (c as u32) < 0x20 {
        s.push('\\');
        s.push('u');
        push_digits(s, c as u64, 16, 4);
    } else {
        s.push(c);
    }
    assert(s@ =~= old(s)@ + escaped(c));
}

/// A text in a JSON string.
pub fn json_escape(s: &str) -> (r: String)
    ensures
        r@ == json_text(s@),
{
    let cs: Vec<char> = chars_of(s);
    let mut r: String = String::new();
    let mut i: usize = 0;
    assert(s@.take(0) =~= Seq::<char>::empty());
    while i < cs.len()
        invariant
            i <= cs@.len(),
            cs@ == s@,
            r@ == json_text(s@.take(i as int)),
        decreases cs@.len() - i,
    {
        push_escaped(&mut r, cs[i]);
        assert(s@.take(i + 1).drop_last() =~= s@.take(i as int));
        i = i + 1;
    }
    assert(s@.take(s@.len() as int) =~= s@);
    r
}

/// What the machine says of itself.
#[derive(Debug, Clone, PartialEq, Eq)]
pub struct Host {
    /// The version of this program.
    pub version: String,
    pub macos: String,
    pub model: String,
    pub arch: String,
}

fn trim(s: &str) -> (r: String)
    ensures
        r@ == trimmed(s@),
{
    let cs: Vec<char> = chars_of(s);
    text_of(&trim_chars(&cs))
}

fn put_json(m: &mut Vec<Glyph>, s: &str)
    ensures
        shown(final(m)@) == shown(old(m)@) + plain(json_text(trimmed(s@))),
{
    put_text(m, json_escape(trim(s).as_str()).as_str());
}

fn put_key(m: &mut Vec<Glyph>, fourcc: u32)
    ensures
        shown(final(m)@) == shown(old(m)@) + plain(key_text(fourcc)),
{
    put_text(m, fourcc_to_string(fourcc).as_str());
}

/// The head of the catalogue.
pub open spec fn header(host: Host) -> Seq<Said> {
    seq![
        out(plain("fand "@) + plain(host.version@) + plain(" — SMC fan catalog"@)),
        out(
            plain("  host: "@) + plain(trimmed(host.model@)) + plain(" ("@) + plain(
                trimmed(host.arch@),
            ) + plain(") macOS "@) + plain(trimmed(host.macos@)),
        ),
    ]
}

/// The head of the catalogue.
pub fn print_header(host: &Host) -> (lines: Vec<Line>)
    ensures
        said(lines@) == header(*host),
{
    let mut lines: Vec<Line> = silent();
    let mut m: Vec<Glyph> = start("fand ");
    put_text(&mut m, host.version.as_str());
    put_text(&mut m, " — SMC fan catalog");
    say(&mut lines, m);
    let mut h: Vec<Glyph> = start("  host: ");
    put_text(&mut h, trim(host.model.as_str()).as_str());
    put_text(&mut h, " (");
    put_text(&mut h, trim(host.arch.as_str()).as_str());
    put_text(&mut h, ") macOS ");
    put_text(&mut h, trim(host.macos.as_str()).as_str());
    say(&mut lines, h);
    assert(said(lines@) =~= header(*host));
    lines
}

/// The safe speed of a fan in the catalogue.
pub open spec fn safe_cell(safe: Option<Flt>) -> Seq<Mark> {
    match safe {
        Some(v) => fixed(v, 8, 1),
        None => plain(right("—"@, 8)),
    }
}

/// A fan in the catalogue.
pub open spec fn fan_row(f: Fan) -> Seq<Mark> {
    plain("  "@) + plain(left(decimal(f.index as nat), 5)) + plain(" "@) + fixed(f.min_rpm, 8, 1)
        + plain(" "@) + fixed(f.max_rpm, 8, 1) + plain(" "@) + safe_cell(f.safe_rpm) + plain(" "@)
        + fixed(f.actual_rpm, 8, 1) + plain("  "@) + plain(key_text(f.mode_key))
}

/// The titles of the catalogue.
pub open spec fn catalog_titles() -> Seq<Mark> {
    plain("  "@) + plain(left("idx"@, 5)) + plain(" "@) + plain(right("min_rpm"@, 8)) + plain(" "@)
        + plain(right("max_rpm"@, 8)) + plain(" "@) + plain(right("safe"@, 8)) + plain(" "@)
        + plain(right("actual"@, 8)) + plain("  mode_key"@)
}

/// The fans in the catalogue, below its titles.
pub open spec fn fan_rows(fans: Seq<Fan>) -> Seq<Said>
    decreases fans.len(),
{
    if fans.len() == 0 {
        seq![out(catalog_titles())]
    } else {
        fan_rows(fans.drop_last()).push(out(fan_row(fans.last())))
    }
}

/// The catalogue.
pub open spec fn catalog(fans: Seq<Fan>) -> Seq<Said> {
    if fans.len() == 0 {
        seq![out(plain("  no fans reported (fanless chassis)"@))]
    } else {
        fan_rows(fans)
    }
}

fn fan_message(f: &Fan) -> (m: Vec<Glyph>)
    ensures
        shown(m@) == fan_row(*f),
{
    let mut m: Vec<Glyph> = start("  ");
    put_left(&mut m, decimal_text(f.index as u64).as_str(), 5);
    put_text(&mut m, " ");
    put_fixed(&mut m, f.min_rpm, 8, 1);
    put_text(&mut m, " ");
    put_fixed(&mut m, f.max_rpm, 8, 1);
    put_text(&mut m, " ");
    match f.safe_rpm {
        Some(v) => put_fixed(&mut m, v, 8, 1),
        None => put_right(&mut m, "—", 8),
    }
    put_text(&mut m, " ");
    put_fixed(&mut m, f.actual_rpm, 8, 1);
    put_text(&mut m, "  ");
    put_key(&mut m, f.mode_key);
    m
}

/// The catalogue.
pub fn print_catalog(fans: &[Fan]) -> (lines: Vec<Line>)
    ensures
        said(lines@) == catalog(fans@),
{
    let mut lines: Vec<Line> = silent();
    if fans.len() == 0 {
        say_text(&mut lines, "  no fans reported (fanless chassis)");
        assert(said(lines@) =~= catalog(fans@));
        return lines;
    }
    let mut m: Vec<Glyph> = start("  ");
    put_left(&mut m, "idx", 5);
    put_text(&mut m, " ");
    put_right(&mut m, "min_rpm", 8);
    put_text(&mut m, " ");
    put_right(&mut m, "max_rpm", 8);
    put_text(&mut m, " ");
    put_right(&mut m, "safe", 8);
    put_text(&mut m, " ");
    put_right(&mut m, "actual", 8);
    put_text(&mut m, "  mode_key");
    say(&mut lines, m);
    let mut i: usize = 0;
    assert(fans@.take(0) =~= Seq::<Fan>::empty());
    assert(said(lines@) =~= fan_rows(fans@.take(0)));
    while i < fans.len()
        invariant
            i <= fans@.len(),
            said(lines@) == fan_rows(fans@.take(i as int)),
        decreases fans@.len() - i,
    {
        say(&mut lines, fan_message(&fans[i]));
        assert(fans@.take(i + 1).drop_last() =~= fans@.take(i as int));
        i = i + 1;
    }
    assert(fans@.take(fans@.len() as int) =~= fans@);
    lines
}

/// A return code of the kernel, as `0xE00002C1`.
pub open spec fn code_text(kr: KernReturnT) -> Seq<char> {
    "0x"@ + hex_upper(unsigned(kr), 1)
}

fn put_code(m: &mut Vec<Glyph>, kr: KernReturnT)
    ensures
        shown(final(m)@) == shown(old(m)@) + plain(code_text(kr)),
{
    let n: u64 = if kr < 0 {
        (kr as i64 + 0x1_0000_0000) as u64
    } else {
        kr as u64
    };
    let mut s: String = "0x".to_owned();
    s.append(hex_text(n, 1).as_str());
    put_text(m, s.as_str());
}

/// What a failed open comes to.
pub open spec fn open_failure(e: SmcError) -> (u8, Seq<Said>) {
    match e {
        SmcError::OpenFailed(kr) => (
            2,
            seq![
                err(plain("fand keys: IOServiceOpen failed: "@) + plain(code_text(kr))),
                err(plain("  hint: run as root (sudo fand keys)"@)),
            ],
        ),
        _ => (1, seq![err(plain("fand keys: "@) + plain(e.text()))]),
    }
}

/// What a failed open comes to.
pub fn open_with_diagnostic(e: &SmcError) -> (r: Outcome)
    ensures
        r@ == open_failure(*e),
{
    let mut lines: Vec<Line> = silent();
    if let SmcError::OpenFailed(kr) = e {
        let mut m: Vec<Glyph> = start("fand keys: IOServiceOpen failed: ");
        put_code(&mut m, *kr);
        warn(&mut lines, m);
        warn_text(&mut lines, "  hint: run as root (sudo fand keys)");
        assert(said(lines@) =~= open_failure(*e).1);
        return Outcome { code: 2, lines };
    }
    let mut m: Vec<Glyph> = start("fand keys: ");
    put_error(&mut m, e);
    warn(&mut lines, m);
    assert(said(lines@) =~= open_failure(*e).1);
    Outcome { code: 1, lines }
}

fn failure(before: &str, e: &SmcError, code: u8) -> (r: Outcome)
    ensures
        r@ == (code, seq![err(plain(before@) + plain(e.text()))]),
{
    let mut lines: Vec<Line> = silent();
    let mut m: Vec<Glyph> = start(before);
    put_error(&mut m, e);
    warn(&mut lines, m);
    assert(said(lines@) =~= seq![err(plain(before@) + plain(e.text()))]);
    Outcome { code, lines }
}

/// The catalogue of fans: open, try the write path with a harmless write, find
/// the fans, try the write path again, close.
pub open spec fn cataloguing(host: Host, d: Dialog) -> ((u8, Seq<Said>), Dialog) {
    let (opened, d1) = opening(d);
    match opened {
        Err(e) => (open_failure(e), d1),
        Ok(c1) => {
            let (_, c2, d2) = writing_u8(c1, Target::Unlock, 0, d1);
            let (fans, c3, d3) = enumerating(c2, d2);
            match fans {
                Err(e) => (
                    (1, seq![err(plain("fand keys: fan enumeration failed: "@) + plain(e.text()))]),
                    closing(c3, d3).1,
                ),
                Ok(f) => {
                    let (_, c4, d4) = writing_u8(c3, Target::Unlock, 0, d3);
                    ((0, header(host) + catalog(f)), closing(c4, d4).1)
                },
            }
        },
    }
}

/// The catalogue of fans.
pub fn run_default(host: &Host, io: &mut Exchange) -> (r: Outcome)
    ensures
        (r@, final(io)@) == cataloguing(*host, old(io)@),
{
    let mut conn: SmcConnection = match SmcConnection::open(io) {
        Ok(c) => c,
        Err(e) => {
            return open_with_diagnostic(&e);
        },
    };
    let _ = conn.probe_write_ftst_zero(io);
    let fans: Vec<Fan> = match enumerate_fans(&mut conn, io) {
        Ok(f) => f,
        Err(e) => {
            conn.close(io);
            return failure("fand keys: fan enumeration failed: ", &e, 1);
        },
    };
    let mut lines: Vec<Line> = print_header(host);
    say_all(&mut lines, print_catalog(fans.as_slice()));
    let _ = conn.probe_write_ftst_zero(io);
    conn.close(io);
    Outcome { code: 0, lines }
}

/// Opening and closing a connection.
pub open spec fn trying_to_open(d: Dialog) -> ((u8, Seq<Said>), Dialog) {
    let (opened, d1) = opening(d);
    match opened {
        Ok(c) => (
            (0, seq![out(plain("fand keys --debug-open: IOServiceOpen success"@))]),
            closing(c, d1).1,
        ),
        Err(SmcError::OpenFailed(kr)) => (
            (
                1,
                seq![
                    err(
                        plain("fand keys --debug-open: IOServiceOpen failed: "@) + plain(
                            code_text(kr),
                        ),
                    ),
                ],
            ),
            d1,
        ),
        Err(e) => ((2, seq![err(plain("fand keys --debug-open: "@) + plain(e.text()))]), d1),
    }
}

/// Opens and closes a connection.
pub fn run_debug_open(io: &mut Exchange) -> (r: Outcome)
    ensures
        (r@, final(io)@) == trying_to_open(old(io)@),
{
    let mut lines: Vec<Line> = silent();
    match SmcConnection::open(io) {
        Ok(c) => {
            let mut conn: SmcConnection = c;
            say_text(&mut lines, "fand keys --debug-open: IOServiceOpen success");
            conn.close(io);
            assert(said(lines@) =~= trying_to_open(old(io)@).0.1);
            Outcome { code: 0, lines }
        },
        Err(SmcError::OpenFailed(kr)) => {
            let mut m: Vec<Glyph> = start("fand keys --debug-open: IOServiceOpen failed: ");
            put_code(&mut m, kr);
            warn(&mut lines, m);
            assert(said(lines@) =~= trying_to_open(old(io)@).0.1);
            Outcome { code: 1, lines }
        },
        Err(e) => failure("fand keys --debug-open: ", &e, 2),
    }
}

/// The safe speed of a fan, for machines.
pub open spec fn json_safe(safe: Option<Flt>) -> Seq<Mark> {
    match safe {
        Some(v) => fixed(v, 0, 1),
        None => plain("null"@),
    }
}

/// A fan, for machines.
pub open spec fn json_fan(f: Fan) -> Seq<Mark> {
    plain("{\"index\":"@) + plain(decimal(f.index as nat)) + plain(",\"min_rpm\":"@) + fixed(
        f.min_rpm,
        0,
        1,
    ) + plain(",\"max_rpm\":"@) + fixed(f.max_rpm, 0, 1) + plain(",\"safe_rpm\":"@) + json_safe(
        f.safe_rpm,
    ) + plain(",\"actual_rpm\":"@) + fixed(f.actual_rpm, 0, 1) + plain(",\"mode_key\":\""@) + plain(
        key_text(f.mode_key),
    ) + plain("\"}"@)
}

/// The catalogue up to its fans, for machines.
pub open spec fn json_head(host: Host) -> Seq<Mark> {
    plain("{\"schema_version\":1,\"fand_version\":\""@) + plain(host.version@) + plain(
        "\",\"macos\":\""@,
    ) + plain(json_text(trimmed(host.macos@))) + plain("\",\"model\":\""@) + plain(
        json_text(trimmed(host.model@)),
    ) + plain("\",\"arch\":\""@) + plain(json_text(trimmed(host.arch@))) + plain(
        "\",\"fans\":["@,
    )
}

/// The catalogue with some fans, for machines.
pub open spec fn json_fans(host: Host, fans: Seq<Fan>) -> Seq<Mark>
    decreases fans.len(),
{
    if fans.len() == 0 {
        json_head(host)
    } else if fans.len() == 1 {
        json_fans(host, fans.drop_last()) + json_fan(fans.last())
    } else {
        json_fans(host, fans.drop_last()) + plain(","@) + json_fan(fans.last())
    }
}

fn put_json_fan(m: &mut Vec<Glyph>, f: &Fan)
    ensures
        shown(final(m)@) == shown(old(m)@) + json_fan(*f),
{
    let ghost before = shown(m@);
    put_text(m, "{\"index\":");
    put_number(m, f.index as u64);
    put_text(m, ",\"min_rpm\":");
    put_fixed(m, f.min_rpm, 0, 1);
    put_text(m, ",\"max_rpm\":");
    put_fixed(m, f.max_rpm, 0, 1);
    put_text(m, ",\"safe_rpm\":");
    match f.safe_rpm {
        Some(v) => put_fixed(m, v, 0, 1),
        None => put_text(m, "null"),
    }
    put_text(m, ",\"actual_rpm\":");
    put_fixed(m, f.actual_rpm, 0, 1);
    put_text(m, ",\"mode_key\":\"");
    put_key(m, f.mode_key);
    put_text(m, "\"}");
    assert(shown(m@) =~= before + json_fan(*f));
}

/// The catalogue of fans, for machines.
pub fn print_json(host: &Host, fans: &[Fan]) -> (m: Vec<Glyph>)
    ensures
        shown(m@) == json_fans(*host, fans@) + plain("]}"@),
{
    let mut m: Vec<Glyph> = start("{\"schema_version\":1,\"fand_version\":\"");
    put_text(&mut m, host.version.as_str());
    put_text(&mut m, "\",\"macos\":\"");
    put_json(&mut m, host.macos.as_str());
    put_text(&mut m, "\",\"model\":\"");
    put_json(&mut m, host.model.as_str());
    put_text(&mut m, "\",\"arch\":\"");
    put_json(&mut m, host.arch.as_str());
    put_text(&mut m, "\",\"fans\":[");
    let mut i: usize = 0;
    assert(fans@.take(0) =~= Seq::<Fan>::empty());
    while i < fans.len()
        invariant
            i <= fans@.len(),
            shown(m@) == json_fans(*host, fans@.take(i as int)),
        decreases fans@.len() - i,
    {
        if i > 0 {
            put_text(&mut m, ",");
        }
        put_json_fan(&mut m, &fans[i]);
        assert(fans@.take(i + 1).drop_last() =~= fans@.take(i as int));
        i = i + 1;
    }
    assert(fans@.take(fans@.len() as int) =~= fans@);
    put_text(&mut m, "]}");
    m
}

/// The catalogue of fans, for machines: open, find the fans, close.
pub open spec fn cataloguing_json(host: Host, d: Dialog) -> ((u8, Seq<Said>), Dialog) {
    let (opened, d1) = opening(d);
    match opened {
        Err(e) => (open_failure(e), d1),
        Ok(c1) => {
            let (fans, c2, d2) = enumerating(c1, d1);
            match fans {
                Err(e) => (
                    (1, seq![err(plain("fand keys: fan enumeration failed: "@) + plain(e.text()))]),
                    closing(c2, d2).1,
                ),
                Ok(f) => (
                    (0, seq![out(json_fans(host, f) + plain("]}"@))]),
                    closing(c2, d2).1,
                ),
            }
        },
    }
}

/// The catalogue of fans, for machines.
pub fn run_json(host: &Host, io: &mut Exchange) -> (r: Outcome)
    ensures
        (r@, final(io)@) == cataloguing_json(*host, old(io)@),
{
    let mut conn: SmcConnection = match SmcConnection::open(io) {
        Ok(c) => c,
        Err(e) => {
            return open_with_diagnostic(&e);
        },
    };
    let fans: Vec<Fan> = match enumerate_fans(&mut conn, io) {
        Ok(f) => f,
        Err(e) => {
            conn.close(io);
            return failure("fand keys: fan enumeration failed: ", &e, 1);
        },
    };
    let mut lines: Vec<Line> = silent();
    say(&mut lines, print_json(host, fans.as_slice()));
    conn.close(io);
    assert(said(lines@) =~= cataloguing_json(*host, old(io)@).0.1);
    Outcome { code: 0, lines }
}

} // verus!
