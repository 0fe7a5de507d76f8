//! The command `keys --write`: a value in a notation of its own, written to any
//! key, with a look at what became of it.

use super::keys::{fourcc_to_string, key_text, open_failure, open_with_diagnostic};
use super::keyspace::{key_of, valid_bytes};
use super::say::{
    bytes_text, err, out, put_error, said, say, say_text, silent, start, warn, warn_text, Line,
    Outcome, Said,
};
use crate::flt::Flt;
use crate::glyph::{plain, put_number, put_text, shown, Glyph};
use crate::smc::connection::{
    closing, opening, reading_info, reading_key, writing, Conn, KeyInfo, SmcConnection,
};
use crate::smc::error::SmcError;
use crate::smc::exchange::{Dialog, Exchange};
use crate::smc::keys::fourcc_from;
use crate::smc::types::{bytes_of, to_le};
use crate::text::{chars_of, decimal, hex_list, is_digit, part, same_text, text_of};
use vstd::prelude::*;
use vstd::string::StringExecFns;
use vstd::utf8::encode_utf8;

verus! {

/// Why a text is no whole number.
#[derive(Debug, Clone, Copy, PartialEq, Eq, Structural)]
pub enum IntFault {
    Empty,
    InvalidDigit,
    TooLarge,
}

impl IntFault {
    pub open spec fn words(self) -> Seq<char> {
        match self {
            IntFault::Empty => "cannot parse integer from empty string"@,
            IntFault::InvalidDigit => "invalid digit found in string"@,
            IntFault::TooLarge => "number too large to fit in target type"@,
        }
    }

    pub fn message(self) -> (r: &'static str)
        ensures
            r@ == self.words(),
    {
        match self {
            IntFault::Empty => "cannot parse integer from empty string",
            IntFault::InvalidDigit => "invalid digit found in string",
            IntFault::TooLarge => "number too large to fit in target type",
        }
    }
}

/// Digit by digit: the number so far, or the first thing that is wrong.
pub open spec fn scanned(s: Seq<char>, max: nat) -> Result<nat, IntFault>
    decreases s.len(),
{
    if s.len() == 0 {
        Ok(0)
    } else {
        match scanned(s.drop_last(), max) {
            Err(e) => Err(e),
            Ok(n) => if !is_digit(s.last()) {
                Err(IntFault::InvalidDigit)
            } else if n * 10 + (s.last() as nat - 48) > max {
                Err(IntFault::TooLarge)
            } else {
                Ok((n * 10 + (s.last() as nat - 48)) as nat)
            },
        }
    }
}

/// A whole number up to `max`, perhaps with a plus sign.
pub open spec fn unsigned_number(s: Seq<char>, max: nat) -> Result<nat, IntFault> {
    if s.len() == 0 {
        Err(IntFault::Empty)
    } else if s.len() == 1 && !is_digit(s[0]) {
        Err(IntFault::InvalidDigit)
    } else if s[0] == '+' {
        scanned(s.skip(1), max)
    } else {
        scanned(s.skip(0), max)
    }
}

proof fn lemma_scan_stops(s: Seq<char>, i: int, max: nat)
    requires
        0 <= i < s.len(),
        scanned(s.take(i + 1), max) is Err,
    ensures
        scanned(s, max) == scanned(s.take(i + 1), max),
    decreases s.len(),
{
    if i + 1 == s.len() {
        assert(s.take(i + 1) =~= s);
    } else {
        assert(s.drop_last().take(i + 1) =~= s.take(i + 1));
        lemma_scan_stops(s.drop_last(), i, max);
    }
}

/// Parses a whole number up to `max`.
pub fn parse_unsigned(s: &str, max: u64) -> (r: Result<u64, IntFault>)
    ensures
        match r {
            Ok(n) => unsigned_number(s@, max as nat) == Ok::<nat, IntFault>(n as nat),
            Err(e) => unsigned_number(s@, max as nat) == Err::<nat, IntFault>(e),
        },
{
    let cs: Vec<char> = chars_of(s);
    if cs.len() == 0 {
        return Err(IntFault::Empty);
    }
    if cs.len() == 1 && !('0' <= cs[0] && cs[0] <= '9') {
        return Err(IntFault::InvalidDigit);
    }
    let from: usize = if cs[0] == '+' {
        1
    } else {
        0
    };
    let ghost t = s@.skip(from as int);
    let mut n: u64 = 0;
    let mut i: usize = from;
    assert(t.take(0) =~= Seq::<char>::empty());
    while i < cs.len()
        invariant
            from <= i <= cs@.len(),
            cs@ == s@,
            t == s@.skip(from as int),
            n <= max,
            scanned(t.take(i - from), max as nat) == Ok::<nat, IntFault>(n as nat),
            unsigned_number(s@, max as nat) == scanned(t, max as nat),
        decreases cs@.len() - i,
    {
        let c: char = cs[i];
        proof {
            assert(t[i - from] == c);
            let next = t.take(i - from + 1);
            assert(next.drop_last() =~= t.take(i - from));
            assert(next.last() == c);
        }
        if !('0' <= c && c <= '9') {
            proof {
                lemma_scan_stops(t, i - from, max as nat);
            }
            return Err(IntFault::InvalidDigit);
        }
        let sum: u128 = n as u128 * 10 + (c as u32 - 48) as u128;
        if sum > max as u128 {
            proof {
                lemma_scan_stops(t, i - from, max as nat);
            }
            return Err(IntFault::TooLarge);
        }
        n = sum as u64;
        i = i + 1;
    }
    assert(t.take(t.len() as int) =~= t);
    Ok(n)
}

/// Where the first colon stands, or the end.
pub open spec fn colon(s: Seq<char>, i: int) -> int
    decreases s.len() - i,
{
    if i >= s.len() || s[i] == ':' {
        i
    } else {
        colon(s, i + 1)
    }
}

/// Splits at the first colon.
pub fn split_value(s: &str) -> (r: Option<(String, String)>)
    ensures
        match r {
            Some((a, b)) => {
                &&& colon(s@, 0) < s@.len()
                &&& a@ == s@.take(colon(s@, 0))
                &&& b@ == s@.skip(colon(s@, 0) + 1)
            },
            None => colon(s@, 0) >= s@.len(),
        },
{
    let cs: Vec<char> = chars_of(s);
    let mut i: usize = 0;
    while i < cs.len() && cs[i] != ':'
        invariant
            i <= cs@.len(),
            cs@ == s@,
            colon(s@, 0) == colon(s@, i as int),
        decreases cs@.len() - i,
    {
        i = i + 1;
    }
    if i >= cs.len() {
        return None;
    }
    let a: Vec<char> = part(&cs, 0, i);
    let b: Vec<char> = part(&cs, i + 1, cs.len());
    assert(cs@.subrange(0, i as int) =~= s@.take(i as int));
    assert(cs@.subrange(i + 1, cs@.len() as int) =~= s@.skip(i + 1));
    Some((text_of(&a), text_of(&b)))
}

/// White space of ASCII.
pub open spec fn ascii_space(c: char) -> bool {
    c == ' ' || c == '\t' || c == '\n' || c == '\r' || c == '\x0C'
}

/// A text without white space of ASCII.
pub open spec fn cleaned(s: Seq<char>) -> Seq<char>
    decreases s.len(),
{
    if s.len() == 0 {
        Seq::empty()
    } else if ascii_space(s.last()) {
        cleaned(s.drop_last())
    } else {
        cleaned(s.drop_last()).push(s.last())
    }
}

/// The value of a hexadecimal digit.
pub open spec fn hex_digit(c: char) -> Option<u8> {
    if '0' <= c <= '9' {
        Some((c as int - 48) as u8)
    } else if 'a' <= c <= 'f' {
        Some((c as int - 87) as u8)
    } else if 'A' <= c <= 'F' {
        Some((c as int - 55) as u8)
    } else {
        None
    }
}

/// The value of one or two hexadecimal digits; the first of two may be a plus
/// sign.
pub open spec fn hex_pair(s: Seq<char>) -> Option<u8> {
    if s.len() == 1 {
        hex_digit(s[0])
    } else if s[0] == '+' {
        hex_digit(s[1])
    } else if hex_digit(s[0]) is Some && hex_digit(s[1]) is Some {
        Some((hex_digit(s[0])->0 * 16 + hex_digit(s[1])->0) as u8)
    } else {
        None
    }
}

/// The bytes that hexadecimal digits spell from the `i`-th on, two digits each.
pub open spec fn hex_bytes(s: Seq<char>, i: int) -> Option<Seq<u8>>
    decreases s.len() - i,
{
    if i >= s.len() {
        Some(Seq::empty())
    } else {
        let end = if i + 2 <= s.len() {
            i + 2
        } else {
            s.len() as int
        };
        match (hex_pair(s.subrange(i, end)), hex_bytes(s, end)) {
            (Some(b), Some(rest)) => Some(seq![b] + rest),
            _ => None,
        }
    }
}

fn is_ascii_space(c: char) -> (r: bool)
    ensures
        r == ascii_space(c),
{
    c == ' ' || c == '\t' || c == '\n' || c == '\r' || c == '\x0C'
}

fn clean(s: &str) -> (r: Vec<char>)
    ensures
        r@ == cleaned(s@),
{
    let cs: Vec<char> = chars_of(s);
    let mut r: Vec<char> = Vec::new();
    let mut i: usize = 0;
    assert(s@.take(0) =~= Seq::<char>::empty());
    while i < cs.len()
        invariant
            i <= cs@.len(),
            cs@ == s@,
            r@ == cleaned(s@.take(i as int)),
        decreases cs@.len() - i,
    {
        assert(s@.take(i + 1).drop_last() =~= s@.take(i as int));
        if !is_ascii_space(cs[i]) {
            r.push(cs[i]);
        }
        i = i + 1;
    }
    assert(s@.take(s@.len() as int) =~= s@);
    r
}

fn parse_hex_digit(c: char) -> (r: Option<u8>)
    ensures
        r == hex_digit(c),
        r is Some ==> r->0 < 16,
{
    if '0' <= c && c <= '9' {
        Some((c as u32 - 48) as u8)
    } else if 'a' <= c && c <= 'f' {
        Some((c as u32 - 87) as u8)
    } else if 'A' <= c && c <= 'F' {
        Some((c as u32 - 55) as u8)
    } else {
        None
    }
}

fn parse_hex_pair(cs: &Vec<char>, i: usize) -> (r: Option<u8>)
    requires
        i < cs@.len(),
    ensures
        r == hex_pair(
            cs@.subrange(
                i as int,
                if i + 2 <= cs@.len() {
                    i + 2
                } else {
                    cs@.len() as int
                },
            ),
        ),
{
    if cs.len() - i == 1 {
        return parse_hex_digit(cs[i]);
    }
    if cs[i] == '+' {
        return parse_hex_digit(cs[i + 1]);
    }
    match (parse_hex_digit(cs[i]), parse_hex_digit(cs[i + 1])) {
        (Some(a), Some(b)) => Some(a * 16 + b),
        _ => None,
    }
}

fn parse_hex(cs: &Vec<char>) -> (r: Option<Vec<u8>>)
    ensures
        match r {
            Some(v) => hex_bytes(cs@, 0) == Some(v@),
            None => hex_bytes(cs@, 0) is None,
        },
{
    let mut out_bytes: Vec<u8> = Vec::new();
    let mut i: usize = 0;
    let len: usize = cs.len();
    while i < len
        invariant
            i <= len,
            len == cs@.len(),
            i < len ==> i % 2 == 0,
            match hex_bytes(cs@, 0) {
                Some(all) => hex_bytes(cs@, i as int) is Some && all == out_bytes@ + hex_bytes(
                    cs@,
                    i as int,
                )->0,
                None => hex_bytes(cs@, i as int) is None,
            },
        decreases len - i,
    {
        let ghost before = out_bytes@;
        let next: usize = if len - i >= 2 {
            i + 2
        } else {
            len
        };
        match parse_hex_pair(cs, i) {
            Some(b) => {
                out_bytes.push(b);
                proof {
                    if hex_bytes(cs@, i as int) is Some {
                        let rest = hex_bytes(cs@, next as int)->0;
                        assert(before + (seq![b] + rest) =~= out_bytes@ + rest);
                    }
                }
            },
            None => {
                return None;
            },
        }
        i = next;
    }
    proof {
        if hex_bytes(cs@, 0) is Some {
            assert(out_bytes@ + Seq::<u8>::empty() =~= out_bytes@);
        }
    }
    Some(out_bytes)
}

/// The bytes that a value in the notation `type:value` stands for, or why it
/// stands for none. `float` is the value behind the colon as a number.
pub open spec fn payload(value: Seq<char>, float: Result<Flt, Seq<char>>) -> Result<
    Seq<u8>,
    Seq<char>,
> {
    let k = colon(value, 0);
    let kind = value.take(k);
    let raw = value.skip(k + 1);
    if k >= value.len() {
        Err("value must be type:value (e.g. u8:1, f32:0.5)"@)
    } else if kind == "u8"@ {
        match unsigned_number(raw, 255) {
            Ok(n) => Ok(seq![n as u8]),
            Err(e) => Err("u8 parse failed: "@ + e.words()),
        }
    } else if kind == "u32"@ {
        match unsigned_number(raw, 0xFFFF_FFFF) {
            Ok(n) => Ok(
                seq![
                    (n / 0x100_0000) as u8,
                    (n / 0x1_0000 % 0x100) as u8,
                    (n / 0x100 % 0x100) as u8,
                    (n % 0x100) as u8,
                ],
            ),
            Err(e) => Err("u32 parse failed: "@ + e.words()),
        }
    } else if kind == "f32"@ {
        match float {
            Ok(v) => Ok(bytes_of(v.bits)),
            Err(why) => Err("f32 parse failed: "@ + why),
        }
    } else if kind == "hex"@ {
        if encode_utf8(cleaned(raw)).len() % 2 != 0 {
            Err("hex must have even number of chars"@)
        } else {
            match hex_bytes(cleaned(raw), 0) {
                Some(b) => Ok(b),
                None => Err("hex parse failed: "@ + IntFault::InvalidDigit.words()),
            }
        }
    } else {
        Err("unknown type prefix '"@ + kind + "' (use u8|u32|f32|hex)"@)
    }
}

/// The words of an error, as a sequence.
pub open spec fn float_words(float: Result<Flt, String>) -> Result<Flt, Seq<char>> {
    match float {
        Ok(v) => Ok(v),
        Err(s) => Err(s@),
    }
}

fn and(a: &str, b: &str) -> (r: String)
    ensures
        r@ == a@ + b@,
{
    let mut s: String = a.to_owned();
    s.append(b);
    s
}

/// Parses a value in the notation `type:value`.
pub fn parse_payload(value: &str, float: &Result<Flt, String>) -> (r: Result<Vec<u8>, String>)
    ensures
        match r {
            Ok(b) => payload(value@, float_words(*float)) == Ok::<Seq<u8>, Seq<char>>(b@),
            Err(s) => payload(value@, float_words(*float)) == Err::<Seq<u8>, Seq<char>>(s@),
        },
{
    let (kind, raw) = match split_value(value) {
        Some(p) => p,
        None => {
            return Err("value must be type:value (e.g. u8:1, f32:0.5)".to_owned());
        },
    };
    let mut bytes: Vec<u8> = Vec::new();
    if same_text(kind.as_str(), "u8") {
        match parse_unsigned(raw.as_str(), 255) {
            Ok(n) => {
                bytes.push(n as u8);
                assert(bytes@ =~= seq![n as u8]);
                Ok(bytes)
            },
            Err(e) => Err(and("u8 parse failed: ", e.message())),
        }
    } else if same_text(kind.as_str(), "u32") {
        match parse_unsigned(raw.as_str(), 0xFFFF_FFFF) {
            Ok(n) => {
                bytes.push((n / 0x100_0000) as u8);
                bytes.push((n / 0x1_0000 % 0x100) as u8);
                bytes.push((n / 0x100 % 0x100) as u8);
                bytes.push((n % 0x100) as u8);
                assert(bytes@ =~= seq![
                    (n / 0x100_0000) as u8,
                    (n / 0x1_0000 % 0x100) as u8,
                    (n / 0x100 % 0x100) as u8,
                    (n % 0x100) as u8,
                ]);
                Ok(bytes)
            },
            Err(e) => Err(and("u32 parse failed: ", e.message())),
        }
    } else if same_text(kind.as_str(), "f32") {
        match float {
            Ok(v) => {
                let b: [u8; 4] = to_le(v.bits);
                bytes.push(b[0]);
                bytes.push(b[1]);
                bytes.push(b[2]);
                bytes.push(b[3]);
                assert(bytes@ =~= bytes_of(v.bits));
                Ok(bytes)
            },
            Err(why) => Err(and("f32 parse failed: ", why.as_str())),
        }
    } else if same_text(kind.as_str(), "hex") {
        let cs: Vec<char> = clean(raw.as_str());
        let text: String = text_of(&cs);
        let n: usize = text.as_str().as_bytes().len();
        if n % 2 != 0 {
            return Err("hex must have even number of chars".to_owned());
        }
        match parse_hex(&cs) {
            Some(b) => Ok(b),
            None => Err(and("hex parse failed: ", IntFault::InvalidDigit.message())),
        }
    } else {
        let mut s: String = and("unknown type prefix '", kind.as_str());
        s.append("' (use u8|u32|f32|hex)");
        Err(s)
    }
}

/// The beginning of what is said of a write to a key.
pub open spec fn about(name: Seq<char>) -> Seq<crate::glyph::Mark> {
    plain("fand keys --write "@) + plain(name)
}

/// What is said of a readback.
pub open spec fn readback_lines(
    info: KeyInfo,
    payload: Seq<u8>,
    r: Result<(KeyInfo, [u8; 32]), SmcError>,
) -> Seq<Said> {
    match r {
        Ok((_, raw)) => {
            let got = valid_bytes(info, raw@);
            seq![
                out(plain("  read-back: "@) + plain(hex_list(got, true))),
                out(
                    plain(
                        if got == payload {
                            "  STATUS: read-back matches written value (write took effect at register level)"@
                        } else {
                            "  STATUS: read-back DIFFERS from written value (write was overridden or aliased)"@
                        },
                    ),
                ),
            ]
        },
        Err(e) => seq![out(plain("  read-back failed: "@) + plain(e.text()))],
    }
}

/// Writing and looking: what follows once size and type are known.
pub open spec fn writing_value(
    c: Conn,
    name: Seq<char>,
    fourcc: u32,
    info: KeyInfo,
    bytes: Seq<u8>,
    d: Dialog,
) -> ((u8, Seq<Said>), Conn, Dialog) {
    let head = seq![
        out(
            about(name) + plain(": type="@) + plain(key_text(info.data_type)) + plain(" size="@)
                + plain(decimal(info.data_size as nat)) + plain(" payload="@) + plain(
                hex_list(bytes, true),
            ),
        ),
    ];
    if bytes.len() != info.data_size {
        (
            (
                64,
                head.push(
                    err(
                        about(name) + plain(": payload size "@) + plain(decimal(bytes.len()))
                            + plain(" != SMC data_size "@) + plain(decimal(info.data_size as nat)),
                    ),
                ),
            ),
            c,
            d,
        )
    } else {
        let (w, c1, d1) = writing(c, fourcc, bytes, d);
        match w {
            Ok(_) => {
                let (r, c2, d2) = reading_key(c1, fourcc, d1);
                (
                    (
                        0,
                        head.push(
                            out(
                                plain("  write succeeded (kIOReturnSuccess + result byte 0x00)"@),
                            ),
                        ) + readback_lines(info, bytes, r),
                    ),
                    c2,
                    d2,
                )
            },
            Err(e) => (
                (1, head.push(err(about(name) + plain(": write failed: "@) + plain(e.text())))),
                c1,
                d1,
            ),
        }
    }
}

/// Writing any key: take the value apart, open, read size and type, write, read
/// back, close.
pub open spec fn debug_writing(
    name: Seq<char>,
    value: Seq<char>,
    float: Result<Flt, Seq<char>>,
    d: Dialog,
) -> ((u8, Seq<Said>), Dialog) {
    let key = encode_utf8(name);
    if key.len() != 4 {
        ((64, seq![err(plain("fand keys --write: fourcc must be exactly 4 bytes"@))]), d)
    } else {
        match payload(value, float) {
            Err(why) => ((64, seq![err(plain("fand keys --write: "@) + plain(why))]), d),
            Ok(bytes) => {
                let (opened, d1) = opening(d);
                match opened {
                    Err(e) => (open_failure(e), d1),
                    Ok(c1) => {
                        let (info, c2, d2) = reading_info(c1, key_of(key), d1);
                        match info {
                            Err(e) => (
                                (
                                    1,
                                    seq![
                                        err(
                                            about(name) + plain(": read_key_info failed: "@)
                                                + plain(e.text()),
                                        ),
                                    ],
                                ),
                                closing(c2, d2).1,
                            ),
                            Ok(ki) => {
                                let (r, c3, d3) = writing_value(
                                    c2,
                                    name,
                                    key_of(key),
                                    ki,
                                    bytes,
                                    d2,
                                );
                                (r, closing(c3, d3).1)
                            },
                        }
                    },
                }
            },
        }
    }
}

fn about_key(name: &str) -> (m: Vec<Glyph>)
    ensures
        shown(m@) == about(name@),
{
    let mut m: Vec<Glyph> = start("fand keys --write ");
    put_text(&mut m, name);
    m
}

fn same_bytes(a: &[u8], n: usize, b: &Vec<u8>) -> (r: bool)
    requires
        n <= a@.len(),
    ensures
        r == (a@.take(n as int) == b@),
{
    if n != b.len() {
        return false;
    }
    let mut i: usize = 0;
    while i < n
        invariant
            i <= n == b@.len(),
            n <= a@.len(),
            forall|j: int| 0 <= j < i ==> a@[j] == b@[j],
        decreases n - i,
    {
        if a[i] != b[i] {
            assert(a@.take(n as int)[i as int] != b@[i as int]);
            return false;
        }
        i = i + 1;
    }
    assert(a@.take(n as int) =~= b@);
    true
}

fn say_readback(
    lines: &mut Vec<Line>,
    info: KeyInfo,
    payload: &Vec<u8>,
    r: &Result<(KeyInfo, [u8; 32]), SmcError>,
)
    ensures
        said(final(lines)@) == said(old(lines)@) + readback_lines(info, payload@, *r),
{
    match r {
        Ok((_, raw)) => {
            let n: usize = if info.data_size < 32 {
                info.data_size as usize
            } else {
                32
            };
            let mut m: Vec<Glyph> = start("  read-back: ");
            put_text(&mut m, bytes_text(raw.as_slice(), n).as_str());
            say(lines, m);
            if same_bytes(raw.as_slice(), n, payload) {
                say_text(
                    lines,
                    "  STATUS: read-back matches written value (write took effect at register level)",
                );
            } else {
                say_text(
                    lines,
                    "  STATUS: read-back DIFFERS from written value (write was overridden or aliased)",
                );
            }
        },
        Err(e) => {
            let mut m: Vec<Glyph> = start("  read-back failed: ");
            put_error(&mut m, e);
            say(lines, m);
        },
    }
    assert(said(lines@) =~= said(old(lines)@) + readback_lines(info, payload@, *r));
}

fn write_value(
    conn: &mut SmcConnection,
    name: &str,
    fourcc: u32,
    info: KeyInfo,
    bytes: &Vec<u8>,
    io: &mut Exchange,
) -> (r: Outcome)
    requires
        old(conn).wf(),
    ensures
        (r@, final(conn)@, final(io)@) == writing_value(
            old(conn)@,
            name@,
            fourcc,
            info,
            bytes@,
            old(io)@,
        ),
        final(conn).wf(),
{
    let mut lines: Vec<Line> = silent();
    let mut m: Vec<Glyph> = about_key(name);
    put_text(&mut m, ": type=");
    put_text(&mut m, fourcc_to_string(info.data_type).as_str());
    put_text(&mut m, " size=");
    put_number(&mut m, info.data_size as u64);
    put_text(&mut m, " payload=");
    assert(bytes@.take(bytes@.len() as int) =~= bytes@);
    put_text(&mut m, bytes_text(bytes.as_slice(), bytes.len()).as_str());
    let ghost head = shown(m@);
    say(&mut lines, m);
    assert(said(lines@) =~= seq![out(head)]);
    if bytes.len() != info.data_size as usize {
        let mut t: Vec<Glyph> = about_key(name);
        put_text(&mut t, ": payload size ");
        put_number(&mut t, bytes.len() as u64);
        put_text(&mut t, " != SMC data_size ");
        put_number(&mut t, info.data_size as u64);
        warn(&mut lines, t);
        return Outcome { code: 64, lines };
    }
    match conn.write_raw_for_research(fourcc, bytes.as_slice(), io) {
        Ok(_) => {
            say_text(&mut lines, "  write succeeded (kIOReturnSuccess + result byte 0x00)");
            let readback: Result<(KeyInfo, [u8; 32]), SmcError> = conn.read_key(fourcc, io);
            say_readback(&mut lines, info, bytes, &readback);
            Outcome { code: 0, lines }
        },
        Err(e) => {
            let mut t: Vec<Glyph> = about_key(name);
            put_text(&mut t, ": write failed: ");
            put_error(&mut t, &e);
            warn(&mut lines, t);
            Outcome { code: 1, lines }
        },
    }
}

/// Writes any key and looks at what became of it.
pub fn run_debug_write(
    fourcc_str: &str,
    value_str: &str,
    float: &Result<Flt, String>,
    io: &mut Exchange,
) -> (r: Outcome)
    ensures
        (r@, final(io)@) == debug_writing(fourcc_str@, value_str@, float_words(*float), old(io)@),
{
    let mut lines: Vec<Line> = silent();
    let key: &[u8] = fourcc_str.as_bytes();
    if key.len() != 4 {
        warn_text(&mut lines, "fand keys --write: fourcc must be exactly 4 bytes");
        assert(said(lines@) =~= seq![
            err(plain("fand keys --write: fourcc must be exactly 4 bytes"@)),
        ]);
        return Outcome { code: 64, lines };
    }
    let fourcc: u32 = fourcc_from(key[0], key[1], key[2], key[3]);
    let bytes: Vec<u8> = match parse_payload(value_str, float) {
        Ok(b) => b,
        Err(why) => {
            let mut m: Vec<Glyph> = start("fand keys --write: ");
            put_text(&mut m, why.as_str());
            warn(&mut lines, m);
            assert(said(lines@) =~= seq![err(plain("fand keys --write: "@) + plain(why@))]);
            return Outcome { code: 64, lines };
        },
    };
    let mut conn: SmcConnection = match SmcConnection::open(io) {
        Ok(c) => c,
        Err(e) => {
            return open_with_diagnostic(&e);
        },
    };
    let info: KeyInfo = match conn.read_key_info(fourcc, io) {
        Ok(i) => i,
        Err(e) => {
            conn.close(io);
            let mut m: Vec<Glyph> = about_key(fourcc_str);
            put_text(&mut m, ": read_key_info failed: ");
            put_error(&mut m, &e);
            let ghost t = shown(m@);
            warn(&mut lines, m);
            assert(said(lines@) =~= seq![err(t)]);
            return Outcome { code: 1, lines };
        },
    };
    let r: Outcome = write_value(&mut conn, fourcc_str, fourcc, info, &bytes, io);
    conn.close(io);
    r
}

} // verus!
