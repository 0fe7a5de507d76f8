//! The command `keys`, on single keys: listing, reading and writing them as
//! they are. Writing is for research on the key space: it takes any key.

use super::keys::{fourcc_to_string, key_text, open_failure, open_with_diagnostic};
use super::say::{
    bytes_text, decimal_text, err, hex_text, left, out, put_error, put_left, said, say, say_text,
    silent, start, warn, warn_text, Line, Outcome, Said,
};
use crate::flt::Flt;
use crate::glyph::{exact, plain, put_exact, put_number, put_text, shown, Glyph};
use crate::smc::connection::{
    as_flt, closing, opening, reading_index, reading_info, reading_key, reading_u32, Conn, KeyInfo,
    SmcConnection,
};
use crate::smc::enumerate::{read_key_count, reading_key_count};
use crate::smc::error::SmcError;
use crate::smc::exchange::{Dialog, Exchange};
use crate::smc::keys::{fourcc_from, fourcc_of, TYPE_FLT, TYPE_UI32, TYPE_UI8, UPPER_F};
use crate::smc::types::{decode_flt, from_be, from_le, little_endian, most_first};
use crate::text::{decimal, hex_list, hex_upper};
use vstd::prelude::*;
use vstd::utf8::encode_utf8;

verus! {

/// A key of a fan begins with `F`.
pub open spec fn of_a_fan(fourcc: u32) -> bool {
    fourcc / 0x100_0000 == UPPER_F
}

/// What is known of the keys that were listed so far.
pub struct Listing {
    /// How many belong to fans.
    pub found: nat,
    /// How many could not be read.
    pub failed: nat,
    pub lines: Seq<Said>,
}

/// The row of a key.
pub open spec fn key_row(i: u32, fourcc: u32, info: KeyInfo) -> Said {
    out(
        plain("  "@) + plain(left(decimal(i as nat), 8)) + plain(" "@) + plain(
            left(key_text(fourcc), 8),
        ) + plain(" "@) + plain(left(key_text(info.data_type), 10)) + plain(" "@) + plain(
            left(decimal(info.data_size as nat), 12),
        ) + plain(" "@) + plain("(unknown)"@),
    )
}

/// The row of a key of which nothing is known.
pub open spec fn blank_row(i: u32, fourcc: u32) -> Said {
    out(
        plain("  "@) + plain(left(decimal(i as nat), 8)) + plain(" "@) + plain(
            left(key_text(fourcc), 8),
        ) + plain(" (read_key_info failed)"@),
    )
}

/// Listing the keys of fans, from the index `i` to `n`. A key that cannot be
/// read is counted and left out.
pub open spec fn listing_keys(c: Conn, i: int, n: int, l: Listing, d: Dialog) -> (
    Listing,
    Conn,
    Dialog,
)
    decreases n - i,
{
    if i >= n {
        (l, c, d)
    } else {
        let (key, d1) = reading_index(c, i as u32, d);
        match key {
            Err(_) => listing_keys(c, i + 1, n, Listing { failed: l.failed + 1, ..l }, d1),
            Ok(fourcc) => if !of_a_fan(fourcc) {
                listing_keys(c, i + 1, n, l, d1)
            } else {
                let (info, c2, d2) = reading_info(c, fourcc, d1);
                let row = match info {
                    Ok(ki) => key_row(i as u32, fourcc, ki),
                    Err(_) => blank_row(i as u32, fourcc),
                };
                listing_keys(
                    c2,
                    i + 1,
                    n,
                    Listing { found: l.found + 1, lines: l.lines.push(row), ..l },
                    d2,
                )
            },
        }
    }
}

/// The head of the list.
pub open spec fn list_head(count: u32) -> Seq<Said> {
    seq![
        out(
            plain("fand keys --all — "@) + plain(decimal(count as nat)) + plain(
                " keys in SMC keyspace"@,
            ),
        ),
        out(plain("filtering to F-prefixed keys (fan-related)"@)),
        out(plain(""@)),
        out(
            plain("  "@) + plain(left("idx"@, 8)) + plain(" "@) + plain(left("fourcc"@, 8)) + plain(
                " "@,
            ) + plain(left("data_type"@, 10)) + plain(" "@) + plain(left("data_size"@, 12)) + plain(
                " attributes"@,
            ),
        ),
    ]
}

/// The end of the list.
pub open spec fn list_end(l: Listing) -> Seq<Said> {
    let lines = l.lines.push(out(plain(""@))).push(
        out(plain("matched: "@) + plain(decimal(l.found)) + plain(" F-prefixed keys"@)),
    );
    if l.failed > 0 {
        lines.push(
            out(plain("errors:  "@) + plain(decimal(l.failed)) + plain(" indices failed to read"@)),
        )
    } else {
        lines
    }
}

/// The keys of fans: open, count the keys, list them, close.
pub open spec fn listing(d: Dialog) -> ((u8, Seq<Said>), Dialog) {
    let (opened, d1) = opening(d);
    match opened {
        Err(e) => (open_failure(e), d1),
        Ok(c1) => {
            let (count, c2, d2) = reading_key_count(c1, d1);
            match count {
                Err(e) => (
                    (
                        1,
                        seq![
                            err(plain("fand keys --all: failed to read #KEY: "@) + plain(e.text())),
                        ],
                    ),
                    closing(c2, d2).1,
                ),
                Ok(n) => {
                    let (l, c3, d3) = listing_keys(
                        c2,
                        0,
                        n as int,
                        Listing { found: 0, failed: 0, lines: list_head(n) },
                        d2,
                    );
                    ((0, list_end(l)), closing(c3, d3).1)
                },
            }
        },
    }
}

fn failure(m: Vec<Glyph>, e: &SmcError, code: u8) -> (r: Outcome)
    ensures
        r@ == (code, seq![err(shown(m@) + plain(e.text()))]),
{
    let mut lines: Vec<Line> = silent();
    let mut t: Vec<Glyph> = m;
    put_error(&mut t, e);
    warn(&mut lines, t);
    assert(said(lines@) =~= seq![err(shown(m@) + plain(e.text()))]);
    Outcome { code, lines }
}

fn say_list_head(count: u32) -> (lines: Vec<Line>)
    ensures
        said(lines@) == list_head(count),
{
    let mut lines: Vec<Line> = silent();
    let mut m: Vec<Glyph> = start("fand keys --all — ");
    put_number(&mut m, count as u64);
    put_text(&mut m, " keys in SMC keyspace");
    say(&mut lines, m);
    say_text(&mut lines, "filtering to F-prefixed keys (fan-related)");
    say_text(&mut lines, "");
    let mut t: Vec<Glyph> = start("  ");
    put_left(&mut t, "idx", 8);
    put_text(&mut t, " ");
    put_left(&mut t, "fourcc", 8);
    put_text(&mut t, " ");
    put_left(&mut t, "data_type", 10);
    put_text(&mut t, " ");
    put_left(&mut t, "data_size", 12);
    put_text(&mut t, " attributes");
    say(&mut lines, t);
    assert(said(lines@) =~= list_head(count));
    lines
}

fn say_row(lines: &mut Vec<Line>, i: u32, fourcc: u32, info: &Result<KeyInfo, SmcError>)
    ensures
        said(final(lines)@) == said(old(lines)@).push(
            match *info {
                Ok(ki) => key_row(i, fourcc, ki),
                Err(_) => blank_row(i, fourcc),
            },
        ),
{
    let mut m: Vec<Glyph> = start("  ");
    put_left(&mut m, decimal_text(i as u64).as_str(), 8);
    put_text(&mut m, " ");
    put_left(&mut m, fourcc_to_string(fourcc).as_str(), 8);
    match info {
        Ok(ki) => {
            put_text(&mut m, " ");
            put_left(&mut m, fourcc_to_string(ki.data_type).as_str(), 10);
            put_text(&mut m, " ");
            put_left(&mut m, decimal_text(ki.data_size as u64).as_str(), 12);
            put_text(&mut m, " ");
            put_text(&mut m, super::keys::format_attributes_placeholder());
        },
        Err(_) => {
            put_text(&mut m, " (read_key_info failed)");
        },
    }
    say(lines, m);
}

/// Lists the keys of fans.
pub fn run_all_fan_keys(io: &mut Exchange) -> (r: Outcome)
    ensures
        (r@, final(io)@) == listing(old(io)@),
{
    let mut conn: SmcConnection = match SmcConnection::open(io) {
        Ok(c) => c,
        Err(e) => {
            return open_with_diagnostic(&e);
        },
    };
    let key_count: u32 = match read_key_count(&mut conn, io) {
        Ok(n) => n,
        Err(e) => {
            conn.close(io);
            return failure(start("fand keys --all: failed to read #KEY: "), &e, 1);
        },
    };
    let mut lines: Vec<Line> = say_list_head(key_count);
    let mut f_count: u32 = 0;
    let mut errors: u32 = 0;
    let ghost c0 = conn@;
    let ghost d0 = io@;
    let ghost l0 = Listing { found: 0, failed: 0, lines: list_head(key_count) };
    let mut i: u32 = 0;
    while i < key_count
        invariant
            i <= key_count,
            f_count <= i,
            errors <= i,
            conn.wf(),
            listing_keys(
                conn@,
                i as int,
                key_count as int,
                Listing { found: f_count as nat, failed: errors as nat, lines: said(lines@) },
                io@,
            ) == listing_keys(c0, 0, key_count as int, l0, d0),
        decreases key_count - i,
    {
        let fourcc: u32 = match conn.read_key_at_index(i, io) {
            Ok(f) => f,
            Err(_) => {
                errors = errors + 1;
                i = i + 1;
                continue;
            },
        };
        if fourcc / 0x100_0000 != UPPER_F as u32 {
            i = i + 1;
            continue;
        }
        f_count = f_count + 1;
        let info: Result<KeyInfo, SmcError> = conn.read_key_info(fourcc, io);
        say_row(&mut lines, i, fourcc, &info);
        i = i + 1;
    }
    say_text(&mut lines, "");
    let mut m: Vec<Glyph> = start("matched: ");
    put_number(&mut m, f_count as u64);
    put_text(&mut m, " F-prefixed keys");
    say(&mut lines, m);
    if errors > 0 {
        let mut t: Vec<Glyph> = start("errors:  ");
        put_number(&mut t, errors as u64);
        put_text(&mut t, " indices failed to read");
        say(&mut lines, t);
    }
    conn.close(io);
    Outcome { code: 0, lines }
}

/// The key that four bytes name.
pub open spec fn key_of(bytes: Seq<u8>) -> u32 {
    fourcc_of(bytes[0], bytes[1], bytes[2], bytes[3])
}

/// As many bytes of a value as its key has.
pub open spec fn valid_bytes(info: KeyInfo, raw: Seq<u8>) -> Seq<u8> {
    raw.take(
        (if info.data_size < 32 {
            info.data_size
        } else {
            32
        }) as int,
    )
}

/// What is said of bytes whose type is not known: the bytes, and what they are
/// as numbers.
pub open spec fn raw_lines(b: Seq<u8>) -> Seq<Said> {
    let first = seq![out(plain("  raw  = "@) + plain(hex_list(b, true)))];
    if b.len() == 2 {
        first.push(
            out(
                plain("  u16  BE="@) + plain(decimal((b[0] * 256 + b[1]) as nat)) + plain(" LE="@)
                    + plain(decimal((b[1] * 256 + b[0]) as nat)),
            ),
        )
    } else if b.len() == 4 {
        first.push(
            out(
                plain("  u32  BE="@) + plain(decimal(most_first(b) as nat)) + plain(" LE="@)
                    + plain(decimal(little_endian(b) as nat)),
            ),
        ).push(out(plain("  f32  LE="@) + exact(Flt { bits: little_endian(b) })))
    } else {
        first
    }
}

/// What is said of bytes as a value of their type, where it is a `ui8` or a
/// `flt`.
pub open spec fn typed_lines(fourcc: u32, info: KeyInfo, raw: Seq<u8>) -> Seq<Said> {
    if info.data_type == TYPE_UI8 && info.data_size == 1 {
        seq![
            out(
                plain("  ui8  = "@) + plain(decimal(raw[0] as nat)) + plain(" (0x"@) + plain(
                    hex_upper(raw[0] as nat, 2),
                ) + plain(")"@),
            ),
        ]
    } else if info.data_type == TYPE_FLT && info.data_size == 4 {
        match as_flt(fourcc, info, raw) {
            Ok(v) => seq![out(plain("  flt  = "@) + exact(v))],
            Err(e) => seq![out(plain("  flt  read failed: "@) + plain(e.text()))],
        }
    } else {
        Seq::empty()
    }
}

/// Reading a value and saying it. A `ui32` is read as such; of every other value
/// the bytes are said, and what they are as a value of their type.
pub open spec fn reading_value(c: Conn, fourcc: u32, info: KeyInfo, d: Dialog) -> (
    Seq<Said>,
    Conn,
    Dialog,
) {
    if info.data_type == TYPE_UI32 && info.data_size == 4 {
        let (r, c1, d1) = reading_u32(c, fourcc, d);
        match r {
            Ok(v) => (
                seq![
                    out(
                        plain("  ui32 = "@) + plain(decimal(v as nat)) + plain(" (0x"@) + plain(
                            hex_upper(v as nat, 8),
                        ) + plain(")"@),
                    ),
                ],
                c1,
                d1,
            ),
            Err(e) => (seq![out(plain("  ui32 read failed: "@) + plain(e.text()))], c1, d1),
        }
    } else {
        let (r, c1, d1) = reading_key(c, fourcc, d);
        match r {
            Ok((_, raw)) => (
                raw_lines(valid_bytes(info, raw@)) + typed_lines(fourcc, info, raw@),
                c1,
                d1,
            ),
            Err(e) => (seq![out(plain("  read_key failed: "@) + plain(e.text()))], c1, d1),
        }
    }
}

/// Reading a key: open, read size and type, read the value, close.
pub open spec fn reading(name: Seq<char>, d: Dialog) -> ((u8, Seq<Said>), Dialog) {
    let bytes = encode_utf8(name);
    if bytes.len() != 4 {
        ((64, seq![err(plain("fand keys --read: fourcc must be exactly 4 bytes"@))]), d)
    } else {
        let fourcc = key_of(bytes);
        let (opened, d1) = opening(d);
        match opened {
            Err(e) => (open_failure(e), d1),
            Ok(c1) => {
                let (info, c2, d2) = reading_info(c1, fourcc, d1);
                match info {
                    Err(e) => (
                        (
                            1,
                            seq![
                                err(
                                    plain("fand keys --read "@) + plain(name) + plain(
                                        ": read_key_info failed: "@,
                                    ) + plain(e.text()),
                                ),
                            ],
                        ),
                        closing(c2, d2).1,
                    ),
                    Ok(ki) => {
                        let (lines, c3, d3) = reading_value(c2, fourcc, ki, d2);
                        (
                            (
                                0,
                                seq![
                                    out(
                                        plain("fand keys --read "@) + plain(name) + plain(
                                            ": type="@,
                                        ) + plain(key_text(ki.data_type)) + plain(" size="@)
                                            + plain(decimal(ki.data_size as nat)),
                                    ),
                                ] + lines,
                            ),
                            closing(c3, d3).1,
                        )
                    },
                }
            },
        }
    }
}

fn say_raw(lines: &mut Vec<Line>, raw: &[u8], n: usize)
    requires
        n <= 32 <= raw@.len(),
    ensures
        said(final(lines)@) == said(old(lines)@) + raw_lines(raw@.take(n as int)),
{
    let ghost b = raw@.take(n as int);
    let mut m: Vec<Glyph> = start("  raw  = ");
    put_text(&mut m, bytes_text(raw, n).as_str());
    say(lines, m);
    if n == 2 {
        let be: u64 = (raw[0] as u64) * 256 + raw[1] as u64;
        let le: u64 = (raw[1] as u64) * 256 + raw[0] as u64;
        let mut t: Vec<Glyph> = start("  u16  BE=");
        put_number(&mut t, be);
        put_text(&mut t, " LE=");
        put_number(&mut t, le);
        say(lines, t);
    } else if n == 4 {
        let v: [u8; 4] = [raw[0], raw[1], raw[2], raw[3]];
        assert(v@ =~= b);
        let be: u32 = from_be(v.as_slice());
        let le: u32 = from_le(v.as_slice());
        let mut t: Vec<Glyph> = start("  u32  BE=");
        put_number(&mut t, be as u64);
        put_text(&mut t, " LE=");
        put_number(&mut t, le as u64);
        say(lines, t);
        let mut f: Vec<Glyph> = start("  f32  LE=");
        put_exact(&mut f, Flt { bits: le });
        say(lines, f);
    }
    assert(said(lines@) =~= said(old(lines)@) + raw_lines(b));
}

fn say_typed(lines: &mut Vec<Line>, fourcc: u32, info: KeyInfo, raw: &[u8])
    requires
        raw@.len() == 32,
    ensures
        said(final(lines)@) == said(old(lines)@) + typed_lines(fourcc, info, raw@),
{
    if info.data_type == TYPE_UI8 && info.data_size == 1 {
        let v: u64 = raw[0] as u64;
        let mut m: Vec<Glyph> = start("  ui8  = ");
        put_number(&mut m, v);
        put_text(&mut m, " (0x");
        put_text(&mut m, hex_text(v, 2).as_str());
        put_text(&mut m, ")");
        say(lines, m);
    } else if info.data_type == TYPE_FLT && info.data_size == 4 {
        match decode_flt(raw, info.data_size) {
            Ok(v) => {
                let mut m: Vec<Glyph> = start("  flt  = ");
                put_exact(&mut m, v);
                say(lines, m);
            },
            Err(_) => {
                let mut m: Vec<Glyph> = start("  flt  read failed: ");
                put_error(&mut m, &SmcError::InvalidFloat { fourcc });
                say(lines, m);
            },
        }
    }
    assert(said(lines@) =~= said(old(lines)@) + typed_lines(fourcc, info, raw@));
}

fn smaller(n: u32) -> (r: usize)
    ensures
        r == (if n < 32 {
            n
        } else {
            32
        }),
{
    if n < 32 {
        n as usize
    } else {
        32
    }
}

fn say_value(
    lines: &mut Vec<Line>,
    conn: &mut SmcConnection,
    fourcc: u32,
    info: KeyInfo,
    io: &mut Exchange,
)
    requires
        old(conn).wf(),
    ensures
        final(conn).wf(),
        ({
            let (more, c, d) = reading_value(old(conn)@, fourcc, info, old(io)@);
            &&& said(final(lines)@) == said(old(lines)@) + more
            &&& final(conn)@ == c
            &&& final(io)@ == d
        }),
{
    let ghost more = reading_value(conn@, fourcc, info, io@).0;
    if info.data_type == TYPE_UI32 && info.data_size == 4 {
        match conn.read_u32(fourcc, io) {
            Ok(v) => {
                let mut m: Vec<Glyph> = start("  ui32 = ");
                put_number(&mut m, v as u64);
                put_text(&mut m, " (0x");
                put_text(&mut m, hex_text(v as u64, 8).as_str());
                put_text(&mut m, ")");
                say(lines, m);
            },
            Err(e) => {
                let mut m: Vec<Glyph> = start("  ui32 read failed: ");
                put_error(&mut m, &e);
                say(lines, m);
            },
        }
        assert(said(lines@) =~= said(old(lines)@) + more);
    } else {
        match conn.read_key(fourcc, io) {
            Ok((_, raw)) => {
                say_raw(lines, raw.as_slice(), smaller(info.data_size));
                say_typed(lines, fourcc, info, raw.as_slice());
                assert(said(lines@) =~= said(old(lines)@) + more);
            },
            Err(e) => {
                let mut m: Vec<Glyph> = start("  read_key failed: ");
                put_error(&mut m, &e);
                say(lines, m);
                assert(said(lines@) =~= said(old(lines)@) + more);
            },
        }
    }
}

/// Reads a key and says its value.
pub fn run_read_key(fourcc_str: &str, io: &mut Exchange) -> (r: Outcome)
    ensures
        (r@, final(io)@) == reading(fourcc_str@, old(io)@),
{
    let mut lines: Vec<Line> = silent();
    let bytes: &[u8] = fourcc_str.as_bytes();
    if bytes.len() != 4 {
        warn_text(&mut lines, "fand keys --read: fourcc must be exactly 4 bytes");
        assert(said(lines@) =~= reading(fourcc_str@, old(io)@).0.1);
        return Outcome { code: 64, lines };
    }
    let fourcc: u32 = fourcc_from(bytes[0], bytes[1], bytes[2], bytes[3]);
    let mut conn: SmcConnection = match SmcConnection::open(io) {
        Ok(c) => c,
        Err(e) => {
            return open_with_diagnostic(&e);
        },
    };
    let info: KeyInfo = match conn.read_key_info(fourcc, io) {
        Ok(i) => i,
        Err(e) => {
            conn.close(io);
            let mut m: Vec<Glyph> = start("fand keys --read ");
            put_text(&mut m, fourcc_str);
            put_text(&mut m, ": read_key_info failed: ");
            return failure(m, &e, 1);
        },
    };
    let mut m: Vec<Glyph> = start("fand keys --read ");
    put_text(&mut m, fourcc_str);
    put_text(&mut m, ": type=");
    put_text(&mut m, fourcc_to_string(info.data_type).as_str());
    put_text(&mut m, " size=");
    put_number(&mut m, info.data_size as u64);
    say(&mut lines, m);
    say_value(&mut lines, &mut conn, fourcc, info, io);
    conn.close(io);
    assert(said(lines@) =~= reading(fourcc_str@, old(io)@).0.1);
    Outcome { code: 0, lines }
}

} // verus!
