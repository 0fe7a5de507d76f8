//! What commands say: lines for the standard output and the error output.

use crate::glyph::{plain, put_text, shown, Glyph, Mark};
use crate::smc::error::SmcError;
use crate::text::{chars_of, push_decimal, push_hex_list, push_hex_upper};
use vstd::prelude::*;
use vstd::string::StringExecFns;

verus! {

/// A line, for the error output or for the standard output.
#[derive(Debug, Clone, PartialEq, Eq)]
pub struct Line {
    pub err: bool,
    pub text: Vec<Glyph>,
}

/// A line, with its texts as sequences.
pub struct Said {
    pub err: bool,
    pub text: Seq<Mark>,
}

/// Lines, with their texts as sequences.
pub open spec fn said(lines: Seq<Line>) -> Seq<Said> {
    Seq::new(lines.len(), |i: int| Said { err: lines[i].err, text: shown(lines[i].text@) })
}

/// A line on the standard output.
pub open spec fn out(text: Seq<Mark>) -> Said {
    Said { err: false, text }
}

/// A line on the error output.
pub open spec fn err(text: Seq<Mark>) -> Said {
    Said { err: true, text }
}

/// What a command comes to: its exit code, and what it says.
#[derive(Debug, Clone, PartialEq, Eq)]
pub struct Outcome {
    pub code: u8,
    pub lines: Vec<Line>,
}

impl Outcome {
    pub open spec fn view(&self) -> (u8, Seq<Said>) {
        (self.code, said(self.lines@))
    }
}

/// A message that begins with a text.
pub fn start(s: &str) -> (m: Vec<Glyph>)
    ensures
        shown(m@) == plain(s@),
{
    let mut m: Vec<Glyph> = Vec::new();
    put_text(&mut m, s);
    assert(shown(m@) =~= plain(s@));
    m
}

/// Says a message on the standard output.
pub fn say(lines: &mut Vec<Line>, text: Vec<Glyph>)
    ensures
        said(final(lines)@) == said(old(lines)@).push(out(shown(text@))),
{
    lines.push(Line { err: false, text });
    assert(said(lines@) =~= said(old(lines)@).push(out(shown(text@))));
}

/// Says a message on the error output.
pub fn warn(lines: &mut Vec<Line>, text: Vec<Glyph>)
    ensures
        said(final(lines)@) == said(old(lines)@).push(err(shown(text@))),
{
    lines.push(Line { err: true, text });
    assert(said(lines@) =~= said(old(lines)@).push(err(shown(text@))));
}

/// Says a text on the standard output.
pub fn say_text(lines: &mut Vec<Line>, s: &str)
    ensures
        said(final(lines)@) == said(old(lines)@).push(out(plain(s@))),
{
    say(lines, start(s));
}

/// Says a text on the error output.
pub fn warn_text(lines: &mut Vec<Line>, s: &str)
    ensures
        said(final(lines)@) == said(old(lines)@).push(err(plain(s@))),
{
    warn(lines, start(s));
}

/// No lines.
pub fn silent() -> (lines: Vec<Line>)
    ensures
        said(lines@) == Seq::<Said>::empty(),
{
    let lines: Vec<Line> = Vec::new();
    assert(said(lines@) =~= Seq::<Said>::empty());
    lines
}

/// Appends lines.
pub fn say_all(lines: &mut Vec<Line>, more: Vec<Line>)
    ensures
        said(final(lines)@) == said(old(lines)@) + said(more@),
{
    let ghost added = more@;
    let mut rest: Vec<Line> = more;
    lines.append(&mut rest);
    assert(said(lines@) =~= said(old(lines)@) + said(added));
}

/// Appends an error in words.
pub fn put_error(m: &mut Vec<Glyph>, e: &SmcError)
    ensures
        shown(final(m)@) == shown(old(m)@) + plain(e.text()),
{
    let s: String = e.message();
    put_text(m, s.as_str());
}

/// So many spaces.
pub open spec fn spaces(n: int) -> Seq<char> {
    Seq::new((if n > 0 { n } else { 0 }) as nat, |i: int| ' ')
}

/// A text at the left of a column.
pub open spec fn left(s: Seq<char>, width: int) -> Seq<char> {
    s + spaces(width - s.len())
}

/// A text at the right of a column.
pub open spec fn right(s: Seq<char>, width: int) -> Seq<char> {
    spaces(width - s.len()) + s
}

/// A rule of dashes.
pub open spec fn rule(n: nat) -> Seq<char> {
    Seq::new(n, |i: int| '-')
}

fn push_spaces(s: &mut String, n: usize)
    ensures
        final(s)@ == old(s)@ + spaces(n as int),
{
    let mut i: usize = 0;
    assert(s@ =~= old(s)@ + spaces(0));
    while i < n
        invariant
            i <= n,
            s@ == old(s)@ + spaces(i as int),
        decreases n - i,
    {
        s.push(' ');
        assert(s@ =~= old(s)@ + spaces(i + 1));
        i = i + 1;
    }
}

/// Appends a text at the left of a column.
pub fn put_left(m: &mut Vec<Glyph>, s: &str, width: usize)
    ensures
        shown(final(m)@) == shown(old(m)@) + plain(left(s@, width as int)),
{
    let n: usize = chars_of(s).len();
    let mut t: String = s.to_owned();
    if n < width {
        push_spaces(&mut t, width - n);
    }
    assert(t@ =~= left(s@, width as int));
    put_text(m, t.as_str());
}

/// Appends a text at the right of a column.
pub fn put_right(m: &mut Vec<Glyph>, s: &str, width: usize)
    ensures
        shown(final(m)@) == shown(old(m)@) + plain(right(s@, width as int)),
{
    let n: usize = chars_of(s).len();
    let mut t: String = String::new();
    if n < width {
        push_spaces(&mut t, width - n);
    }
    t.append(s);
    assert(t@ =~= right(s@, width as int));
    put_text(m, t.as_str());
}

/// A number in decimal notation.
pub fn decimal_text(n: u64) -> (r: String)
    ensures
        r@ == crate::text::decimal(n as nat),
{
    let mut s: String = String::new();
    push_decimal(&mut s, n);
    assert(s@ =~= crate::text::decimal(n as nat));
    s
}

/// A number in hexadecimal notation with at least `width` digits.
pub fn hex_text(n: u64, width: u8) -> (r: String)
    ensures
        r@ == crate::text::hex_upper(n as nat, width as nat),
{
    let mut s: String = String::new();
    push_hex_upper(&mut s, n, width);
    assert(s@ =~= crate::text::hex_upper(n as nat, width as nat));
    s
}

/// Bytes in hexadecimal notation, as a list.
pub fn bytes_text(bytes: &[u8], len: usize) -> (r: String)
    requires
        len <= bytes@.len(),
    ensures
        r@ == crate::text::hex_list(bytes@.take(len as int), true),
{
    let mut s: String = String::new();
    push_hex_list(&mut s, bytes, len, true);
    assert(s@ =~= crate::text::hex_list(bytes@.take(len as int), true));
    s
}

/// A rule of dashes.
pub fn rule_text(n: usize) -> (r: String)
    ensures
        r@ == rule(n as nat),
{
    let mut s: String = String::new();
    let mut i: usize = 0;
    assert(s@ =~= rule(0));
    while i < n
        invariant
            i <= n,
            s@ == rule(i as nat),
        decreases n - i,
    {
        s.push('-');
        assert(s@ =~= rule((i + 1) as nat));
        i = i + 1;
    }
    s
}

/// A truth value as a word.
pub open spec fn truth(b: bool) -> Seq<char> {
    if b {
        "true"@
    } else {
        "false"@
    }
}

/// A truth value as a word.
pub fn truth_text(b: bool) -> (r: &'static str)
    ensures
        r@ == truth(b),
{
    if b {
        "true"
    } else {
        "false"
    }
}

} // verus!
