//! Text with numbers in it that are still to be printed.
//!
//! The shortest decimal that stands for a binary number is left to the printer:
//! a message holds the number itself, and how it is to be laid out.

use crate::flt::Flt;
use crate::text::{decimal, push_decimal};
use vstd::prelude::*;

verus! {

/// A text, or a number to be printed.
#[derive(Debug, Clone, PartialEq, Eq)]
#[allow(inconsistent_fields)]
pub enum Glyph {
    Text(String),
    /// A number, right-aligned in `width` columns. With `decimals`, exactly so
    /// many; without, as many as it takes to tell the number from every other.
    Num { value: Flt, width: u8, decimals: Option<u8> },
    /// A number with its sign, also where it is positive.
    Signed { value: Flt, width: u8, decimals: u8 },
}

/// A glyph, with the text as a sequence.
#[allow(inconsistent_fields)]
pub enum Mark {
    Text(Seq<char>),
    Num { value: Flt, width: u8, decimals: Option<u8> },
    Signed { value: Flt, width: u8, decimals: u8 },
}

impl Glyph {
    pub open spec fn view(&self) -> Mark {
        match *self {
            Glyph::Text(s) => Mark::Text(s@),
            Glyph::Num { value, width, decimals } => Mark::Num { value, width, decimals },
            Glyph::Signed { value, width, decimals } => Mark::Signed { value, width, decimals },
        }
    }
}

/// A message, with its texts as sequences.
pub open spec fn shown(m: Seq<Glyph>) -> Seq<Mark> {
    Seq::new(m.len(), |i: int| m[i]@)
}

/// A text.
pub open spec fn plain(s: Seq<char>) -> Seq<Mark> {
    seq![Mark::Text(s)]
}

/// A number with as many decimals as it takes.
pub open spec fn exact(value: Flt) -> Seq<Mark> {
    seq![Mark::Num { value, width: 0, decimals: None }]
}

/// A number with a fixed layout.
pub open spec fn fixed(value: Flt, width: u8, decimals: u8) -> Seq<Mark> {
    seq![Mark::Num { value, width, decimals: Some(decimals) }]
}

/// A number with its sign.
pub open spec fn with_sign(value: Flt, width: u8, decimals: u8) -> Seq<Mark> {
    seq![Mark::Signed { value, width, decimals }]
}

/// Appends a text.
pub fn put_text(m: &mut Vec<Glyph>, s: &str)
    ensures
        shown(final(m)@) == shown(old(m)@) + plain(s@),
{
    m.push(Glyph::Text(s.to_owned()));
    assert(shown(m@) =~= shown(old(m)@) + plain(s@));
}

/// Appends a whole number.
pub fn put_number(m: &mut Vec<Glyph>, n: u64)
    ensures
        shown(final(m)@) == shown(old(m)@) + plain(decimal(n as nat)),
{
    let mut s: String = String::new();
    push_decimal(&mut s, n);
    assert(s@ =~= decimal(n as nat));
    put_text(m, s.as_str());
}

/// Appends a number with as many decimals as it takes.
pub fn put_exact(m: &mut Vec<Glyph>, value: Flt)
    ensures
        shown(final(m)@) == shown(old(m)@) + exact(value),
{
    m.push(Glyph::Num { value, width: 0, decimals: None });
    assert(shown(m@) =~= shown(old(m)@) + exact(value));
}

/// Appends a number with a fixed layout.
pub fn put_fixed(m: &mut Vec<Glyph>, value: Flt, width: u8, decimals: u8)
    ensures
        shown(final(m)@) == shown(old(m)@) + fixed(value, width, decimals),
{
    m.push(Glyph::Num { value, width, decimals: Some(decimals) });
    assert(shown(m@) =~= shown(old(m)@) + fixed(value, width, decimals));
}

/// Appends a number with its sign.
pub fn put_signed(m: &mut Vec<Glyph>, value: Flt, width: u8, decimals: u8)
    ensures
        shown(final(m)@) == shown(old(m)@) + with_sign(value, width, decimals),
{
    m.push(Glyph::Signed { value, width, decimals });
    assert(shown(m@) =~= shown(old(m)@) + with_sign(value, width, decimals));
}

/// Appends a message.
pub fn put_glyphs(m: &mut Vec<Glyph>, more: &Vec<Glyph>)
    ensures
        shown(final(m)@) == shown(old(m)@) + shown(more@),
{
    let mut i: usize = 0;
    assert(shown(m@) =~= shown(old(m)@) + shown(more@).take(0));
    while i < more.len()
        invariant
            i <= more@.len(),
            shown(m@) == shown(old(m)@) + shown(more@).take(i as int),
        decreases more@.len() - i,
    {
        let ghost before = m@;
        match &more[i] {
            Glyph::Text(s) => {
                m.push(Glyph::Text(s.as_str().to_owned()));
            },
            Glyph::Num { value, width, decimals } => {
                m.push(Glyph::Num { value: *value, width: *width, decimals: *decimals });
            },
            Glyph::Signed { value, width, decimals } => {
                m.push(Glyph::Signed { value: *value, width: *width, decimals: *decimals });
            },
        }
        assert(m@.last()@ == more@[i as int]@);
        assert(m@.drop_last() =~= before);
        assert(shown(m@) =~= shown(before).push(more@[i as int]@));
        assert(shown(m@) =~= shown(old(m)@) + shown(more@).take(i + 1));
        i = i + 1;
    }
    assert(shown(more@).take(more@.len() as int) =~= shown(more@));
}

} // verus!
