//! The value types of the SMC: `ui8`, `ui32` (most significant byte first) and
//! `flt` (least significant byte first).

use crate::flt::Flt;
use crate::text::{decimal, push_decimal};
use vstd::prelude::*;
use vstd::string::StringExecFns;

verus! {

/// Why a value could not be decoded or encoded.
#[derive(Debug, Clone, Copy, PartialEq, Eq)]
pub enum SmcValueError {
    /// A NaN or an infinity.
    InvalidFloat,
    /// The size that the SMC reports is not that of the type.
    SizeMismatch { expected: usize, got: u32 },
}

impl SmcValueError {
    /// The text of [`SmcValueError::message`].
    pub open spec fn text(self) -> Seq<char> {
        match self {
            SmcValueError::InvalidFloat => "NaN or infinity in flt decode"@,
            SmcValueError::SizeMismatch { expected, got } => "expected "@ + decimal(expected as nat)
                + " bytes, got "@ + decimal(got as nat),
        }
    }

    /// The error in words.
    pub fn message(&self) -> (r: String)
        ensures
            r@ == self.text(),
    {
        let mut s: String = String::new();
        match self {
            SmcValueError::InvalidFloat => {
                s.append("NaN or infinity in flt decode");
            },
            SmcValueError::SizeMismatch { expected, got } => {
                s.append("expected ");
                push_decimal(&mut s, *expected as u64);
                s.append(" bytes, got ");
                push_decimal(&mut s, *got as u64);
            },
        }
        assert(s@ =~= self.text());
        s
    }
}

/// Byte `i`, or 0 beyond the end.
pub open spec fn byte_at(bytes: Seq<u8>, i: int) -> u8 {
    if 0 <= i < bytes.len() {
        bytes[i]
    } else {
        0
    }
}

/// The number in the first four bytes, the least significant first.
pub open spec fn little_endian(bytes: Seq<u8>) -> u32 {
    (byte_at(bytes, 0) + byte_at(bytes, 1) * 0x100 + byte_at(bytes, 2) * 0x1_0000 + byte_at(
        bytes,
        3,
    ) * 0x100_0000) as u32
}

/// The number in the first four bytes, the most significant first.
pub open spec fn most_first(bytes: Seq<u8>) -> u32 {
    (byte_at(bytes, 3) + byte_at(bytes, 2) * 0x100 + byte_at(bytes, 1) * 0x1_0000 + byte_at(
        bytes,
        0,
    ) * 0x100_0000) as u32
}

/// The four bytes of a number, the least significant first.
pub open spec fn bytes_of(v: u32) -> Seq<u8> {
    seq![
        (v % 0x100) as u8,
        (v / 0x100 % 0x100) as u8,
        (v / 0x1_0000 % 0x100) as u8,
        (v / 0x100_0000) as u8,
    ]
}

fn byte_or_zero(bytes: &[u8], i: usize) -> (r: u8)
    ensures
        r == byte_at(bytes@, i as int),
{
    if i < bytes.len() {
        bytes[i]
    } else {
        0
    }
}

/// The four bytes of a number, the least significant first.
pub fn to_le(v: u32) -> (r: [u8; 4])
    ensures
        r@ == bytes_of(v),
{
    let r: [u8; 4] = [
        (v % 0x100) as u8,
        (v / 0x100 % 0x100) as u8,
        (v / 0x1_0000 % 0x100) as u8,
        (v / 0x100_0000) as u8,
    ];
    assert(r@ =~= bytes_of(v));
    r
}

/// The number in the first four bytes, the least significant first.
pub fn from_le(bytes: &[u8]) -> (r: u32)
    ensures
        r == little_endian(bytes@),
{
    (byte_or_zero(bytes, 0) as u32) + (byte_or_zero(bytes, 1) as u32) * 0x100 + (byte_or_zero(
        bytes,
        2,
    ) as u32) * 0x1_0000 + (byte_or_zero(bytes, 3) as u32) * 0x100_0000
}

/// The number in the first four bytes, the most significant first.
pub fn from_be(bytes: &[u8]) -> (r: u32)
    ensures
        r == most_first(bytes@),
{
    (byte_or_zero(bytes, 3) as u32) + (byte_or_zero(bytes, 2) as u32) * 0x100 + (byte_or_zero(
        bytes,
        1,
    ) as u32) * 0x1_0000 + (byte_or_zero(bytes, 0) as u32) * 0x100_0000
}

/// Decodes a `flt`.
pub fn decode_flt(bytes: &[u8], data_size: u32) -> (r: Result<Flt, SmcValueError>)
    ensures
        r == (if data_size != 4 {
            Err(SmcValueError::SizeMismatch { expected: 4, got: data_size })
        } else {
            let v = Flt { bits: little_endian(bytes@) };
            if v.finite() {
                Ok(v)
            } else {
                Err(SmcValueError::InvalidFloat)
            }
        }),
{
    if data_size != 4 {
        return Err(SmcValueError::SizeMismatch { expected: 4, got: data_size });
    }
    let bits: u32 = byte_or_zero(bytes, 0) as u32 + byte_or_zero(bytes, 1) as u32 * 0x100
        + byte_or_zero(bytes, 2) as u32 * 0x1_0000 + byte_or_zero(bytes, 3) as u32 * 0x100_0000;
    let v: Flt = Flt { bits };
    if v.is_finite() {
        Ok(v)
    } else {
        Err(SmcValueError::InvalidFloat)
    }
}

/// Encodes a `flt`.
pub fn encode_flt(val: Flt) -> (r: Result<[u8; 4], SmcValueError>)
    ensures
        val.finite() ==> r is Ok && r->Ok_0@ == bytes_of(val.bits),
        !val.finite() ==> r == Err::<[u8; 4], _>(SmcValueError::InvalidFloat),
{
    if val.is_finite() {
        Ok(to_le(val.bits))
    } else {
        Err(SmcValueError::InvalidFloat)
    }
}

/// Decodes a `ui8`.
pub fn decode_ui8(bytes: &[u8], data_size: u32) -> (r: Result<u8, SmcValueError>)
    ensures
        r == (if data_size != 1 {
            Err(SmcValueError::SizeMismatch { expected: 1, got: data_size })
        } else {
            Ok(byte_at(bytes@, 0))
        }),
{
    if data_size != 1 {
        return Err(SmcValueError::SizeMismatch { expected: 1, got: data_size });
    }
    Ok(byte_or_zero(bytes, 0))
}

/// Encodes a `ui8`.
pub fn encode_ui8(val: u8) -> (r: [u8; 1])
    ensures
        r@ == seq![val],
{
    let r: [u8; 1] = [val];
    assert(r@ =~= seq![val]);
    r
}

/// Decodes a `ui32`.
pub fn decode_ui32(bytes: &[u8], data_size: u32) -> (r: Result<u32, SmcValueError>)
    ensures
        r == (if data_size != 4 {
            Err(SmcValueError::SizeMismatch { expected: 4, got: data_size })
        } else {
            Ok(most_first(bytes@))
        }),
{
    if data_size != 4 {
        return Err(SmcValueError::SizeMismatch { expected: 4, got: data_size });
    }
    Ok(
        byte_or_zero(bytes, 3) as u32 + byte_or_zero(bytes, 2) as u32 * 0x100 + byte_or_zero(
            bytes,
            1,
        ) as u32 * 0x1_0000 + byte_or_zero(bytes, 0) as u32 * 0x100_0000,
    )
}

/// Encodes a `ui32`.
pub fn encode_ui32(val: u32) -> (r: [u8; 4])
    ensures
        r@ == bytes_of(val).reverse(),
{
    let b: [u8; 4] = to_le(val);
    let r: [u8; 4] = [b[3], b[2], b[1], b[0]];
    assert(r@ =~= bytes_of(val).reverse());
    r
}

/// Decoding gives back what was encoded: `flt`, bit for bit.
pub proof fn law_flt_round_trip(v: u32)
    ensures
        little_endian(bytes_of(v)) == v,
{
}

/// Decoding gives back what was encoded: `ui32`.
pub proof fn law_ui32_round_trip(v: u32)
    ensures
        most_first(bytes_of(v).reverse()) == v,
{
    assert(bytes_of(v).reverse() =~= seq![
        bytes_of(v)[3],
        bytes_of(v)[2],
        bytes_of(v)[1],
        bytes_of(v)[0],
    ]);
}

/// Encoding gives back the four bytes that were decoded.
pub proof fn law_flt_bytes_round_trip(bytes: Seq<u8>)
    requires
        bytes.len() == 4,
    ensures
        bytes_of(little_endian(bytes)) == bytes,
{
    let a = bytes[0] as int;
    let b = bytes[1] as int;
    let c = bytes[2] as int;
    let d = bytes[3] as int;
    let v = little_endian(bytes);
    assert(v == a + b * 0x100 + c * 0x1_0000 + d * 0x100_0000);
    let v1 = b + c * 0x100 + d * 0x1_0000;
    let v2 = c + d * 0x100;
    assert(v as int / 0x100 == v1 && v as int % 0x100 == a);
    assert(v as int / 0x1_0000 == v2);
    assert(v as int / 0x100_0000 == d);
    assert(v1 % 0x100 == b);
    assert(v2 % 0x100 == c);
    assert(bytes_of(v) =~= bytes);
}

} // verus!
