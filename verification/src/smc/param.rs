//! The parameter block of the SMC user client: 80 bytes, in and out.
//!
//! | offset | size | field         |
//! |-------:|-----:|---------------|
//! |      0 |    4 | key           |
//! |      4 |    6 | version       |
//! |     12 |   16 | power limits  |
//! |     28 |   12 | key info      |
//! |     40 |    1 | result        |
//! |     41 |    1 | status        |
//! |     42 |    1 | command       |
//! |     44 |    4 | index         |
//! |     48 |   32 | value         |
//!
//! Numbers are stored with the least significant byte first.

use super::types::{bytes_of, little_endian, to_le};
use vstd::prelude::*;

verus! {

/// Size of the block in bytes.
pub const PARAM_SIZE: usize = 80;

/// Offset of the key.
pub const OFFSET_KEY: usize = 0;

/// Offset of the version.
pub const OFFSET_VERS: usize = 4;

/// Offset of the power limits.
pub const OFFSET_P_LIMIT_DATA: usize = 12;

/// Offset of the key info.
pub const OFFSET_KEY_INFO: usize = 28;

/// Offset of the result byte.
pub const OFFSET_RESULT: usize = 40;

/// Offset of the status byte.
pub const OFFSET_STATUS: usize = 41;

/// Offset of the command byte.
pub const OFFSET_DATA8: usize = 42;

/// Offset of the index.
pub const OFFSET_DATA32: usize = 44;

/// Offset of the value.
pub const OFFSET_BYTES: usize = 48;

/// Size, type and attributes of a key.
#[derive(Debug, Clone, Copy, PartialEq, Eq)]
pub struct SMCKeyInfoData {
    pub data_size: u32,
    pub data_type: u32,
    pub data_attributes: u8,
    pub _pad: [u8; 3],
}

/// The parameter block.
#[derive(Debug, Clone, Copy, PartialEq, Eq)]
pub struct SMCParamStruct {
    pub key: u32,
    pub vers: [u8; 6],
    pub _pad_head: [u8; 2],
    pub p_limit_data: [u8; 16],
    pub key_info: SMCKeyInfoData,
    pub result: u8,
    pub status: u8,
    pub data8: u8,
    pub _pad_mid: u8,
    pub data32: u32,
    pub bytes: [u8; 32],
}

/// What a parameter block says. The bytes between the fields are left out.
#[verifier::ext_equal]
pub struct Frame {
    pub key: u32,
    pub vers: Seq<u8>,
    pub p_limit_data: Seq<u8>,
    pub data_size: u32,
    pub data_type: u32,
    pub data_attributes: u8,
    pub result: u8,
    pub status: u8,
    pub data8: u8,
    pub data32: u32,
    pub bytes: Seq<u8>,
}

/// `n` zero bytes.
pub open spec fn zeros(n: nat) -> Seq<u8> {
    Seq::new(n, |i: int| 0u8)
}

/// A frame of zeros.
pub open spec fn blank() -> Frame {
    Frame {
        key: 0,
        vers: zeros(6),
        p_limit_data: zeros(16),
        data_size: 0,
        data_type: 0,
        data_attributes: 0,
        result: 0,
        status: 0,
        data8: 0,
        data32: 0,
        bytes: zeros(32),
    }
}

impl Frame {
    /// The frame as it goes over the wire.
    pub open spec fn encoded(self) -> Seq<u8> {
        bytes_of(self.key) + self.vers + zeros(2) + self.p_limit_data + bytes_of(self.data_size)
            + bytes_of(self.data_type) + seq![self.data_attributes] + zeros(3) + seq![
            self.result,
            self.status,
            self.data8,
            0u8,
        ] + bytes_of(self.data32) + self.bytes
    }
}

/// What 80 bytes from the wire say.
pub open spec fn decoded(b: Seq<u8>) -> Frame {
    Frame {
        key: little_endian(b.subrange(0, 4)),
        vers: b.subrange(4, 10),
        p_limit_data: b.subrange(12, 28),
        data_size: little_endian(b.subrange(28, 32)),
        data_type: little_endian(b.subrange(32, 36)),
        data_attributes: b[36],
        result: b[40],
        status: b[41],
        data8: b[42],
        data32: little_endian(b.subrange(44, 48)),
        bytes: b.subrange(48, 80),
    }
}

/// Copies `src` to `out[at ..]`.
fn put(out: &mut [u8; 80], at: usize, src: &[u8])
    requires
        at + src@.len() <= 80,
    ensures
        forall|i: int|
            0 <= i < 80 ==> #[trigger] final(out)@[i] == if at <= i < at + src@.len() {
                src@[i - at]
            } else {
                old(out)@[i]
            },
{
    let mut k: usize = 0;
    while k < src.len()
        invariant
            k <= src@.len(),
            at + src@.len() <= 80,
            forall|i: int|
                0 <= i < 80 ==> #[trigger] out@[i] == if at <= i < at + k {
                    src@[i - at]
                } else {
                    old(out)@[i]
                },
        decreases src.len() - k,
    {
        out[at + k] = src[k];
        k = k + 1;
    }
}

fn word_at(b: &[u8; 80], at: usize) -> (r: u32)
    requires
        at + 4 <= 80,
    ensures
        r == little_endian(b@.subrange(at as int, at + 4)),
{
    b[at] as u32 + b[at + 1] as u32 * 0x100 + b[at + 2] as u32 * 0x1_0000 + b[at + 3] as u32
        * 0x100_0000
}

impl SMCParamStruct {
    /// What the block says.
    pub open spec fn view(&self) -> Frame {
        Frame {
            key: self.key,
            vers: self.vers@,
            p_limit_data: self.p_limit_data@,
            data_size: self.key_info.data_size,
            data_type: self.key_info.data_type,
            data_attributes: self.key_info.data_attributes,
            result: self.result,
            status: self.status,
            data8: self.data8,
            data32: self.data32,
            bytes: self.bytes@,
        }
    }

    /// A block of zeros.
    pub fn zeroed() -> (r: SMCParamStruct)
        ensures
            r@ == blank(),
    {
        let r: SMCParamStruct = SMCParamStruct {
            key: 0,
            vers: [0; 6],
            _pad_head: [0; 2],
            p_limit_data: [0; 16],
            key_info: SMCKeyInfoData {
                data_size: 0,
                data_type: 0,
                data_attributes: 0,
                _pad: [0; 3],
            },
            result: 0,
            status: 0,
            data8: 0,
            _pad_mid: 0,
            data32: 0,
            bytes: [0; 32],
        };
        assert(r@ =~= blank());
        r
    }

    /// A block for a command on a key whose size and type are known.
    pub fn for_key(cmd: u8, key: u32, data_size: u32, data_type: u32) -> (r: SMCParamStruct)
        ensures
            r@ == (Frame { key, data_size, data_type, data8: cmd, ..blank() }),
    {
        let mut r: SMCParamStruct = SMCParamStruct::zeroed();
        r.key = key;
        r.key_info.data_size = data_size;
        r.key_info.data_type = data_type;
        r.data8 = cmd;
        assert(r@ =~= (Frame { key, data_size, data_type, data8: cmd, ..blank() }));
        r
    }

    /// A block for a command on an index.
    pub fn for_index(cmd: u8, index: u32) -> (r: SMCParamStruct)
        ensures
            r@ == (Frame { data32: index, data8: cmd, ..blank() }),
    {
        let mut r: SMCParamStruct = SMCParamStruct::zeroed();
        r.data32 = index;
        r.data8 = cmd;
        assert(r@ =~= (Frame { data32: index, data8: cmd, ..blank() }));
        r
    }

    /// Puts a value of at most 32 bytes into the block.
    pub fn set_value(&mut self, value: &[u8])
        requires
            value@.len() <= 32,
        ensures
            final(self)@ == (Frame { bytes: value_bytes(value@, old(self)@.bytes), ..old(self)@ }),
    {
        let mut k: usize = 0;
        while k < value.len()
            invariant
                k <= value@.len() <= 32,
                old(self)@.bytes.len() == 32,
                self@ == (Frame {
                    bytes: value_bytes(value@.take(k as int), old(self)@.bytes),
                    ..old(self)@
                }),
            decreases value.len() - k,
        {
            self.bytes[k] = value[k];
            assert(self@ =~= (Frame {
                bytes: value_bytes(value@.take(k + 1), old(self)@.bytes),
                ..old(self)@
            }));
            k = k + 1;
        }
        assert(value@.take(value@.len() as int) =~= value@);
    }

    /// The block as it goes over the wire.
    pub fn to_bytes(&self) -> (r: [u8; 80])
        ensures
            r@ == self@.encoded(),
    {
        let mut out: [u8; 80] = [0; 80];
        let key: [u8; 4] = to_le(self.key);
        let size: [u8; 4] = to_le(self.key_info.data_size);
        let kind: [u8; 4] = to_le(self.key_info.data_type);
        let index: [u8; 4] = to_le(self.data32);
        put(&mut out, OFFSET_KEY, key.as_slice());
        put(&mut out, OFFSET_VERS, self.vers.as_slice());
        put(&mut out, OFFSET_P_LIMIT_DATA, self.p_limit_data.as_slice());
        put(&mut out, OFFSET_KEY_INFO, size.as_slice());
        put(&mut out, OFFSET_KEY_INFO + 4, kind.as_slice());
        out[OFFSET_KEY_INFO + 8] = self.key_info.data_attributes;
        out[OFFSET_RESULT] = self.result;
        out[OFFSET_STATUS] = self.status;
        out[OFFSET_DATA8] = self.data8;
        put(&mut out, OFFSET_DATA32, index.as_slice());
        put(&mut out, OFFSET_BYTES, self.bytes.as_slice());
        assert(out@ =~= self@.encoded());
        out
    }

    /// The block that 80 bytes from the wire stand for.
    pub fn from_bytes(b: &[u8; 80]) -> (r: SMCParamStruct)
        ensures
            r@ == decoded(b@),
    {
        let mut r: SMCParamStruct = SMCParamStruct::zeroed();
        r.key = word_at(b, OFFSET_KEY);
        r.vers = [b[4], b[5], b[6], b[7], b[8], b[9]];
        let mut k: usize = 0;
        while k < 16
            invariant
                k <= 16,
                forall|i: int| 0 <= i < k ==> r.p_limit_data@[i] == b@[12 + i],
                r.vers@ =~= b@.subrange(4, 10),
                r.key == little_endian(b@.subrange(0, 4)),
            decreases 16 - k,
        {
            r.p_limit_data[k] = b[OFFSET_P_LIMIT_DATA + k];
            k = k + 1;
        }
        r.key_info.data_size = word_at(b, OFFSET_KEY_INFO);
        r.key_info.data_type = word_at(b, OFFSET_KEY_INFO + 4);
        r.key_info.data_attributes = b[OFFSET_KEY_INFO + 8];
        r.result = b[OFFSET_RESULT];
        r.status = b[OFFSET_STATUS];
        r.data8 = b[OFFSET_DATA8];
        r.data32 = word_at(b, OFFSET_DATA32);
        let mut value: [u8; 32] = [0; 32];
        let mut j: usize = 0;
        while j < 32
            invariant
                j <= 32,
                forall|i: int| 0 <= i < j ==> value@[i] == b@[48 + i],
            decreases 32 - j,
        {
            value[j] = b[OFFSET_BYTES + j];
            j = j + 1;
        }
        r.bytes = value;
        assert(r@ =~= decoded(b@));
        r
    }
}

/// A value in front of what was in the block before.
pub open spec fn value_bytes(value: Seq<u8>, before: Seq<u8>) -> Seq<u8> {
    Seq::new(
        before.len(),
        |i: int|
            if i < value.len() {
                value[i]
            } else {
                before[i]
            },
    )
}

/// Decoding gives back what was encoded.
pub proof fn law_param_round_trip(f: Frame)
    requires
        f.vers.len() == 6,
        f.p_limit_data.len() == 16,
        f.bytes.len() == 32,
    ensures
        f.encoded().len() == 80,
        decoded(f.encoded()) == f,
{
    let e = f.encoded();
    super::types::law_flt_round_trip(f.key);
    super::types::law_flt_round_trip(f.data_size);
    super::types::law_flt_round_trip(f.data_type);
    super::types::law_flt_round_trip(f.data32);
    assert(e.subrange(0, 4) =~= bytes_of(f.key));
    assert(e.subrange(28, 32) =~= bytes_of(f.data_size));
    assert(e.subrange(32, 36) =~= bytes_of(f.data_type));
    assert(e.subrange(44, 48) =~= bytes_of(f.data32));
    assert(decoded(e) =~= f);
}

} // verus!
