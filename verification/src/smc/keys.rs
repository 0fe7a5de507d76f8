//! SMC commands, type tags, and the keys that may be written.

use vstd::prelude::*;

verus! {

/// Read the value of a key.
pub const SMC_CMD_READ_KEY: u8 = 5;

/// Write the value of a key.
pub const SMC_CMD_WRITE_KEY: u8 = 6;

/// Look up the key at an index.
pub const SMC_CMD_GET_KEY_FROM_IDX: u8 = 8;

/// Read size and type of a key.
pub const SMC_CMD_GET_KEY_INFO: u8 = 9;

/// Type tag `flt `.
pub const TYPE_FLT: u32 = 0x666C_7420;

/// Type tag `ui8 `.
pub const TYPE_UI8: u32 = 0x7569_3820;

/// Type tag `ui32`.
pub const TYPE_UI32: u32 = 0x7569_3332;

/// Key `Ftst`, the diagnostic unlock.
pub const KEY_FTST: u32 = 0x4674_7374;

/// Key `FNum`, the number of fans.
pub const KEY_FNUM: u32 = 0x464E_756D;

/// Key `#KEY`, the number of keys.
pub const KEY_COUNT: u32 = 0x234B_4559;

/// Attribute bit of keys that can be written.
pub const ATTR_WRITABLE: u8 = 0x40;

/// `F`
pub const UPPER_F: u8 = 70;

/// `D`
pub const UPPER_D: u8 = 68;

/// `M`
pub const UPPER_M: u8 = 77;

/// `A`
pub const UPPER_A: u8 = 65;

/// `S`
pub const UPPER_S: u8 = 83;

/// `c`
pub const LOWER_C: u8 = 99;

/// `d`
pub const LOWER_D: u8 = 100;

/// `f`
pub const LOWER_F: u8 = 102;

/// `m`
pub const LOWER_M: u8 = 109;

/// `g`
pub const LOWER_G: u8 = 103;

/// `T`
pub const UPPER_T: u8 = 84;

/// `n`
pub const LOWER_N: u8 = 110;

/// `x`
pub const LOWER_X: u8 = 120;

/// Four characters as one number, the first in the highest byte.
pub open spec fn fourcc_of(a: u8, b: u8, c: u8, d: u8) -> u32 {
    (a * 0x100_0000 + b * 0x1_0000 + c * 0x100 + d) as u32
}

/// Four characters as one number, the first in the highest byte.
pub fn fourcc_from(a: u8, b: u8, c: u8, d: u8) -> (r: u32)
    ensures
        r == fourcc_of(a, b, c, d),
        r == a * 0x100_0000 + b * 0x1_0000 + c * 0x100 + d,
{
    (a as u32) * 0x100_0000 + (b as u32) * 0x1_0000 + (c as u32) * 0x100 + (d as u32)
}

/// The character of a fan index: `'0'` for the first, counting on from there.
pub open spec fn index_char(index: u8) -> u8 {
    (if 48 + index <= 255 { 48 + index } else { 48 + index - 256 }) as u8
}

/// The key `F<index><c3><c4>`.
pub open spec fn fan_fourcc(index: u8, c3: u8, c4: u8) -> u32 {
    fourcc_of(UPPER_F, index_char(index), c3, c4)
}

/// The key `F<index>md`: 0 leaves the fan to the firmware, 1 is forced.
pub open spec fn fan_mode_fourcc(index: u8) -> u32 {
    fan_fourcc(index, LOWER_M, LOWER_D)
}

/// The key `F<index>Dc`: the duty cycle of a forced fan.
pub open spec fn fan_duty_fourcc(index: u8) -> u32 {
    fan_fourcc(index, UPPER_D, LOWER_C)
}

enum WritableKeyInner {
    FanMode(u8),
    FanTarget(u8),
    Ftst,
}

/// A key that may be written. There are three kinds, and no way to make a
/// value for any other key:
/// - the mode of a fan, `F<i>md`;
/// - the duty cycle of a fan, `F<i>Dc`;
/// - the diagnostic unlock, `Ftst`.
pub struct WritableKey {
    inner: WritableKeyInner,
}

/// What a writable key stands for.
pub enum Target {
    FanMode(u8),
    FanDuty(u8),
    Unlock,
}

impl Target {
    /// The key.
    pub open spec fn fourcc(self) -> u32 {
        match self {
            Target::FanMode(i) => fan_mode_fourcc(i),
            Target::FanDuty(i) => fan_duty_fourcc(i),
            Target::Unlock => KEY_FTST,
        }
    }

    /// The type of its value.
    pub open spec fn data_type(self) -> u32 {
        match self {
            Target::FanMode(_) => TYPE_UI8,
            Target::FanDuty(_) => TYPE_FLT,
            Target::Unlock => TYPE_UI8,
        }
    }
}

impl WritableKey {
    /// What this key stands for.
    pub closed spec fn view(&self) -> Target {
        match self.inner {
            WritableKeyInner::FanMode(i) => Target::FanMode(i),
            WritableKeyInner::FanTarget(i) => Target::FanDuty(i),
            WritableKeyInner::Ftst => Target::Unlock,
        }
    }

    /// The mode of fan `i`.
    #[must_use]
    pub fn fan_mode(i: u8) -> (r: WritableKey)
        ensures
            r@ == Target::FanMode(i),
    {
        WritableKey { inner: WritableKeyInner::FanMode(i) }
    }

    /// The duty cycle of fan `i`.
    #[must_use]
    pub fn fan_target(i: u8) -> (r: WritableKey)
        ensures
            r@ == Target::FanDuty(i),
    {
        WritableKey { inner: WritableKeyInner::FanTarget(i) }
    }

    /// The diagnostic unlock.
    #[must_use]
    pub fn ftst() -> (r: WritableKey)
        ensures
            r@ == Target::Unlock,
    {
        WritableKey { inner: WritableKeyInner::Ftst }
    }

    /// The key that is written.
    #[must_use]
    pub fn fourcc(&self) -> (r: u32)
        ensures
            r == self@.fourcc(),
    {
        match self.inner {
            WritableKeyInner::FanMode(i) => fan_key_fourcc(LOWER_M, LOWER_D, i),
            WritableKeyInner::FanTarget(i) => fan_key_fourcc(UPPER_D, LOWER_C, i),
            WritableKeyInner::Ftst => KEY_FTST,
        }
    }

    /// The type of its value.
    #[must_use]
    pub fn data_type(&self) -> (r: u32)
        ensures
            r == self@.data_type(),
    {
        match self.inner {
            WritableKeyInner::FanMode(_) => TYPE_UI8,
            WritableKeyInner::FanTarget(_) => TYPE_FLT,
            WritableKeyInner::Ftst => TYPE_UI8,
        }
    }
}

/// The key `F<index><c3><c4>`.
#[must_use]
pub fn fan_key_fourcc(c3: u8, c4: u8, index: u8) -> (r: u32)
    ensures
        r == fan_fourcc(index, c3, c4),
{
    let idx_char: u8 = 48u8.wrapping_add(index);
    fourcc_from(UPPER_F, idx_char, c3, c4)
}

/// The number of kinds of writable keys.
#[must_use]
pub fn variant_count() -> (r: usize)
    ensures
        r == 3,
{
    let last: WritableKeyInner = WritableKeyInner::Ftst;
    match last {
        WritableKeyInner::FanMode(_) => 1,
        WritableKeyInner::FanTarget(_) => 2,
        WritableKeyInner::Ftst => 3,
    }
}

/// The keys of different fans, and of different kinds, are different.
pub proof fn law_targets_have_distinct_keys(a: Target, b: Target)
    requires
        a.fourcc() == b.fourcc(),
    ensures
        a == b,
{
}

} // verus!
