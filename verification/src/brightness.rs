//! Brightness values kept as the bit patterns of `f32` numbers, and the
//! comparisons between them that `f32` arithmetic makes.
use vstd::prelude::*;

verus! {

/// The bit pattern of `0.0_f32`.
pub const ZERO: u32 = 0x0000_0000;

/// The bit pattern of `0.5_f32`.
pub const HALF: u32 = 0x3f00_0000;

/// The bit pattern of `0.65_f32`.
pub const POINT_SIX_FIVE: u32 = 0x3f26_6666;

/// The bit pattern of `1.0_f32`.
pub const ONE: u32 = 0x3f80_0000;

/// Whether the bit pattern is that of a NaN: all exponent bits set and a
/// fraction that is not zero.
pub open spec fn is_nan(bits: u32) -> bool {
    (bits & 0x7f80_0000) == 0x7f80_0000 && (bits & 0x007f_ffff) != 0
}

/// An integer that orders the numbers that are not NaN as their values are
/// ordered: the magnitude bits, negated when the sign bit is set (so that the
/// two zeros meet).
pub open spec fn order_key(bits: u32) -> int {
    if bits & 0x8000_0000 != 0 {
        -((bits & 0x7fff_ffff) as int)
    } else {
        bits as int
    }
}

/// `a <= b` between the numbers with these bit patterns, as `f32`
/// comparison decides it: false whenever either is NaN.
pub open spec fn le(a: u32, b: u32) -> bool {
    !is_nan(a) && !is_nan(b) && order_key(a) <= order_key(b)
}

/// Whether `value` lies in the closed range `range.0 ..= range.1`.
pub open spec fn in_range(value: u32, range: (u32, u32)) -> bool {
    le(range.0, value) && le(value, range.1)
}

/// `a <= b` between the numbers with these bit patterns.
pub fn bits_le(a: u32, b: u32) -> (res: bool)
    ensures
        res == le(a, b),
{
    let a_nan = (a & 0x7f80_0000) == 0x7f80_0000 && (a & 0x007f_ffff) != 0;
    let b_nan = (b & 0x7f80_0000) == 0x7f80_0000 && (b & 0x007f_ffff) != 0;
    if a_nan || b_nan {
        return false;
    }
    let ka: i64 = if a & 0x8000_0000 != 0 {
        -((a & 0x7fff_ffff) as i64)
    } else {
        a as i64
    };
    let kb: i64 = if b & 0x8000_0000 != 0 {
        -((b & 0x7fff_ffff) as i64)
    } else {
        b as i64
    };
    ka <= kb
}

/// Whether `value` lies in the closed range `range.0 ..= range.1`.
pub fn bits_in_range(value: u32, range: (u32, u32)) -> (res: bool)
    ensures
        res == in_range(value, range),
{
    bits_le(range.0, value) && bits_le(value, range.1)
}

} // verus!
