//! Reading a sample from its IEEE 754 binary32 bit pattern.
//!
//! A pattern has one sign bit, eight exponent bits and twenty-three fraction
//! bits, from the top down.

use vstd::prelude::*;

verus! {

/// The sign bit: 1 for patterns with the top bit set.
pub open spec fn sign_field(bits: u32) -> int {
    bits as int / 0x8000_0000
}

/// The eight exponent bits.
pub open spec fn exponent_field(bits: u32) -> int {
    (bits as int / 0x80_0000) % 0x100
}

/// The twenty-three fraction bits.
pub open spec fn fraction_field(bits: u32) -> int {
    bits as int % 0x80_0000
}

/// Not a number: the exponent is all ones and the fraction is not zero.
pub open spec fn is_nan(bits: u32) -> bool {
    exponent_field(bits) == 0xFF && fraction_field(bits) != 0
}

/// Neither an infinity nor a NaN: the exponent is not all ones.
pub open spec fn is_finite(bits: u32) -> bool {
    exponent_field(bits) != 0xFF
}

/// A zero of either sign.
pub open spec fn is_zero(bits: u32) -> bool {
    exponent_field(bits) == 0 && fraction_field(bits) == 0
}

/// Strictly below zero: the sign is set and the value is neither a zero nor
/// a NaN. Samples for which this holds count as inside the surface, all
/// others (zeros and NaNs among them) as outside.
pub open spec fn is_negative(bits: u32) -> bool {
    sign_field(bits) == 1 && !is_zero(bits) && !is_nan(bits)
}

/// Whether the sample with this bit pattern is strictly below zero.
pub fn sample_is_negative(bits: u32) -> (negative: bool)
    ensures
        negative == is_negative(bits),
{
    0x8000_0000 < bits && bits <= 0xFF80_0000
}

/// Whether the sample with this bit pattern is finite.
pub fn sample_is_finite(bits: u32) -> (finite: bool)
    ensures
        finite == is_finite(bits),
{
    let magnitude: u32 = if bits >= 0x8000_0000 {
        bits - 0x8000_0000
    } else {
        bits
    };
    magnitude < 0x7F80_0000
}

/// Whether the pattern is a NaN.
pub fn sample_is_nan(bits: u32) -> (nan: bool)
    ensures
        nan == is_nan(bits),
{
    let magnitude: u32 = if bits >= 0x8000_0000 {
        bits - 0x8000_0000
    } else {
        bits
    };
    magnitude > 0x7F80_0000
}

} // verus!
