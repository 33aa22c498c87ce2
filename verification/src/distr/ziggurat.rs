//! The integer side of the Ziggurat method for the normal and the
//! exponential distribution.
//!
//! One 64-bit word serves a whole attempt: its low eight bits pick one of
//! the 256 layers of the density, and its upper 52 bits are the mantissa of
//! the uniform float that is scaled by the layer's width. What follows is
//! arithmetic on floats, which is not done here.
use vstd::prelude::*;

verus! {

/// The number of layers.
pub const LAYERS: usize = 256;

/// The layer that the word picks: its low eight bits.
pub open spec fn spec_layer(bits: u64) -> usize {
    (bits & 0xff) as usize
}

/// The layer that the word picks.
pub fn layer(bits: u64) -> (i: usize)
    ensures
        i == spec_layer(bits),
        i < LAYERS,
{
    assert(bits & 0xff < 256) by (bit_vector);
    (bits & 0xff) as usize
}

/// The bits of the float whose mantissa holds the upper 52 bits of `bits`
/// and whose exponent is `exp`: a float in `[2^exp, 2^(exp + 1))`.
pub open spec fn spec_float_with_exponent(bits: u64, exp: u64) -> u64 {
    bits >> 12u64 | ((1023 + exp) as u64) << 52u64
}

/// The bits of the float in `[2^exp, 2^(exp + 1))` whose mantissa holds the
/// upper 52 bits of `bits`.
///
/// With an exponent of zero the float lies in `[1, 2)`, with an exponent of
/// one in `[2, 4)`, from where a subtraction leads to `(0, 1)` and to
/// `[-1, 1)`.
pub fn into_float_with_exponent(bits: u64, exp: u64) -> (float: u64)
    requires
        exp < 1024,
    ensures
        float == spec_float_with_exponent(bits, exp),
        (1023 + exp) * 0x0010_0000_0000_0000 <= float < (1024 + exp) * 0x0010_0000_0000_0000,
        float & 0x000f_ffff_ffff_ffff == bits >> 12u64,
{
    let high = 1023 + exp;
    let float = bits >> 12u64 | high << 52u64;
    assert(high * 0x0010_0000_0000_0000 <= (bits >> 12u64 | high << 52u64) < (high + 1)
        * 0x0010_0000_0000_0000 && (bits >> 12u64 | high << 52u64) & 0x000f_ffff_ffff_ffff
        == bits >> 12u64) by (bit_vector)
        requires
            high < 2047,
    ;
    float
}

} // verus!
