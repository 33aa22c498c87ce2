use vstd::prelude::*;

use crate::distr::Distribution;
use crate::random::Random;
use crate::rng::Rng;

verus! {

/// Uniform distribution of floats in the open interval `(0, 1)`, as IEEE 754
/// bit patterns.
///
/// Halving a float takes one off its exponent, and with a given exponent the
/// mantissa covers all values between two powers of two. So the exponent is
/// found by flipping coins: it starts at that of `[0.5, 1.0)` and goes down
/// by one for every tails before the first heads. The coins are the bits of
/// one 64-bit word, and the tails before the first heads are its leading
/// zeros. The mantissa comes from a second call of the generator, so that no
/// bit of it is lost to the exponent.
///
/// Sampling as a [`Distribution`] gives the bits of an `f64`, `sample_f32`
/// those of an `f32`.
#[derive(Clone, Copy, Debug)]
pub struct Float01;

/// The bits of the `f32` whose exponent the leading zeros of `coins` pick
/// and whose mantissa is that of the float with the bits `unit`.
pub open spec fn spec_float01_f32(coins: u64, unit: u32) -> u32 {
    (((126 - vstd::std_specs::bits::u64_leading_zeros(coins)) as u32) << 23u32) | (unit
        & 0x007f_ffffu32)
}

/// The bits of the `f64` whose exponent the leading zeros of `coins` pick
/// and whose mantissa is that of the float with the bits `unit`.
pub open spec fn spec_float01_f64(coins: u64, unit: u64) -> u64 {
    (((1022 - vstd::std_specs::bits::u64_leading_zeros(coins)) as u64) << 52u64) | (unit
        & 0x000f_ffff_ffff_ffffu64)
}

/// Replaces the exponent field of the `f32` bits `value` by `exp`.
pub fn replace_exponent_f32(value: u32, exp: u32) -> (bits: u32)
    requires
        0 < exp < 127,
    ensures
        bits == (exp << 23u32) | (value & 0x007f_ffffu32),
        exp * 0x0080_0000 <= bits < (exp + 1) * 0x0080_0000,
{
    let mantissa = value & 0x007f_ffffu32;
    let bits = (exp << 23u32) | mantissa;
    assert(exp * 0x0080_0000 <= ((exp << 23u32) | (value & 0x007f_ffffu32)) < (exp + 1)
        * 0x0080_0000) by (bit_vector)
        requires
            0 < exp < 127,
    ;
    bits
}

/// Replaces the exponent field of the `f64` bits `value` by `exp`.
pub fn replace_exponent_f64(value: u64, exp: u64) -> (bits: u64)
    requires
        0 < exp < 1023,
    ensures
        bits == (exp << 52u64) | (value & 0x000f_ffff_ffff_ffffu64),
        exp * 0x0010_0000_0000_0000 <= bits < (exp + 1) * 0x0010_0000_0000_0000,
{
    let mantissa = value & 0x000f_ffff_ffff_ffffu64;
    let bits = (exp << 52u64) | mantissa;
    assert(exp * 0x0010_0000_0000_0000 <= ((exp << 52u64) | (value & 0x000f_ffff_ffff_ffffu64)) < (
    exp + 1) * 0x0010_0000_0000_0000) by (bit_vector)
        requires
            0 < exp < 1023,
    ;
    bits
}

/// The bits of a sample lie between those of 2^-65 and those of the largest
/// `f32` below one, whatever the two words are: the float is never zero and
/// never one.
pub proof fn lemma_float01_f32(coins: u64, unit: u32)
    ensures
        0x1f00_0000 <= spec_float01_f32(coins, unit) < 0x3f80_0000,
{
    vstd::std_specs::bits::axiom_u64_leading_zeros(coins);
    let exp = (126 - vstd::std_specs::bits::u64_leading_zeros(coins)) as u32;
    assert(exp * 0x0080_0000 <= ((exp << 23u32) | (unit & 0x007f_ffffu32)) < (exp + 1)
        * 0x0080_0000) by (bit_vector)
        requires
            0 < exp < 127,
    ;
}

/// The bits of a sample lie between those of 2^-65 and those of the largest
/// `f64` below one, whatever the two words are: the float is never zero and
/// never one.
pub proof fn lemma_float01_f64(coins: u64, unit: u64)
    ensures
        0x3be0_0000_0000_0000 <= spec_float01_f64(coins, unit) < 0x3ff0_0000_0000_0000,
{
    vstd::std_specs::bits::axiom_u64_leading_zeros(coins);
    let exp = (1022 - vstd::std_specs::bits::u64_leading_zeros(coins)) as u64;
    assert(exp * 0x0010_0000_0000_0000 <= ((exp << 52u64) | (unit & 0x000f_ffff_ffff_ffffu64)) < (
    exp + 1) * 0x0010_0000_0000_0000) by (bit_vector)
        requires
            0 < exp < 1023,
    ;
}

impl Float01 {
    /// Samples the bits of an `f32`: one `next_u64` for the exponent and one
    /// `next_f32_bits` for the mantissa.
    ///
    /// The bits lie between those of 2^-65 and those of the largest `f32`
    /// below one: the float is neither zero nor one.
    pub fn sample_f32<R: Rng>(&self, rand: &mut Random<R>) -> (value: u32)
        ensures
            value == spec_float01_f32(
                old(rand)@.spec_next_u64().0,
                old(rand)@.spec_next_u64().1.spec_next_f32_bits().0,
            ),
            final(rand)@ == old(rand)@.spec_next_u64().1.spec_next_f32_bits().1,
            0x1f00_0000 <= value < 0x3f80_0000,
    {
        let coins = rand.next_u64();
        proof {
            vstd::std_specs::bits::axiom_u64_leading_zeros(coins);
        }
        let exp = 126 - coins.leading_zeros();
        let unit = rand.next_f32_bits();
        replace_exponent_f32(unit, exp)
    }
}

impl<R: Rng> Distribution<u64, R> for Float01 {
    /// One `next_u64` for the exponent and one `next_f64_bits` for the
    /// mantissa.
    open spec fn sampled(&self, before: R, value: u64, after: R) -> bool {
        let coins = before.spec_next_u64();
        let unit = coins.1.spec_next_f64_bits();
        value == spec_float01_f64(coins.0, unit.0) && after == unit.1
    }

    /// The bits lie between those of 2^-65 and those of the largest `f64`
    /// below one: the float is neither zero nor one.
    fn sample(&self, rand: &mut Random<R>) -> (value: u64)
        ensures
            0x3be0_0000_0000_0000 <= value < 0x3ff0_0000_0000_0000,
    {
        let coins = rand.next_u64();
        proof {
            vstd::std_specs::bits::axiom_u64_leading_zeros(coins);
        }
        let exp = 1022 - coins.leading_zeros();
        let unit = rand.next_f64_bits();
        replace_exponent_f64(unit, exp as u64)
    }
}

} // verus!
