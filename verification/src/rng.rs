//! Random number generators.
//!
//! Pseudorandom number generators, fast and fit for normal use outside
//! cryptography:
//!
//! * [`Xoshiro256`]: 256 bits of state, large enough for any parallel
//!   application.
//! * [`SplitMix64`]: 64 bits of state; also expands a seed into the state of
//!   the other generators.
//! * [`Wyrand`]: 64 bits of state and a multiplication for every word.
//!
//! Cryptographically secure generators:
//!
//! * [`ChaCha8`], [`ChaCha12`], [`ChaCha20`]: the ChaCha stream cipher as a
//!   generator, buffered block by block ([`block`]).
//! * [`System`]: words straight from the entropy source of the system, which
//!   may fail at any read.
//!
//! Other sources of words:
//!
//! * [`Mock`]: hands out given words.
//! * [`Read`]: decodes recorded bytes.
use vstd::prelude::*;

use crate::rng::util::{spec_unit_f32_bits, spec_unit_f64_bits};

pub mod block;
pub mod chacha;
pub mod entropy;
pub mod fill;
pub mod mock;
pub mod period;
pub mod read;
pub mod util;
pub mod splitmix64;
pub mod system;
pub mod wyrand;
pub mod xoshiro256;

pub use self::entropy::{getentropy, EntropyError};
pub use self::chacha::{ChaCha, ChaCha12, ChaCha20, ChaCha8};
pub use self::mock::Mock;
pub use self::read::Read;
pub use self::splitmix64::SplitMix64;
pub use self::system::System;
pub use self::wyrand::Wyrand;
pub use self::xoshiro256::Xoshiro256;

verus! {

/// Random number generator interface.
///
/// A generator is a state machine. Each operation has a spec function that
/// gives, for a state, what the operation returns and the state it leaves.
/// A generator says what these functions are; where it does not, nothing is
/// known of them.
pub trait Rng: Sized {
    /// The word `next_u32` returns in this state, and the state that follows.
    open spec fn spec_next_u32(&self) -> (u32, Self) {
        arbitrary()
    }

    /// The word `next_u64` returns in this state, and the state that follows.
    open spec fn spec_next_u64(&self) -> (u64, Self) {
        arbitrary()
    }

    /// The bit pattern `next_f32_bits` returns in this state, and the state
    /// that follows. Unless a generator says otherwise, the exponent of `1.0`
    /// with the upper 23 bits of the `next_u32` word as the mantissa.
    open spec fn spec_next_f32_bits(&self) -> (u32, Self) {
        (spec_unit_f32_bits(self.spec_next_u32().0), self.spec_next_u32().1)
    }

    /// The bit pattern `next_f64_bits` returns in this state, and the state
    /// that follows. Unless a generator says otherwise, the exponent of `1.0`
    /// with the upper 52 bits of the `next_u64` word as the mantissa.
    open spec fn spec_next_f64_bits(&self) -> (u64, Self) {
        (spec_unit_f64_bits(self.spec_next_u64().0), self.spec_next_u64().1)
    }

    /// The bytes `fill_bytes` writes into a buffer of `len` bytes, and the state that follows.
    open spec fn spec_fill_bytes(&self, len: nat) -> (Seq<u8>, Self) {
        arbitrary()
    }

    /// The state `jump` leaves.
    open spec fn spec_jump(&self) -> Self {
        arbitrary()
    }

    /// Returns the next `u32` in the sequence.
    fn next_u32(&mut self) -> (value: u32)
        ensures
            (value, *final(self)) == old(self).spec_next_u32(),
    ;

    /// Returns the next `u64` in the sequence.
    fn next_u64(&mut self) -> (value: u64)
        ensures
            (value, *final(self)) == old(self).spec_next_u64(),
    ;

    /// Returns the IEEE 754 single-precision bit pattern of a float in the
    /// half-open interval `[1.0, 2.0)`.
    fn next_f32_bits(&mut self) -> (bits: u32)
        ensures
            (bits, *final(self)) == old(self).spec_next_f32_bits(),
            0x3f80_0000 <= bits < 0x4000_0000,
    ;

    /// Returns the IEEE 754 double-precision bit pattern of a float in the
    /// half-open interval `[1.0, 2.0)`.
    fn next_f64_bits(&mut self) -> (bits: u64)
        ensures
            (bits, *final(self)) == old(self).spec_next_f64_bits(),
            0x3ff0_0000_0000_0000 <= bits < 0x4000_0000_0000_0000,
    ;

    /// Fills the byte slice with random bytes, the same on every platform.
    fn fill_bytes(&mut self, buf: &mut [u8])
        ensures
            final(buf)@.len() == old(buf)@.len(),
            (final(buf)@, *final(self)) == old(self).spec_fill_bytes(old(buf)@.len()),
    ;

    /// Advances the internal state significantly.
    fn jump(&mut self)
        ensures
            *final(self) == old(self).spec_jump(),
    ;
}

/// Marker trait for cryptographically secure random number generators.
pub trait SecureRng: Rng {

}

/// The bare step of a generator that advances one 64-bit word at a time.
///
/// The word generators implement [`Rng`] on top of it; what is shared between
/// them, such as filling a byte buffer, is written once against this trait.
pub trait WordSource: Sized {
    /// The word `word` returns in this state, and the state that follows.
    open spec fn spec_word(&self) -> (u64, Self) {
        arbitrary()
    }

    /// Advances the state by one step and returns its word.
    fn word(&mut self) -> (value: u64)
        ensures
            (value, *final(self)) == old(self).spec_word(),
    ;
}

/// The state of `rng` after `n` calls of `next_u64`.
pub open spec fn skip_u64<R: Rng>(rng: R, n: nat) -> R
    decreases n,
{
    if n == 0 {
        rng
    } else {
        skip_u64(rng, (n - 1) as nat).spec_next_u64().1
    }
}

/// The state of `rng` after `n` calls of `next_u32`.
pub open spec fn skip_u32<R: Rng>(rng: R, n: nat) -> R
    decreases n,
{
    if n == 0 {
        rng
    } else {
        skip_u32(rng, (n - 1) as nat).spec_next_u32().1
    }
}

/// The word that the call of `next_u64` numbered `n`, counting from zero,
/// returns when the calls start in the state `rng`.
pub open spec fn nth_u64<R: Rng>(rng: R, n: nat) -> u64 {
    skip_u64(rng, n).spec_next_u64().0
}

/// The word that the call of `next_u32` numbered `n`, counting from zero,
/// returns when the calls start in the state `rng`.
pub open spec fn nth_u32<R: Rng>(rng: R, n: nat) -> u32 {
    skip_u32(rng, n).spec_next_u32().0
}

} // verus!
