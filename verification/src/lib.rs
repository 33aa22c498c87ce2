//! Produce and consume randomness.
//!
//! The crate offers random number generators ([`rng`]), a rich consumer
//! interface over any generator ([`Random`]) and probability distributions
//! built on the raw word stream ([`distr`]).
//!
//! Every generator is a deterministic state machine: the contracts say which
//! word each state yields and which state follows it, so that whatever is
//! sampled is a function of the generator's state alone.
use vstd::prelude::*;

pub mod distr;
pub mod rng;
mod random;

pub use self::distr::Distribution;
pub use self::random::Random;
pub use self::rng::Rng;

verus! {

/// Creates a new instance of the default PRNG, seeded securely from the
/// system entropy source.
///
/// Fails where the system cannot provide secure entropy.
pub fn new() -> (r: Result<Random<rng::Xoshiro256>, rng::EntropyError>)
    ensures
        r matches Ok(rand) ==> exists|bytes: Seq<u8>|
            bytes.len() == 32 && rand@@ == #[trigger] rng::xoshiro256::bytes_state(bytes),
        r matches Err(e) ==> e == rng::EntropyError::NotReady,
{
    rng::Xoshiro256::new()
}

/// Creates a new instance of the default PRNG with the given seed.
///
/// The seed does not need to look random: the splitting mixer expands it.
/// The same seed always produces the same sequence of randomness.
pub fn seeded(seed: u64) -> (rand: Random<rng::Xoshiro256>)
    ensures
        rand@@ == rng::xoshiro256::seed_state(seed),
{
    rng::Xoshiro256::from_seed(seed)
}

/// Creates a new cryptographically secure PRNG, seeded securely from the
/// system entropy source.
///
/// Fails where the system cannot provide secure entropy.
pub fn csprng() -> (r: Result<Random<rng::ChaCha12>, rng::EntropyError>)
    ensures
        r matches Ok(rand) ==> rand@@.index == rng::block::EXHAUSTED && exists|bytes: Seq<u8>|
            bytes.len() == 48 && rand@@.state@ == #[trigger] rng::chacha::bytes_view(bytes),
        r matches Err(e) ==> e == rng::EntropyError::NotReady,
{
    rng::ChaCha12::new()
}

} // verus!
