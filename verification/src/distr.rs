//! Generating random samples from probability distributions.
//!
//! A distribution is an immutable description; sampling takes the words it
//! needs from a generator and turns them into a value. What is sampled is
//! fixed by the generator's state.
use vstd::prelude::*;

use crate::random::Random;
use crate::rng::Rng;

pub mod alnum;
pub mod bernoulli;
pub mod chooser;
pub mod dice;
pub mod float01;
pub mod mapped;
pub mod uniform;
pub mod ziggurat;

pub use self::alnum::{Alnum, Alphanumeric};
pub use self::bernoulli::Bernoulli;
pub use self::chooser::Choose;
pub use self::dice::Dice;
pub use self::float01::Float01;
pub use self::mapped::Mapped;
pub use self::uniform::integer::UniformInt;
pub use self::uniform::UniformError;

verus! {

/// Types (distributions) that can be used to create a random instance of `T`
/// from the words of a generator `R`.
pub trait Distribution<T, R: Rng> {
    /// Whether sampling may return `value` and leave the generator in the
    /// state `after` when it finds it in the state `before`. A distribution
    /// says what this is; where it does not, nothing is known of it.
    open spec fn sampled(&self, before: R, value: T, after: R) -> bool {
        arbitrary()
    }

    /// Generates a random value of `T`, using `rand` as the source of randomness.
    fn sample(&self, rand: &mut Random<R>) -> (value: T)
        ensures
            self.sampled(old(rand)@, value, final(rand)@),
    ;
}

} // verus!
