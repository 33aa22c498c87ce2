use vstd::prelude::*;

use crate::distr::float01::Float01;
use crate::distr::Distribution;
use crate::random::Random;
use crate::rng::Rng;

verus! {

/// The bits of positive infinity; bits above it, the sign aside, are no number.
pub const INFINITY_BITS: u64 = 0x7ff0_0000_0000_0000;

/// The bits of `1.0`.
pub const ONE_BITS: u64 = 0x3ff0_0000_0000_0000;

/// The bit that tells a negative float.
pub const SIGN_BIT: u64 = 0x8000_0000_0000_0000;

/// The Bernoulli distribution: `true` with the probability `p`.
///
/// The probability is held as the IEEE 754 bit pattern of an `f64`.
#[derive(Clone, Copy, Debug)]
pub struct Bernoulli {
    p: u64,
}

/// Whether the float with the bits `x`, which lies strictly between zero and
/// one, is at most the float with the bits `p`.
///
/// Floats without a sign are ordered as their bits are. A `p` with the sign
/// set is at most zero and so below `x`, and a `p` that is no number
/// compares false with everything.
pub open spec fn spec_at_most(x: u64, p: u64) -> bool {
    p <= INFINITY_BITS && x <= p
}

/// Whether the bits are those of a float of at least one, infinity included.
pub open spec fn at_least_one(p: u64) -> bool {
    ONE_BITS <= p <= INFINITY_BITS
}

/// Whether the bits are those of a float of at most zero: zero of either
/// sign, or a negative number down to negative infinity.
pub open spec fn at_most_zero(p: u64) -> bool {
    p == 0 || SIGN_BIT <= p <= 0xfff0_0000_0000_0000
}

impl Bernoulli {
    /// Constructs a new `Bernoulli` whose probability of success `p` is the
    /// `f64` with the given bits.
    ///
    /// For `p >= 1.0` the distribution always generates `true`, for
    /// `p <= 0.0` and for a `p` that is no number always `false`.
    pub fn from_bits(p: u64) -> (distr: Bernoulli)
        ensures
            distr.p_bits() == p,
    {
        Bernoulli { p }
    }

    /// The bits of the probability.
    pub closed spec fn p_bits(&self) -> u64 {
        self.p
    }

    /// Returns the bits of the probability `p` of the distribution.
    pub fn to_bits(&self) -> (p: u64)
        ensures
            p == self.p_bits(),
    {
        self.p
    }
}

impl<R: Rng> Distribution<bool, R> for Bernoulli {
    /// Whether a float from the open interval `(0, 1)` is at most `p`.
    open spec fn sampled(&self, before: R, value: bool, after: R) -> bool {
        exists|x: u64|
            #![trigger Float01.sampled(before, x, after)]
            Float01.sampled(before, x, after) && value == spec_at_most(x, self.p_bits())
    }

    fn sample(&self, rand: &mut Random<R>) -> (value: bool)
        ensures
            at_least_one(self.p_bits()) ==> value,
            at_most_zero(self.p_bits()) ==> !value,
            self.p_bits() & 0x7fff_ffff_ffff_ffff > INFINITY_BITS ==> !value,
    {
        let x: u64 = Float01.sample(rand);
        assert(Float01.sampled(old(rand)@, x, rand@));
        let p = self.p;
        assert(p & 0x7fff_ffff_ffff_ffff > 0x7ff0_0000_0000_0000 ==> p > 0x7ff0_0000_0000_0000)
            by (bit_vector);
        self.p <= INFINITY_BITS && x <= self.p
    }
}

/// A probability of at least one always gives `true`, whatever the state of
/// the generator.
pub proof fn lemma_certain<R: Rng>(distr: Bernoulli, before: R, value: bool, after: R)
    requires
        at_least_one(distr.p_bits()),
        distr.sampled(before, value, after),
    ensures
        value,
{
    let x = choose|x: u64|
        #![trigger Float01.sampled(before, x, after)]
        Float01.sampled(before, x, after) && value == spec_at_most(x, distr.p_bits());
    crate::distr::float01::lemma_float01_f64(
        before.spec_next_u64().0,
        before.spec_next_u64().1.spec_next_f64_bits().0,
    );
}

/// A probability of at most zero always gives `false`, whatever the state of
/// the generator.
pub proof fn lemma_impossible<R: Rng>(distr: Bernoulli, before: R, value: bool, after: R)
    requires
        at_most_zero(distr.p_bits()),
        distr.sampled(before, value, after),
    ensures
        !value,
{
    let x = choose|x: u64|
        #![trigger Float01.sampled(before, x, after)]
        Float01.sampled(before, x, after) && value == spec_at_most(x, distr.p_bits());
    crate::distr::float01::lemma_float01_f64(
        before.spec_next_u64().0,
        before.spec_next_u64().1.spec_next_f64_bits().0,
    );
}

} // verus!
