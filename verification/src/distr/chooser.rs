use vstd::prelude::*;

use crate::distr::uniform::integer::UniformInt;
use crate::distr::Distribution;
use crate::random::Random;
use crate::rng::Rng;

verus! {

/// Uniform distribution over the elements of a slice that is not empty.
#[derive(Debug)]
pub struct Choose<'a, T> {
    slice: &'a [T],
    range: UniformInt<usize>,
}

impl<'a, T> Choose<'a, T> {
    /// What every instance holds: the sampler gives the indexes of the slice.
    #[verifier::type_invariant]
    pub closed spec fn inv(self) -> bool {
        self.range.low() == 0 && self.range.count() == self.slice@.len()
    }

    /// The elements to choose from.
    pub closed spec fn elements(&self) -> Seq<T> {
        self.slice@
    }

    /// The sampler of the index.
    pub closed spec fn sampler(&self) -> UniformInt<usize> {
        self.range
    }

    /// A distribution over the elements of `slice`.
    pub fn new(slice: &'a [T]) -> (distr: Choose<'a, T>)
        requires
            slice@.len() > 0,
        ensures
            distr.elements() == slice@,
            distr.sampler().low() == 0,
            distr.sampler().count() == slice@.len(),
    {
        let range = UniformInt::new(0, slice.len());
        Choose { slice, range }
    }
}

impl<'a, T, R: Rng> Distribution<&'a T, R> for Choose<'a, T> {
    /// The element at the index that the sampler gives.
    open spec fn sampled(&self, before: R, value: &'a T, after: R) -> bool {
        exists|index: usize|
            #![trigger self.sampler().sampled(before, index, after)]
            self.sampler().sampled(before, index, after) && index < self.elements().len()
                && *value == self.elements()[index as int]
    }

    fn sample(&self, rand: &mut Random<R>) -> (value: &'a T) {
        proof {
            use_type_invariant(self);
        }
        let index = self.range.sample(rand);
        assert(self.sampler().sampled(old(rand)@, index, rand@));
        &self.slice[index]
    }
}

} // verus!
