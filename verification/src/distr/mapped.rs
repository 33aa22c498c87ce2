use vstd::prelude::*;

use crate::distr::Distribution;
use crate::random::Random;
use crate::rng::Rng;

verus! {

/// Distribution of values of type `U` derived from the distribution `D`
/// through the function `F`.
#[verifier::reject_recursive_types(T)]
#[verifier::reject_recursive_types(U)]
pub struct Mapped<D, F: Fn(T) -> U, T, U> {
    distr: D,
    f: F,
    _phantom: core::marker::PhantomData<(T, U)>,
}

impl<D, F: Fn(T) -> U, T, U> Mapped<D, F, T, U> {
    /// What every instance holds: the function accepts every value.
    #[verifier::type_invariant]
    pub closed spec fn inv(self) -> bool {
        forall|t: T| call_requires(self.f, (t,))
    }

    /// The distribution whose values are mapped.
    pub closed spec fn inner(&self) -> D {
        self.distr
    }

    /// The function that maps the values.
    pub closed spec fn function(&self) -> F {
        self.f
    }

    /// Creates a distribution of the values of `distr` mapped through `f`,
    /// which is to accept every value.
    pub fn new(distr: D, f: F) -> (mapped: Self)
        requires
            forall|t: T| call_requires(f, (t,)),
        ensures
            mapped.inner() == distr,
            mapped.function() == f,
    {
        Mapped { distr, f, _phantom: core::marker::PhantomData }
    }
}

impl<T, U, R: Rng, D: Distribution<T, R>, F: Fn(T) -> U> Distribution<U, R> for Mapped<D, F, T, U> {
    /// A value of the inner distribution, and what the function may return
    /// for it.
    open spec fn sampled(&self, before: R, value: U, after: R) -> bool {
        exists|t: T|
            #![trigger self.inner().sampled(before, t, after)]
            self.inner().sampled(before, t, after) && call_ensures(self.function(), (t,), value)
    }

    fn sample(&self, rand: &mut Random<R>) -> (value: U) {
        proof {
            use_type_invariant(self);
        }
        let t = self.distr.sample(rand);
        assert(self.inner().sampled(old(rand)@, t, rand@));
        (self.f)(t)
    }
}

} // verus!
