use vstd::prelude::*;

use crate::distr::uniform::integer::UniformInt;
use crate::distr::Distribution;
use crate::random::Random;
use crate::rng::Rng;

verus! {

/// Standard uniform dice: the numbers from one up to the number of sides.
#[derive(Clone, Copy, Debug)]
pub struct Dice(UniformInt<u8>);

impl Dice {
    /// The number of sides.
    pub closed spec fn sides(&self) -> int {
        self.0.count()
    }

    /// The sampler of the numbers on the sides.
    pub closed spec fn sampler(&self) -> UniformInt<u8> {
        self.0
    }

    /// Whether the numbers on the sides start at one.
    pub closed spec fn wf(&self) -> bool {
        self.0.low() == 1
    }

    /// Constructs an N-sided dice.
    pub fn new(n: u8) -> (dice: Dice)
        requires
            n >= 1,
        ensures
            dice.wf(),
            dice.sides() == n,
    {
        Dice(UniformInt::new_inclusive(1, n))
    }

    /// 4-sided dice.
    ///
    /// The Caltrop, always lands with the point face up. This dice is numbered 1-4.
    pub fn d4() -> (dice: Dice)
        ensures
            dice.wf(),
            dice.sides() == 4,
    {
        Dice(UniformInt::constant(1, 4))
    }

    /// 6-sided dice.
    ///
    /// Is the standard cube-shaped dice.
    pub fn d6() -> (dice: Dice)
        ensures
            dice.wf(),
            dice.sides() == 6,
    {
        Dice(UniformInt::constant(1, 6))
    }

    /// 8-sided dice.
    pub fn d8() -> (dice: Dice)
        ensures
            dice.wf(),
            dice.sides() == 8,
    {
        Dice(UniformInt::constant(1, 8))
    }

    /// 10-sided dice.
    ///
    /// A combination of two of them can result in moves 1 - 100.
    pub fn d10() -> (dice: Dice)
        ensures
            dice.wf(),
            dice.sides() == 10,
    {
        Dice(UniformInt::constant(1, 10))
    }

    /// 20-sided dice.
    pub fn d20() -> (dice: Dice)
        ensures
            dice.wf(),
            dice.sides() == 20,
    {
        Dice(UniformInt::constant(1, 20))
    }
}

impl<R: Rng> Distribution<i32, R> for Dice {
    /// The number that the sampler of the sides gives.
    open spec fn sampled(&self, before: R, value: i32, after: R) -> bool {
        exists|side: u8|
            #![trigger self.sampler().sampled(before, side, after)]
            self.sampler().sampled(before, side, after) && value == side
    }

    fn sample(&self, rand: &mut Random<R>) -> (value: i32)
        ensures
            self.wf() ==> 1 <= value <= self.sides(),
    {
        let side = self.0.sample(rand);
        assert(self.sampler().sampled(old(rand)@, side, rand@));
        side as i32
    }
}

} // verus!
