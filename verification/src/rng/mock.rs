use vstd::prelude::*;

use crate::random::Random;
use crate::rng::util::{
    low32, spec_low32, stream_bytes, stream_rest, unit_f32_bits, unit_f64_bits,
};
use crate::rng::{Rng, WordSource};

verus! {

/// Random number generator mock.
///
/// Hands out the given words in their order, over and over. `next_u32` keeps
/// the lower half of a word. A mock without words yields zeros.
#[derive(Debug)]
pub struct Mock {
    values: Vec<u64>,
    next: usize,
}

impl Clone for Mock {
    fn clone(&self) -> (copy: Self)
        ensures
            copy.values() == self.values(),
            copy.position() == self.position(),
    {
        Mock { values: self.values.clone(), next: self.next }
    }
}

impl Mock {
    /// The words that the mock hands out.
    pub closed spec fn values(&self) -> Seq<u64> {
        self.values@
    }

    /// The index of the next word, where it is below the number of words.
    pub closed spec fn position(&self) -> nat {
        self.next as nat
    }

    /// This mock with its next word at `next`.
    pub closed spec fn at(&self, next: nat) -> Mock {
        Mock { values: self.values, next: next as usize }
    }

    /// Moving the position of a mock changes nothing else.
    pub broadcast proof fn lemma_at(&self, next: nat)
        ensures
            #[trigger] self.at(next).values() == self.values(),
            next <= usize::MAX ==> self.at(next).position() == next,
            self.at(self.position()) == *self,
    {
    }

    /// Produces the values of the slice, in their order and over again, as
    /// the underlying random number generator.
    pub fn slice(slice: &[u64]) -> (rand: Random<Mock>)
        ensures
            rand@.values() == slice@,
            rand@.position() == 0,
    {
        Random::wrap(Mock { values: vstd::slice::slice_to_vec(slice), next: 0 })
    }

    /// Produces the same random number repeatedly as the underlying random
    /// number generator.
    pub fn repeat(value: u64) -> (rand: Random<Mock>)
        ensures
            rand@.values() == seq![value],
            rand@.position() == 0,
    {
        let mut values: Vec<u64> = Vec::new();
        values.push(value);
        assert(values@ =~= seq![value]);
        Random::wrap(Mock { values, next: 0 })
    }
}

impl WordSource for Mock {
    open spec fn spec_word(&self) -> (u64, Self) {
        if self.values().len() == 0 {
            (0, *self)
        } else {
            let i = self.position() % self.values().len();
            (self.values()[i as int], self.at((i + 1) % self.values().len()))
        }
    }

    fn word(&mut self) -> (value: u64) {
        let len = self.values.len();
        if len == 0 {
            return 0;
        }
        let i = self.next % len;
        let value = self.values[i];
        self.next = (i + 1) % len;
        value
    }
}

impl Rng for Mock {
    open spec fn spec_next_u32(&self) -> (u32, Self) {
        (spec_low32(self.spec_word().0), self.spec_word().1)
    }

    open spec fn spec_next_u64(&self) -> (u64, Self) {
        self.spec_word()
    }

    open spec fn spec_fill_bytes(&self, len: nat) -> (Seq<u8>, Self) {
        (stream_bytes(*self, len), stream_rest(*self, len))
    }

    /// A mock has nowhere to jump to: the state stays.
    open spec fn spec_jump(&self) -> Self {
        *self
    }

    fn next_u32(&mut self) -> (value: u32) {
        low32(self.word())
    }

    fn next_u64(&mut self) -> (value: u64) {
        self.word()
    }

    fn next_f32_bits(&mut self) -> (bits: u32) {
        unit_f32_bits(self.next_u32())
    }

    fn next_f64_bits(&mut self) -> (bits: u64) {
        unit_f64_bits(self.next_u64())
    }

    fn fill_bytes(&mut self, buf: &mut [u8]) {
        crate::rng::util::rng_fill_bytes(self, buf);
    }

    fn jump(&mut self) {
    }
}

} // verus!
