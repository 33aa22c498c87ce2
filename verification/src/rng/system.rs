use vstd::prelude::*;

use crate::rng::entropy::{getentropy, EntropyError};
use crate::rng::util::{spec_u32_from_le, u32_from_le};

verus! {

/// The cursor of a [`System`] whose words are used up or were never fetched.
pub const EXHAUSTED: u32 = 0xffff_ffff;

/// Randomness directly from the system entropy source.
///
/// For performance reasons this generator fetches entropy in blocks of `N`
/// 32-bit words. The bigger `N` is, the less often the system entropy source
/// is called.
///
/// The source may fail at any fetch, so every read may fail: this is no
/// [`Rng`](crate::rng::Rng).
#[derive(Debug)]
pub struct System<const N: usize> {
    index: u32,
    random: [u32; N],
}

impl<const N: usize> System<N> {
    /// The number of buffered words that are used up.
    pub closed spec fn cursor(&self) -> u32 {
        self.index
    }

    /// The buffered words.
    pub closed spec fn words(&self) -> Seq<u32> {
        self.random@
    }

    /// Creates a new instance with nothing fetched.
    pub fn new() -> (rand: System<N>)
        ensures
            rand.cursor() == EXHAUSTED,
    {
        System { index: EXHAUSTED, random: [0u32; N] }
    }

    /// Fetches `N` words from the entropy source, 64 at a time.
    fn refill(&mut self) -> (r: Result<(), EntropyError>)
        requires
            N <= 0xffff_ffff,
        ensures
            final(self).cursor() == old(self).cursor(),
            N == 0 ==> r is Ok && final(self).words() == old(self).words(),
            r matches Err(e) ==> e == EntropyError::NotReady,
    {
        let mut done: usize = 0;
        while done < N
            invariant
                done <= N <= 0xffff_ffff,
                self.index == old(self).index,
                done == 0 ==> self.random@ == old(self).random@,
            decreases N - done,
        {
            // One call of the entropy source serves 64 words. Where it
            // fails, the words stored so far stay, and the cursor still
            // says that nothing is left to read.
            let mut chunk = [0u8; 256];
            match getentropy(&mut chunk) {
                Ok(()) => {},
                Err(e) => {
                    return Err(e);
                },
            }
            let count = self.store(done, &chunk);
            done = done + count;
        }
        Ok(())
    }

    /// Returns the next `u32`: a buffered word where one is left, else the
    /// first of `N` words fetched from the entropy source.
    ///
    /// A buffered word is always served. A fetch may fail; the cursor then
    /// stays where it was, so that the next read fetches again.
    pub fn next_u32(&mut self) -> (r: Result<u32, EntropyError>)
        requires
            0 < N <= 0xffff_ffff,
        ensures
            old(self).cursor() < N ==> r == Ok::<u32, EntropyError>(
                old(self).words()[old(self).cursor() as int],
            ) && final(self).cursor() == old(self).cursor() + 1 && final(self).words() == old(
                self,
            ).words(),
            old(self).cursor() >= N ==> match r {
                Ok(value) => final(self).cursor() == 1 && value == final(self).words()[0],
                Err(e) => e == EntropyError::NotReady && final(self).cursor() == old(
                    self,
                ).cursor(),
            },
    {
        let mut index = self.index as usize;
        if index >= N {
            match self.refill() {
                Ok(()) => {},
                Err(e) => {
                    return Err(e);
                },
            }
            index = 0;
        }
        let value = self.random[index];
        self.index = (index + 1) as u32;
        Ok(value)
    }

    /// Returns the next `u64`: two buffered words, the lower half first,
    /// where two are left, else the first two of `N` words fetched from the
    /// entropy source.
    ///
    /// Two buffered words are always served. A fetch may fail; the cursor
    /// then stays where it was, so that the next read fetches again.
    pub fn next_u64(&mut self) -> (r: Result<u64, EntropyError>)
        requires
            1 < N <= 0xffff_ffff,
        ensures
            old(self).cursor() < N - 1 ==> r == Ok::<u64, EntropyError>(
                (old(self).words()[old(self).cursor() + 1] as u64) << 32u64 | (old(
                    self,
                ).words()[old(self).cursor() as int] as u64),
            ) && final(self).cursor() == old(self).cursor() + 2 && final(self).words() == old(
                self,
            ).words(),
            old(self).cursor() >= N - 1 ==> match r {
                Ok(value) => final(self).cursor() == 2 && value == (final(self).words()[1] as u64)
                    << 32u64 | (final(self).words()[0] as u64),
                Err(e) => e == EntropyError::NotReady && final(self).cursor() == old(
                    self,
                ).cursor(),
            },
    {
        let mut index = self.index as usize;
        if index >= N - 1 {
            match self.refill() {
                Ok(()) => {},
                Err(e) => {
                    return Err(e);
                },
            }
            index = 0;
        }
        let low = self.random[index] as u64;
        let high = self.random[index + 1] as u64;
        self.index = (index + 2) as u32;
        Ok(high << 32u64 | low)
    }

    /// Fills the byte slice straight from the entropy source.
    pub fn fill_bytes(&mut self, buf: &mut [u8]) -> (r: Result<(), EntropyError>)
        ensures
            final(buf)@.len() == old(buf)@.len(),
            *final(self) == *old(self),
            old(buf)@.len() == 0 ==> r is Ok,
            r matches Err(e) ==> e == EntropyError::NotReady,
    {
        getentropy(buf)
    }

    /// Drops the buffered words: the next read fetches anew.
    pub fn jump(&mut self)
        ensures
            final(self).cursor() == EXHAUSTED,
            final(self).words() == old(self).words(),
    {
        self.index = EXHAUSTED;
    }

    /// Stores the words that the bytes of `chunk` spell, each least
    /// significant byte first, from the word numbered `done` on: 64 words,
    /// or as many as are left. Returns how many.
    fn store(&mut self, done: usize, chunk: &[u8; 256]) -> (count: usize)
        requires
            done < N <= 0xffff_ffff,
        ensures
            count == if N - done < 64 {
                N - done
            } else {
                64
            },
            final(self).cursor() == old(self).cursor(),
            forall|j: int|
                done <= j < done + count ==> final(self).words()[j] == spec_u32_from_le(
                    chunk@.subrange(4 * (j - done), 4 * (j - done) + 4),
                ),
            forall|j: int|
                0 <= j < done || done + count <= j < N ==> final(self).words()[j] == old(
                    self,
                ).words()[j],
    {
        let mut i: usize = 0;
        while i < 64 && done + i < N
            invariant
                done < N <= 0xffff_ffff,
                i <= 64,
                done + i <= N,
                self.index == old(self).index,
                forall|j: int|
                    done <= j < done + i ==> self.random@[j] == spec_u32_from_le(
                        chunk@.subrange(4 * (j - done), 4 * (j - done) + 4),
                    ),
                forall|j: int|
                    0 <= j < done || done + i <= j < N ==> self.random@[j] == old(
                        self,
                    ).random@[j],
            decreases 64 - i,
        {
            self.random[done + i] = u32_from_le(chunk, 4 * i);
            i += 1;
        }
        i
    }
}

} // verus!
