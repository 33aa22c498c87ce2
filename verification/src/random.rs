use vstd::prelude::*;

use crate::distr::uniform::integer::{lemire64, SampleUniform, UniformInt};
use crate::distr::Distribution;
use crate::rng::Rng;

verus! {

/// Swaps the elements at `a` and `b`, as the standard library documents
/// `<[T]>::swap`: the two elements change places and all others stay; the
/// call panics where an index is out of bounds, which `requires` rules out.
pub assume_specification<X>[ <[X]>::swap ](elements: &mut [X], i: usize, j: usize)
    requires
        i < old(elements)@.len(),
        j < old(elements)@.len(),
    ensures
        final(elements)@ == old(elements)@.update(i as int, old(elements)@[j as int]).update(
            j as int,
            old(elements)@[i as int],
        ),
;

/// Two elements that change places leave the same elements.
pub proof fn lemma_swap_multiset<T>(s: Seq<T>, a: int, b: int)
    requires
        0 <= a < s.len(),
        0 <= b < s.len(),
    ensures
        s.update(a, s[b]).update(b, s[a]).to_multiset() == s.to_multiset(),
{
    broadcast use vstd::seq_lib::to_multiset_update;
    broadcast use vstd::multiset::group_multiset_axioms;

    let s1 = s.update(a, s[b]);
    let s2 = s1.update(b, s[a]);
    assert(s1.to_multiset() == s.to_multiset().insert(s[b]).remove(s[a]));
    assert(s2.to_multiset() == s1.to_multiset().insert(s[a]).remove(s1[b]));
    vstd::seq_lib::to_multiset_contains(s, s[a]);
    vstd::seq_lib::to_multiset_contains(s, s[b]);
    assert(s.contains(s[a]));
    assert(s.contains(s[b]));
    assert(s2.to_multiset() =~= s.to_multiset());
}

/// Rich interface for consuming random number generators.
#[derive(Debug)]
pub struct Random<R> {
    rng: R,
}

impl<R> View for Random<R> {
    type V = R;

    closed spec fn view(&self) -> R {
        self.rng
    }
}

impl<R: Clone> Clone for Random<R> {
    fn clone(&self) -> (copy: Self)
        ensures
            cloned(self@, copy@),
    {
        Random { rng: self.rng.clone() }
    }
}

impl<R> Random<R> {
    /// Wraps a generator.
    pub fn wrap(rng: R) -> (rand: Random<R>)
        ensures
            rand@ == rng,
    {
        Random { rng }
    }

    /// Hands the generator back.
    pub fn into_inner(self) -> (rng: R)
        ensures
            rng == self@,
    {
        self.rng
    }
}

/// What `index` may return for a length of `len`: the candidate of Lemire's
/// method on 64-bit words, which lies below `len`; for a length of zero the
/// candidate is a raw word.
pub open spec fn index_sampled<R: Rng>(before: R, len: usize, index: usize, after: R) -> bool {
    exists|offset: u64|
        #![trigger lemire64(before, len as u64, offset, after)]
        lemire64(before, len as u64, offset, after) && index == offset as usize
}

/// What `uniform` may return for the indexes from `low` up to, but without,
/// `high`: `low` plus the candidate of Lemire's method on 64-bit words for
/// `high - low` values.
pub open spec fn between_sampled<R: Rng>(
    before: R,
    low: usize,
    high: usize,
    index: usize,
    after: R,
) -> bool {
    exists|offset: u64|
        #![trigger lemire64(before, (high - low) as u64, offset, after)]
        lemire64(before, (high - low) as u64, offset, after) && index == low + offset
}

/// The sequence with the elements at `i` and `j` in each other's place.
pub open spec fn swapped<T>(s: Seq<T>, i: int, j: int) -> Seq<T> {
    s.update(i, s[j]).update(j, s[i])
}

/// Whether the Fisher-Yates shuffle of the first `len` elements of `s` may
/// give `out` and leave the generator in the state `after` when it finds it
/// in the state `before`: the last of the elements changes places with one
/// at a sampled index, and the elements before it are shuffled in turn.
pub open spec fn shuffled<R: Rng, T>(before: R, s: Seq<T>, len: nat, after: R, out: Seq<T>) -> bool
    decreases len,
{
    if len <= 1 {
        after == before && out == s
    } else {
        exists|k: usize, mid: R|
            #![trigger index_sampled(before, len as usize, k, mid)]
            index_sampled(before, len as usize, k, mid) && k < len && shuffled(
                mid,
                swapped(s, k as int, len - 1),
                (len - 1) as nat,
                after,
                out,
            )
    }
}

/// Whether the shuffle of the elements of `s` from `i` up to, but without,
/// `n` may give `out` and leave the generator in the state `after` when it
/// finds it in the state `before`: the element at `i` changes places with
/// one at a sampled index at or after it, and the shuffle goes on behind it.
pub open spec fn partly_shuffled<R: Rng, T>(
    before: R,
    s: Seq<T>,
    i: nat,
    n: nat,
    after: R,
    out: Seq<T>,
) -> bool
    decreases n - i,
{
    if i >= n {
        after == before && out == s
    } else {
        exists|k: usize, mid: R|
            #![trigger between_sampled(before, i as usize, s.len() as usize, k, mid)]
            between_sampled(before, i as usize, s.len() as usize, k, mid) && i <= k < s.len()
                && partly_shuffled(mid, swapped(s, i as int, k as int), i + 1, n, after, out)
    }
}

/// One step of the shuffle and the shuffle of what is before it make the
/// shuffle.
proof fn lemma_shuffled_step<R: Rng, T>(
    before: R,
    s: Seq<T>,
    len: nat,
    k: usize,
    mid: R,
    after: R,
    out: Seq<T>,
)
    requires
        1 < len <= usize::MAX,
        k < len,
        index_sampled(before, len as usize, k, mid),
        shuffled(mid, swapped(s, k as int, len - 1), (len - 1) as nat, after, out),
    ensures
        shuffled(before, s, len, after, out),
{
}

/// One step of the partial shuffle and the shuffle behind it make the
/// partial shuffle.
proof fn lemma_partly_shuffled_step<R: Rng, T>(
    before: R,
    s: Seq<T>,
    i: nat,
    n: nat,
    k: usize,
    mid: R,
    after: R,
    out: Seq<T>,
)
    requires
        i < n,
        i <= k < s.len() <= usize::MAX,
        between_sampled(before, i as usize, s.len() as usize, k, mid),
        partly_shuffled(mid, swapped(s, i as int, k as int), i + 1, n, after, out),
    ensures
        partly_shuffled(before, s, i, n, after, out),
{
}

/// How many elements `partial_shuffle` places for a slice of `len` elements
/// when asked for `n`: the last element falls into place by itself.
pub open spec fn placed_count(len: nat, n: nat) -> nat {
    if len <= 1 {
        0
    } else if n < len - 1 {
        n
    } else {
        (len - 1) as nat
    }
}

impl<R: Rng> Random<R> {
    /// Returns the next `u32` in the sequence.
    pub fn next_u32(&mut self) -> (value: u32)
        ensures
            (value, final(self)@) == old(self)@.spec_next_u32(),
    {
        self.rng.next_u32()
    }

    /// Returns the next `u64` in the sequence.
    pub fn next_u64(&mut self) -> (value: u64)
        ensures
            (value, final(self)@) == old(self)@.spec_next_u64(),
    {
        self.rng.next_u64()
    }

    /// Returns the IEEE 754 bit pattern of a uniform random `f32` in the
    /// half-open interval `[1.0, 2.0)`.
    pub fn next_f32_bits(&mut self) -> (bits: u32)
        ensures
            (bits, final(self)@) == old(self)@.spec_next_f32_bits(),
            0x3f80_0000 <= bits < 0x4000_0000,
    {
        self.rng.next_f32_bits()
    }

    /// Returns the IEEE 754 bit pattern of a uniform random `f64` in the
    /// half-open interval `[1.0, 2.0)`.
    pub fn next_f64_bits(&mut self) -> (bits: u64)
        ensures
            (bits, final(self)@) == old(self)@.spec_next_f64_bits(),
            0x3ff0_0000_0000_0000 <= bits < 0x4000_0000_0000_0000,
    {
        self.rng.next_f64_bits()
    }

    /// Fills the destination buffer with uniform random bytes from the Rng.
    pub fn fill_bytes(&mut self, buf: &mut [u8])
        ensures
            (final(buf)@, final(self)@) == old(self)@.spec_fill_bytes(old(buf)@.len()),
    {
        self.rng.fill_bytes(buf);
    }

    /// Advances the internal state significantly.
    ///
    /// Useful to produce deterministic independent random number generators
    /// for parallel computation.
    pub fn jump(&mut self)
        ensures
            final(self)@ == old(self)@.spec_jump(),
    {
        self.rng.jump();
    }

    /// Clones the current instance and advances the internal state
    /// significantly: the clone carries on where this generator stood, and
    /// this generator carries on after the jump.
    pub fn split(&mut self) -> (cur: Self) where R: Clone
        ensures
            cloned(old(self)@, cur@),
            final(self)@ == old(self)@.spec_jump(),
    {
        let cur = self.clone();
        self.rng.jump();
        cur
    }

    /// Returns a sample from the given distribution.
    pub fn sample<T, D: Distribution<T, R>>(&mut self, distr: &D) -> (value: T)
        ensures
            distr.sampled(old(self)@, value, final(self)@),
    {
        distr.sample(self)
    }

    /// Returns a sample of the integers from `low` up to, but without, `high`.
    pub fn uniform<T: SampleUniform>(&mut self, low: T, high: T) -> (value: T)
        requires
            low.as_int() < high.as_int(),
        ensures
            low.as_int() <= value.as_int() < high.as_int(),
            exists|distr: UniformInt<T>|
                #![trigger distr.sampled(old(self)@, value, final(self)@)]
                distr.base() == low && distr.range() == high.as_int() - low.as_int()
                    && distr.sampled(old(self)@, value, final(self)@),
    {
        let distr = UniformInt::new(low, high);
        let value = distr.sample(self);
        assert(distr.sampled(old(self)@, value, self@));
        value
    }

    /// Returns a sample of the integers from `low` up to and with `high`.
    pub fn uniform_inclusive<T: SampleUniform>(&mut self, low: T, high: T) -> (value: T)
        requires
            low.as_int() <= high.as_int(),
        ensures
            low.as_int() <= value.as_int() <= high.as_int(),
            exists|distr: UniformInt<T>|
                #![trigger distr.sampled(old(self)@, value, final(self)@)]
                distr.low() == low.as_int() && distr.count() == high.as_int() - low.as_int() + 1
                    && distr.sampled(old(self)@, value, final(self)@),
    {
        let distr = UniformInt::new_inclusive(low, high);
        let value = distr.sample(self);
        assert(distr.sampled(old(self)@, value, self@));
        value
    }

    /// Returns a sample of the integers from `low` up to, but without, `high`.
    pub fn range<T: SampleUniform>(&mut self, low: T, high: T) -> (value: T)
        requires
            low.as_int() < high.as_int(),
        ensures
            low.as_int() <= value.as_int() < high.as_int(),
            exists|distr: UniformInt<T>|
                #![trigger distr.sampled(old(self)@, value, final(self)@)]
                distr.base() == low && distr.range() == high.as_int() - low.as_int()
                    && distr.sampled(old(self)@, value, final(self)@),
    {
        self.uniform(low, high)
    }

    /// Flips a coin: the top bit of the next `u32`.
    pub fn coin_flip(&mut self) -> (heads: bool)
        ensures
            heads == (old(self)@.spec_next_u32().0 >= 0x8000_0000),
            final(self)@ == old(self)@.spec_next_u32().1,
    {
        self.next_u32() >= 0x8000_0000
    }

    /// Returns a random usize in the `[0, len)` interval, mostly.
    ///
    /// If the `len` is zero an arbitrary value is returned directly from the
    /// Rng. When used with indexing the bounds check should fail. Do not
    /// assume this value is inbounds.
    pub fn index(&mut self, len: usize) -> (index: usize)
        ensures
            index_sampled(old(self)@, len, index, final(self)@),
            len > 0 ==> index < len,
    {
        let distr = UniformInt::<usize>::constant(0, len as u64);
        let index = distr.sample(self);
        proof {
            let offset = choose|offset: u64|
                #![trigger lemire64(old(self)@, distr.range(), offset, self@)]
                lemire64(old(self)@, distr.range(), offset, self@) && distr.placed(offset, index);
            assert(lemire64(old(self)@, len as u64, offset, self@));
            if len > 0 {
                assert(offset < len) by {
                    crate::distr::uniform::integer::lemma_lemire64_below(
                        old(self)@,
                        len as u64,
                        offset,
                        self@,
                    );
                }
            }
        }
        index
    }

    /// Returns the position of a random element among `len` elements of an
    /// iterator: what `index` returns, but no more than `len`, so that
    /// nothing is found at it where there are no elements.
    pub fn position(&mut self, len: usize) -> (position: usize)
        ensures
            exists|index: usize|
                #![trigger index_sampled(old(self)@, len, index, final(self)@)]
                index_sampled(old(self)@, len, index, final(self)@) && position == if index
                    < len {
                    index
                } else {
                    len
                },
            len > 0 ==> position < len,
            len == 0 ==> position == 0,
    {
        let index = self.index(len);
        assert(index_sampled(old(self)@, len, index, self@));
        if index < len {
            index
        } else {
            len
        }
    }

    /// Decides where the element numbered `seen`, counting from zero, of a
    /// collection goes in a reservoir of `amount` slots.
    ///
    /// The first `amount` elements fill the slots in their order and take
    /// nothing from the generator. Every later element takes the slot at an
    /// index sampled below `seen + 1 + amount`, where that is a slot, and is
    /// dropped where it is none.
    pub fn reservoir_slot(&mut self, seen: usize, amount: usize) -> (slot: Option<usize>)
        requires
            seen + 1 + amount <= usize::MAX,
        ensures
            seen < amount ==> slot == Some(seen) && final(self)@ == old(self)@,
            seen >= amount ==> exists|index: usize|
                #![trigger index_sampled(old(self)@, (seen + 1 + amount) as usize, index, final(self)@)]
                index_sampled(old(self)@, (seen + 1 + amount) as usize, index, final(self)@)
                    && slot == if index < amount {
                    Some(index)
                } else {
                    None
                },
            slot matches Some(k) ==> k < amount,
    {
        if seen < amount {
            Some(seen)
        } else {
            let index = self.index(seen + 1 + amount);
            assert(index_sampled(old(self)@, (seen + 1 + amount) as usize, index, self@));
            if index < amount {
                Some(index)
            } else {
                None
            }
        }
    }

    /// Returns a shared reference to one random element of the slice, or
    /// `None` if the slice is empty.
    pub fn choose_from<'a, T>(&mut self, slice: &'a [T]) -> (chosen: Option<&'a T>)
        ensures
            chosen is None <==> slice@.len() == 0,
            chosen matches Some(element) ==> exists|index: usize|
                #![trigger index_sampled(old(self)@, slice@.len() as usize, index, final(self)@)]
                index_sampled(old(self)@, slice@.len() as usize, index, final(self)@) && index
                    < slice@.len() && *element == slice@[index as int],
            chosen is None ==> exists|index: usize|
                #![trigger index_sampled(old(self)@, slice@.len() as usize, index, final(self)@)]
                index_sampled(old(self)@, slice@.len() as usize, index, final(self)@),
    {
        let index = self.index(slice.len());
        assert(index_sampled(old(self)@, slice@.len() as usize, index, self@));
        if index < slice.len() {
            Some(&slice[index])
        } else {
            None
        }
    }

    /// Returns a unique reference to one random element of the slice, or
    /// `None` if the slice is empty.
    pub fn choose_mut<'a, T>(&mut self, slice: &'a mut [T]) -> (chosen: Option<&'a mut T>)
        ensures
            chosen is None <==> old(slice)@.len() == 0,
            chosen matches Some(element) ==> exists|index: usize|
                #![trigger index_sampled(old(self)@, old(slice)@.len() as usize, index, final(self)@)]
                index_sampled(old(self)@, old(slice)@.len() as usize, index, final(self)@)
                    && index < old(slice)@.len() && *element == old(slice)@[index as int]
                    && final(slice)@ == old(slice)@.update(index as int, *final(element)),
            chosen is None ==> final(slice)@ == old(slice)@,
    {
        let index = self.index(slice.len());
        assert(index_sampled(old(self)@, slice@.len() as usize, index, self@));
        if index < slice.len() {
            Some(&mut slice[index])
        } else {
            None
        }
    }

    /// Returns a sample of the indexes from `low` up to, but without, `high`.
    fn between(&mut self, low: usize, high: usize) -> (index: usize)
        requires
            low < high,
        ensures
            between_sampled(old(self)@, low, high, index, final(self)@),
            low <= index < high,
    {
        let distr = UniformInt::<usize>::new(low, high);
        let index = distr.sample(self);
        proof {
            let offset = choose|offset: u64|
                #![trigger lemire64(old(self)@, distr.range(), offset, self@)]
                lemire64(old(self)@, distr.range(), offset, self@) && distr.placed(offset, index);
            assert(lemire64(old(self)@, (high - low) as u64, offset, self@));
        }
        index
    }

    /// Standard Fisher-Yates shuffle.
    ///
    /// Each step swaps the last element that is not yet placed with one
    /// chosen at or before it. The slice holds the same elements afterwards.
    pub fn shuffle<T>(&mut self, slice: &mut [T])
        ensures
            shuffled(old(self)@, old(slice)@, old(slice)@.len(), final(self)@, final(slice)@),
            final(slice)@.to_multiset() == old(slice)@.to_multiset(),
            final(slice)@.len() == old(slice)@.len(),
    {
        let ghost start = self@;
        let ghost elements = slice@;
        let mut len = slice.len();
        while len > 1
            invariant
                len <= slice@.len(),
                slice@.len() == elements.len(),
                slice@.to_multiset() == elements.to_multiset(),
                forall|after: R, out: Seq<T>|
                    #![trigger shuffled(self@, slice@, len as nat, after, out)]
                    shuffled(self@, slice@, len as nat, after, out) ==> shuffled(
                        start,
                        elements,
                        elements.len(),
                        after,
                        out,
                    ),
            decreases len,
        {
            let ghost before = self@;
            let ghost s = slice@;
            let k = self.index(len);
            proof {
                lemma_swap_multiset(slice@, k as int, len - 1);
            }
            slice.swap(k, len - 1);
            len -= 1;
            proof {
                assert(slice@ == swapped(s, k as int, len as int));
                assert forall|after: R, out: Seq<T>|
                    #![trigger shuffled(self@, slice@, len as nat, after, out)]
                    shuffled(self@, slice@, len as nat, after, out) implies shuffled(
                    start,
                    elements,
                    elements.len(),
                    after,
                    out,
                ) by {
                    lemma_shuffled_step(before, s, (len + 1) as nat, k, self@, after, out);
                }
            }
        }
        assert(shuffled(self@, slice@, len as nat, self@, slice@));
    }

    /// Shuffle only the first _n_ elements.
    ///
    /// This is an efficient method to select _n_ elements at random from the
    /// slice without repetition, provided the slice may be mutated. The
    /// slice holds the same elements afterwards.
    pub fn partial_shuffle<T>(&mut self, slice: &mut [T], n: usize)
        ensures
            partly_shuffled(
                old(self)@,
                old(slice)@,
                0,
                placed_count(old(slice)@.len(), n as nat),
                final(self)@,
                final(slice)@,
            ),
            final(slice)@.to_multiset() == old(slice)@.to_multiset(),
            final(slice)@.len() == old(slice)@.len(),
    {
        let ghost start = self@;
        let ghost elements = slice@;
        let len = slice.len();
        if len > 1 {
            let n = if n < len - 1 {
                n
            } else {
                len - 1
            };
            let mut i: usize = 0;
            while i < n
                invariant
                    i <= n < len,
                    len == slice@.len(),
                    slice@.len() == elements.len(),
                    slice@.to_multiset() == elements.to_multiset(),
                    forall|after: R, out: Seq<T>|
                        #![trigger partly_shuffled(self@, slice@, i as nat, n as nat, after, out)]
                        partly_shuffled(self@, slice@, i as nat, n as nat, after, out)
                            ==> partly_shuffled(start, elements, 0, n as nat, after, out),
                decreases n - i,
            {
                let ghost before = self@;
                let ghost s = slice@;
                let k = self.between(i, len);
                proof {
                    lemma_swap_multiset(slice@, i as int, k as int);
                }
                slice.swap(i, k);
                i += 1;
                proof {
                    assert(slice@ == swapped(s, i - 1, k as int));
                    assert forall|after: R, out: Seq<T>|
                        #![trigger partly_shuffled(self@, slice@, i as nat, n as nat, after, out)]
                        partly_shuffled(
                            self@,
                            slice@,
                            i as nat,
                            n as nat,
                            after,
                            out,
                        ) implies partly_shuffled(start, elements, 0, n as nat, after, out) by {
                        lemma_partly_shuffled_step(
                            before,
                            s,
                            (i - 1) as nat,
                            n as nat,
                            k,
                            self@,
                            after,
                            out,
                        );
                    }
                }
            }
            assert(partly_shuffled(self@, slice@, i as nat, n as nat, self@, slice@));
        }
    }
}

} // verus!
