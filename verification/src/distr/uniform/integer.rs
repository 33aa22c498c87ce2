//! Uniform integers without bias: Lemire's method of multiplying and
//! rejecting.
//!
//! A raw word `v` of `W` bits is multiplied by the number of values `range`.
//! The upper half of the product is the candidate; the candidate stands if
//! the lower half is at least `2^W mod range`. Of the `2^W` words exactly
//! `2^W mod range` are turned down, and what is left maps onto every
//! candidate equally often.
use vstd::prelude::*;

use crate::distr::uniform::UniformError;
use crate::distr::Distribution;
use crate::random::Random;
use crate::rng::util::{spec_wide_mul, wide_mul};
use crate::rng::{nth_u32, nth_u64, skip_u32, skip_u64, Rng};

verus! {

/// After this many words turned down in a row the next candidate stands
/// whatever its lower half is, which bounds the number of words that one
/// sample takes. No run of a generator gets that far.
pub const REJECTION_LIMIT: u64 = 0xffff_ffff_ffff_ffff;

/// The upper and the lower half of the 64-bit product of two 32-bit words.
pub open spec fn spec_wmul32(a: u32, b: u32) -> (u32, u32) {
    (((a * b) / 0x1_0000_0000) as u32, ((a * b) % 0x1_0000_0000) as u32)
}

/// The upper and the lower half of the 64-bit product of two 32-bit words.
pub fn wmul32(a: u32, b: u32) -> (r: (u32, u32))
    ensures
        r == spec_wmul32(a, b),
        r.0 * 0x1_0000_0000 + r.1 == a * b,
{
    assert(a * b <= 0xffff_ffff * 0xffff_ffff) by (nonlinear_arith)
        requires
            a <= 0xffff_ffff,
            b <= 0xffff_ffff,
    ;
    let full: u64 = (a as u64) * (b as u64);
    let msw = (full >> 32u64) as u32;
    let lsw = (full & 0xffff_ffffu64) as u32;
    assert(full >> 32u64 == full / 0x1_0000_0000 && full & 0xffff_ffffu64 == full % 0x1_0000_0000)
        by (bit_vector);
    (msw, lsw)
}

/// The upper and the lower half of the 128-bit product of two 64-bit words.
pub fn wmul64(a: u64, b: u64) -> (r: (u64, u64))
    ensures
        r == spec_wide_mul(a, b),
        r.0 * 0x1_0000_0000_0000_0000 + r.1 == a * b,
{
    wide_mul(a, b)
}

/// The number of 32-bit words that are turned down for `range` values:
/// 2^32 modulo `range`.
pub open spec fn threshold32(range: u32) -> int {
    0x1_0000_0000int % (range as int)
}

/// The number of 64-bit words that are turned down for `range` values:
/// 2^64 modulo `range`.
pub open spec fn threshold64(range: u64) -> int {
    0x1_0000_0000_0000_0000int % (range as int)
}

/// Whether the 32-bit word `word` stands for a range of `range` values;
/// a range of zero is the whole width, where every word stands.
pub open spec fn accepts32(range: u32, word: u32) -> bool {
    range == 0 || spec_wmul32(word, range).1 >= threshold32(range)
}

/// The candidate that the 32-bit word `word` gives for a range of `range`
/// values: an offset below `range`, or the word itself for the whole width.
pub open spec fn offset32(range: u32, word: u32) -> u32 {
    if range == 0 {
        word
    } else {
        spec_wmul32(word, range).0
    }
}

/// Whether the 64-bit word `word` stands for a range of `range` values;
/// a range of zero is the whole width, where every word stands.
pub open spec fn accepts64(range: u64, word: u64) -> bool {
    range == 0 || spec_wide_mul(word, range).1 >= threshold64(range)
}

/// The candidate that the 64-bit word `word` gives for a range of `range`
/// values: an offset below `range`, or the word itself for the whole width.
pub open spec fn offset64(range: u64, word: u64) -> u64 {
    if range == 0 {
        word
    } else {
        spec_wide_mul(word, range).0
    }
}

/// Whether sampling from `rng` settles on its `next_u32` word numbered `n`:
/// the words before it are turned down, and it stands or is the last one
/// that sampling looks at.
pub open spec fn settles32<R: Rng>(rng: R, range: u32, n: nat) -> bool {
    &&& n <= REJECTION_LIMIT
    &&& forall|j: nat| j < n ==> !accepts32(range, #[trigger] nth_u32(rng, j))
    &&& (n == REJECTION_LIMIT || accepts32(range, nth_u32(rng, n)))
}

/// Whether sampling from `rng` settles on its `next_u64` word numbered `n`:
/// the words before it are turned down, and it stands or is the last one
/// that sampling looks at.
pub open spec fn settles64<R: Rng>(rng: R, range: u64, n: nat) -> bool {
    &&& n <= REJECTION_LIMIT
    &&& forall|j: nat| j < n ==> !accepts64(range, #[trigger] nth_u64(rng, j))
    &&& (n == REJECTION_LIMIT || accepts64(range, nth_u64(rng, n)))
}

/// Sampling an offset for `range` values from 32-bit words: `offset` is the
/// candidate of the word that sampling settles on, and `after` is the
/// generator past that word.
pub open spec fn lemire32<R: Rng>(before: R, range: u32, offset: u32, after: R) -> bool {
    exists|n: nat|
        #![trigger settles32(before, range, n)]
        settles32(before, range, n) && offset == offset32(range, nth_u32(before, n)) && after
            == skip_u32(before, n + 1)
}

/// Sampling an offset for `range` values from 64-bit words: `offset` is the
/// candidate of the word that sampling settles on, and `after` is the
/// generator past that word.
pub open spec fn lemire64<R: Rng>(before: R, range: u64, offset: u64, after: R) -> bool {
    exists|n: nat|
        #![trigger settles64(before, range, n)]
        settles64(before, range, n) && offset == offset64(range, nth_u64(before, n)) && after
            == skip_u64(before, n + 1)
}

/// A candidate lies below the number of values.
pub proof fn lemma_offset32_below(range: u32, word: u32)
    requires
        range > 0,
    ensures
        offset32(range, word) < range,
{
    let p = word * range;
    assert(p < 0x1_0000_0000 * range) by (nonlinear_arith)
        requires
            p == word * range,
            word < 0x1_0000_0000,
            range > 0,
    ;
    assert(p / 0x1_0000_0000 < range) by (nonlinear_arith)
        requires
            0 <= p < 0x1_0000_0000 * range,
    ;
}

/// A candidate lies below the number of values.
pub proof fn lemma_offset64_below(range: u64, word: u64)
    requires
        range > 0,
    ensures
        offset64(range, word) < range,
{
    let p = word * range;
    assert(p < 0x1_0000_0000_0000_0000 * range) by (nonlinear_arith)
        requires
            p == word * range,
            word < 0x1_0000_0000_0000_0000,
            range > 0,
    ;
    assert(p / 0x1_0000_0000_0000_0000 < range) by (nonlinear_arith)
        requires
            0 <= p < 0x1_0000_0000_0000_0000 * range,
    ;
}

/// Whatever 32-bit sampling settles on lies below the number of values.
pub proof fn lemma_lemire32_below<R: Rng>(before: R, range: u32, offset: u32, after: R)
    requires
        range > 0,
        lemire32(before, range, offset, after),
    ensures
        offset < range,
{
    let n = choose|n: nat|
        #![trigger settles32(before, range, n)]
        settles32(before, range, n) && offset == offset32(range, nth_u32(before, n));
    lemma_offset32_below(range, nth_u32(before, n));
}

/// Whatever 64-bit sampling settles on lies below the number of values.
pub proof fn lemma_lemire64_below<R: Rng>(before: R, range: u64, offset: u64, after: R)
    requires
        range > 0,
        lemire64(before, range, offset, after),
    ensures
        offset < range,
{
    let n = choose|n: nat|
        #![trigger settles64(before, range, n)]
        settles64(before, range, n) && offset == offset64(range, nth_u64(before, n));
    lemma_offset64_below(range, nth_u64(before, n));
}

/// Samples an offset for `range` values from the `next_u32` words of `rand`.
///
/// The threshold takes a division, so it is computed only once a word falls
/// below `range`, which is no smaller than the threshold.
pub fn sample32<R: Rng>(rand: &mut Random<R>, range: u32) -> (offset: u32)
    ensures
        lemire32(old(rand)@, range, offset, final(rand)@),
        range > 0 ==> offset < range,
{
    let ghost start = rand@;
    let mut zone = range;
    let mut turned_down: u64 = 0;
    proof {
        if range > 0 {
            assert((0x1_0000_0000 - range) % (range as int) == threshold32(range)) by {
                vstd::arithmetic::div_mod::lemma_mod_sub_multiples_vanish(
                    0x1_0000_0000,
                    range as int,
                );
            }
        }
    }
    loop
        invariant
            start == old(rand)@,
            turned_down <= REJECTION_LIMIT,
            rand@ == skip_u32(start, turned_down as nat),
            forall|j: nat| j < turned_down ==> !accepts32(range, #[trigger] nth_u32(start, j)),
            range > 0 ==> zone == range || zone == threshold32(range),
            range > 0 ==> (0x1_0000_0000 - range) % (range as int) == threshold32(range),
        decreases REJECTION_LIMIT - turned_down,
    {
        let value = rand.next_u32();
        assert(rand@ == skip_u32(start, (turned_down + 1) as nat));
        assert(value == nth_u32(start, turned_down as nat));
        if range == 0 {
            assert(settles32(start, range, turned_down as nat));
            return value;
        }
        proof {
            lemma_offset32_below(range, value);
        }
        let (msw, lsw) = wmul32(value, range);
        if lsw >= zone {
            assert(settles32(start, range, turned_down as nat));
            return msw;
        }
        if zone == range {
            zone = 0u32.wrapping_sub(range) % range;
            if lsw >= zone {
                assert(settles32(start, range, turned_down as nat));
                return msw;
            }
        }
        if turned_down == REJECTION_LIMIT {
            assert(settles32(start, range, turned_down as nat));
            return msw;
        }
        turned_down += 1;
    }
}

/// Samples an offset for `range` values from the `next_u64` words of `rand`.
///
/// The threshold takes a division, so it is computed only once a word falls
/// below `range`, which is no smaller than the threshold.
pub fn sample64<R: Rng>(rand: &mut Random<R>, range: u64) -> (offset: u64)
    ensures
        lemire64(old(rand)@, range, offset, final(rand)@),
        range > 0 ==> offset < range,
{
    let ghost start = rand@;
    let mut zone = range;
    let mut turned_down: u64 = 0;
    proof {
        if range > 0 {
            assert((0x1_0000_0000_0000_0000 - range) % (range as int) == threshold64(range)) by {
                vstd::arithmetic::div_mod::lemma_mod_sub_multiples_vanish(
                    0x1_0000_0000_0000_0000,
                    range as int,
                );
            }
        }
    }
    loop
        invariant
            start == old(rand)@,
            turned_down <= REJECTION_LIMIT,
            rand@ == skip_u64(start, turned_down as nat),
            forall|j: nat| j < turned_down ==> !accepts64(range, #[trigger] nth_u64(start, j)),
            range > 0 ==> zone == range || zone == threshold64(range),
            range > 0 ==> (0x1_0000_0000_0000_0000 - range) % (range as int) == threshold64(range),
        decreases REJECTION_LIMIT - turned_down,
    {
        let value = rand.next_u64();
        assert(rand@ == skip_u64(start, (turned_down + 1) as nat));
        assert(value == nth_u64(start, turned_down as nat));
        if range == 0 {
            assert(settles64(start, range, turned_down as nat));
            return value;
        }
        proof {
            lemma_offset64_below(range, value);
        }
        let (msw, lsw) = wmul64(value, range);
        if lsw >= zone {
            assert(settles64(start, range, turned_down as nat));
            return msw;
        }
        if zone == range {
            zone = 0u64.wrapping_sub(range) % range;
            if lsw >= zone {
                assert(settles64(start, range, turned_down as nat));
                return msw;
            }
        }
        if turned_down == REJECTION_LIMIT {
            assert(settles64(start, range, turned_down as nat));
            return msw;
        }
        turned_down += 1;
    }
}

/// Integer types that [`UniformInt`] samples.
///
/// Sampling works on wide integers; a type says how its values map to them.
pub trait SampleUniform: Copy + Sized {
    /// The integer that a value stands for.
    spec fn as_int(self) -> int;

    /// The smallest integer of the type.
    spec fn min_int() -> int;

    /// The largest integer of the type.
    spec fn max_int() -> int;

    /// Whether samples of the type are made of 64-bit words; the types of 8
    /// and 16 bits take 32-bit words.
    spec fn wide() -> bool;

    /// The value that the raw word `word` stands for where the range is the
    /// whole type: its lowest bits.
    spec fn truncated(word: u64) -> Self;

    /// Every value lies between the bounds of its type, which span at most
    /// 64 bits, and 16 where the type takes 32-bit words; no two values stand
    /// for the same integer.
    proof fn lemma_type(a: Self, b: Self)
        ensures
            Self::min_int() <= a.as_int() <= Self::max_int(),
            -0x8000_0000_0000_0000 <= Self::min_int() <= 0 < Self::max_int()
                <= 0xffff_ffff_ffff_ffff,
            Self::max_int() - Self::min_int() <= 0xffff_ffff_ffff_ffff,
            !Self::wide() ==> Self::max_int() - Self::min_int() <= 0xffff,
            a.as_int() == b.as_int() ==> a == b,
    ;

    /// The integer that the value stands for.
    fn to_wide(self) -> (x: i128)
        ensures
            x == self.as_int(),
    ;

    /// The value that stands for the integer `x`.
    fn from_wide(x: i128) -> (value: Self)
        requires
            Self::min_int() <= x <= Self::max_int(),
        ensures
            value.as_int() == x,
    ;

    /// The smallest integer of the type.
    fn lowest() -> (x: i128)
        ensures
            x == Self::min_int(),
    ;

    /// The largest integer of the type.
    fn highest() -> (x: i128)
        ensures
            x == Self::max_int(),
    ;

    /// Whether samples of the type are made of 64-bit words.
    fn is_wide() -> (w: bool)
        ensures
            w == Self::wide(),
    ;

    /// The lowest bits of the raw word as a value of the type.
    fn truncate(word: u64) -> (value: Self)
        ensures
            value == Self::truncated(word),
    ;
}

/// The discrete uniform distribution over an integer type.
///
/// A sampler holds the lowest value and the number of values; zero values
/// stand for the whole type, whose number of values may not fit.
#[derive(Debug)]
pub struct UniformInt<T: SampleUniform> {
    base: T,
    range: u64,
}

impl<T: SampleUniform> Clone for UniformInt<T> {
    fn clone(&self) -> (copy: Self)
        ensures
            copy == *self,
    {
        proof {
            use_type_invariant(self);
        }
        UniformInt { base: self.base, range: self.range }
    }
}

impl<T: SampleUniform> Copy for UniformInt<T> {

}

impl<T: SampleUniform> UniformInt<T> {
    /// What every sampler holds: the values fit the type.
    #[verifier::type_invariant]
    pub closed spec fn inv(self) -> bool {
        Self::fits(self.base, self.range)
    }

    /// Whether `range` values from `base` on fit the type, or `range` is
    /// zero for the whole type.
    pub open spec fn fits(base: T, range: u64) -> bool {
        range == 0 || base.as_int() + range - 1 <= T::max_int()
    }

    /// The first of the values, where there are any to count.
    pub closed spec fn base(&self) -> T {
        self.base
    }

    /// The number of values, or zero for the whole type.
    pub closed spec fn range(&self) -> u64 {
        self.range
    }

    /// The lowest value that is sampled.
    pub open spec fn low(&self) -> int {
        if self.range() == 0 {
            T::min_int()
        } else {
            self.base().as_int()
        }
    }

    /// The number of values that are sampled.
    pub open spec fn count(&self) -> int {
        if self.range() == 0 {
            T::max_int() - T::min_int() + 1
        } else {
            self.range() as int
        }
    }

    /// The value that the candidate `offset` stands for.
    pub open spec fn placed(&self, offset: u64, value: T) -> bool {
        if self.range() == 0 {
            value == T::truncated(offset)
        } else {
            value.as_int() == self.base().as_int() + offset
        }
    }

    /// The value that the candidate `offset` stands for.
    fn place(&self, offset: u64) -> (value: T)
        requires
            self.range() == 0 || offset < self.range(),
        ensures
            self.placed(offset, value),
            self.low() <= value.as_int() < self.low() + self.count(),
    {
        proof {
            use_type_invariant(self);
            T::lemma_type(self.base, self.base);
        }
        if self.range == 0 {
            let value = T::truncate(offset);
            proof {
                T::lemma_type(value, value);
            }
            value
        } else {
            T::from_wide(self.base.to_wide() + offset as i128)
        }
    }

    /// A sampler of `range` values from `base` on; zero stands for the whole
    /// type.
    pub fn constant(base: T, range: u64) -> (distr: UniformInt<T>)
        requires
            Self::fits(base, range),
        ensures
            distr.base() == base,
            distr.range() == range,
    {
        UniformInt { base, range }
    }

    /// A sampler of the values from `low` up to, but without, `high`.
    ///
    /// Fails with [`UniformError::EmptyRange`] where `low` is not below `high`.
    pub fn try_new(low: T, high: T) -> (r: Result<UniformInt<T>, UniformError>)
        ensures
            low.as_int() < high.as_int() <==> r is Ok,
            r matches Ok(distr) ==> distr.low() == low.as_int() && distr.count() == high.as_int()
                - low.as_int() && distr.base() == low && distr.range() == high.as_int()
                - low.as_int(),
            r matches Err(e) ==> e == UniformError::EmptyRange,
    {
        proof {
            T::lemma_type(low, high);
            T::lemma_type(high, low);
        }
        let a = low.to_wide();
        let b = high.to_wide();
        if a >= b {
            return Err(UniformError::EmptyRange);
        }
        let range = (b - a) as u64;
        Ok(UniformInt { base: low, range })
    }

    /// A sampler of the values from `low` up to and with `high`.
    ///
    /// Fails with [`UniformError::EmptyRange`] where `low` is above `high`.
    pub fn try_new_inclusive(low: T, high: T) -> (r: Result<UniformInt<T>, UniformError>)
        ensures
            low.as_int() <= high.as_int() <==> r is Ok,
            r matches Ok(distr) ==> distr.low() == low.as_int() && distr.count() == high.as_int()
                - low.as_int() + 1,
            r matches Err(e) ==> e == UniformError::EmptyRange,
    {
        proof {
            T::lemma_type(low, high);
            T::lemma_type(high, low);
        }
        let a = low.to_wide();
        let b = high.to_wide();
        if a > b {
            return Err(UniformError::EmptyRange);
        }
        let range = if a == T::lowest() && b == T::highest() {
            0
        } else {
            (b - a + 1) as u64
        };
        Ok(UniformInt { base: low, range })
    }

    /// A sampler of the values from `low` up to, but without, `high`.
    pub fn new(low: T, high: T) -> (distr: UniformInt<T>)
        requires
            low.as_int() < high.as_int(),
        ensures
            distr.low() == low.as_int(),
            distr.count() == high.as_int() - low.as_int(),
            distr.base() == low,
            distr.range() == high.as_int() - low.as_int(),
    {
        match Self::try_new(low, high) {
            Ok(distr) => distr,
            Err(_) => {
                proof {
                    assert(false);
                }
                UniformInt { base: low, range: 0 }
            },
        }
    }

    /// A sampler of the values from `low` up to and with `high`.
    pub fn new_inclusive(low: T, high: T) -> (distr: UniformInt<T>)
        requires
            low.as_int() <= high.as_int(),
        ensures
            distr.low() == low.as_int(),
            distr.count() == high.as_int() - low.as_int() + 1,
    {
        match Self::try_new_inclusive(low, high) {
            Ok(distr) => distr,
            Err(_) => {
                proof {
                    assert(false);
                }
                UniformInt { base: low, range: 0 }
            },
        }
    }
}

impl<T: SampleUniform, R: Rng> Distribution<T, R> for UniformInt<T> {
    /// The value is the one that the candidate of Lemire's method stands
    /// for, made of 64-bit or 32-bit words as the type asks.
    open spec fn sampled(&self, before: R, value: T, after: R) -> bool {
        if T::wide() {
            exists|offset: u64|
                #![trigger lemire64(before, self.range(), offset, after)]
                lemire64(before, self.range(), offset, after) && self.placed(offset, value)
        } else {
            exists|offset: u32|
                #![trigger lemire32(before, self.range() as u32, offset, after)]
                lemire32(before, self.range() as u32, offset, after) && self.placed(
                    offset as u64,
                    value,
                )
        }
    }

    fn sample(&self, rand: &mut Random<R>) -> (value: T)
        ensures
            self.low() <= value.as_int() < self.low() + self.count(),
    {
        proof {
            use_type_invariant(self);
            T::lemma_type(self.base, self.base);
        }
        if T::is_wide() {
            let offset = sample64(rand, self.range);
            let value = self.place(offset);
            assert(lemire64(old(rand)@, self.range(), offset, rand@) && self.placed(offset, value));
            value
        } else {
            let offset = sample32(rand, self.range as u32);
            let value = self.place(offset as u64);
            assert(lemire32(old(rand)@, self.range() as u32, offset, rand@) && self.placed(
                offset as u64,
                value,
            ));
            value
        }
    }
}

} // verus!
