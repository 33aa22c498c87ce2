use vstd::prelude::*;

use crate::distr::uniform::integer::REJECTION_LIMIT;
use crate::distr::Distribution;
use crate::random::Random;
use crate::rng::{nth_u32, skip_u32, Rng};

verus! {

/// The digits, the capital letters and the small letters, as ASCII codes.
pub const ALNUM: [u8; 62] = [
    48, 49, 50, 51, 52, 53, 54, 55, 56, 57,
    65, 66, 67, 68, 69, 70, 71, 72, 73, 74, 75, 76, 77, 78, 79, 80, 81, 82, 83, 84, 85, 86, 87,
    88, 89, 90,
    97, 98, 99, 100, 101, 102, 103, 104, 105, 106, 107, 108, 109, 110, 111, 112, 113, 114, 115,
    116, 117, 118, 119, 120, 121, 122,
];

/// Uniform distribution over ASCII letters and numbers: a-z, A-Z and 0-9.
///
/// The upper six bits of a word pick a character; the two values that pick
/// none turn the word down.
#[derive(Clone, Copy, Debug)]
pub struct Alnum;

/// [`Alnum`] by its long name.
pub type Alphanumeric = Alnum;

/// The upper six bits of a word.
pub open spec fn spec_pick(word: u32) -> u32 {
    word >> 26u32
}

/// Whether sampling from `rng` settles on its `next_u32` word numbered `n`:
/// the words before it pick no character, and it picks one or is the last
/// one that sampling looks at.
pub open spec fn settles<R: Rng>(rng: R, n: nat) -> bool {
    &&& n <= REJECTION_LIMIT
    &&& forall|j: nat| j < n ==> spec_pick(#[trigger] nth_u32(rng, j)) >= 62
    &&& (n == REJECTION_LIMIT || spec_pick(nth_u32(rng, n)) < 62)
}

/// The character that a word picks; the last word that sampling looks at
/// picks one even with a value above the characters.
pub open spec fn spec_char(word: u32) -> char {
    ALNUM[(spec_pick(word) % 62) as int] as char
}

impl<R: Rng> Distribution<char, R> for Alnum {
    open spec fn sampled(&self, before: R, value: char, after: R) -> bool {
        exists|n: nat|
            #![trigger settles(before, n)]
            settles(before, n) && value == spec_char(nth_u32(before, n)) && after == skip_u32(
                before,
                n + 1,
            )
    }

    fn sample(&self, rand: &mut Random<R>) -> (value: char)
        ensures
            exists|i: int| 0 <= i < 62 && value == ALNUM[i] as char,
    {
        let ghost start = rand@;
        let mut turned_down: u64 = 0;
        loop
            invariant
                start == old(rand)@,
                turned_down <= REJECTION_LIMIT,
                rand@ == skip_u32(start, turned_down as nat),
                forall|j: nat| j < turned_down ==> spec_pick(#[trigger] nth_u32(start, j)) >= 62,
            decreases REJECTION_LIMIT - turned_down,
        {
            let word = rand.next_u32();
            let pick = word >> 26u32;
            assert(word >> 26u32 < 64) by (bit_vector);
            if pick < 62 || turned_down == REJECTION_LIMIT {
                assert(settles(start, turned_down as nat));
                let i = (pick % 62) as usize;
                return ALNUM[i] as char;
            }
            turned_down += 1;
        }
    }
}

} // verus!
