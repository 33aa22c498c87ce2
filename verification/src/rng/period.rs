//! Why the streams of the splitting mixer do not overlap.
//!
//! The mixer is a bijection of the 64-bit words and the increment is odd, so
//! a generator runs through every word once before it repeats, and a jump of
//! 2^40 steps leads to a stretch of words that the generator itself reaches
//! only after 2^40 draws.
use vstd::prelude::*;

use crate::rng::splitmix64::{
    lemma_jump, lemma_skip, spec_mix64, spec_next, state_after, SplitMix64, GOLDEN_GAMMA,
};
use crate::rng::util::{lemma_skip_add, nth_word, skip_words};
use crate::rng::{Rng, WordSource};

verus! {

/// The word that undoes the multiplication by the golden gamma modulo 2^64.
pub const GOLDEN_GAMMA_INVERSE: u64 = 0xf1de83e19937733d;

/// Multiplying by a word that has an inverse modulo 2^64 loses nothing:
/// multiplying by the inverse gives the word back.
proof fn lemma_unmul(x: u64, c: u64, d: u64, k: int)
    requires
        c * d == 1 + k * 0x1_0000_0000_0000_0000,
    ensures
        (x.wrapping_mul(c) * d) % 0x1_0000_0000_0000_0000 == x,
{
    let m = 0x1_0000_0000_0000_0000int;
    let p = x * c;
    assert((x as nat * c as nat) as int == p);
    assert(x.wrapping_mul(c) == p % m);
    vstd::arithmetic::div_mod::lemma_mul_mod_noop_left(p, d as int, m);
    assert(((p % m) * d) % m == (p * d) % m);
    assert(p * d == x + (x * k) * m) by (nonlinear_arith)
        requires
            p == x * c,
            c * d == 1 + k * m,
    ;
    vstd::arithmetic::div_mod::lemma_mod_multiples_vanish(x * k, x as int, m);
    vstd::arithmetic::div_mod::lemma_small_mod(x as nat, m as nat);
}

/// The mixer maps no two words to the same word.
pub proof fn lemma_mix64_injective(a: u64, b: u64)
    requires
        spec_mix64(a) == spec_mix64(b),
    ensures
        a == b,
{
    let a1 = a ^ (a >> 30u64);
    let b1 = b ^ (b >> 30u64);
    let a2 = a1.wrapping_mul(0xbf58476d1ce4e5b9);
    let b2 = b1.wrapping_mul(0xbf58476d1ce4e5b9);
    let a3 = a2 ^ (a2 >> 27u64);
    let b3 = b2 ^ (b2 >> 27u64);
    let a4 = a3.wrapping_mul(0x94d049bb133111eb);
    let b4 = b3.wrapping_mul(0x94d049bb133111eb);
    assert(a4 ^ (a4 >> 31u64) == b4 ^ (b4 >> 31u64));
    assert(a4 == b4) by (bit_vector)
        requires
            a4 ^ (a4 >> 31u64) == b4 ^ (b4 >> 31u64),
    ;
    lemma_unmul(a3, 0x94d049bb133111eb, 0x319642b2d24d8ec3, 2077064247507883091);
    lemma_unmul(b3, 0x94d049bb133111eb, 0x319642b2d24d8ec3, 2077064247507883091);
    assert(a3 == b3);
    assert(a2 == b2) by (bit_vector)
        requires
            a2 ^ (a2 >> 27u64) == b2 ^ (b2 >> 27u64),
    ;
    lemma_unmul(a1, 0xbf58476d1ce4e5b9, 0x96de1b173f119089, 8125545580553827436);
    lemma_unmul(b1, 0xbf58476d1ce4e5b9, 0x96de1b173f119089, 8125545580553827436);
    assert(a1 == b1);
    assert(a == b) by (bit_vector)
        requires
            a ^ (a >> 30u64) == b ^ (b >> 30u64),
    ;
}

/// Two numbers of steps that differ by less than 2^64 lead to different
/// states.
pub proof fn lemma_states_distinct(state: u64, m: nat, n: nat)
    requires
        m < n < m + 0x1_0000_0000_0000_0000,
    ensures
        state_after(state, m) != state_after(state, n),
{
    let w = 0x1_0000_0000_0000_0000int;
    let g = GOLDEN_GAMMA as int;
    let d = GOLDEN_GAMMA_INVERSE as int;
    if state_after(state, m) == state_after(state, n) {
        let x = state + m * g;
        let y = state + n * g;
        assert(x % w == y % w);
        // the difference of the two is a multiple of 2^64
        vstd::arithmetic::div_mod::lemma_fundamental_div_mod(x, w);
        vstd::arithmetic::div_mod::lemma_fundamental_div_mod(y, w);
        let q = y / w - x / w;
        assert(y - x == w * (y / w) - w * (x / w));
        assert(w * (y / w) - w * (x / w) == q * w) by (nonlinear_arith)
            requires
                q == y / w - x / w,
        ;
        assert((n - m) * g == n * g - m * g) by (nonlinear_arith);
        assert((n - m) * g == q * w);
        // and so is the difference of the numbers of steps
        assert(g * d == 1 + 10771413168148108919 * w);
        assert((n - m) * g * d == (n - m) + ((n - m) * 10771413168148108919) * w)
            by (nonlinear_arith)
            requires
                g * d == 1 + 10771413168148108919 * w,
        ;
        assert((n - m) * g * d == (q * d) * w) by (nonlinear_arith)
            requires
                (n - m) * g == q * w,
        ;
        let t = q * d - (n - m) * 10771413168148108919;
        assert(n - m == t * w) by (nonlinear_arith)
            requires
                (n - m) + ((n - m) * 10771413168148108919) * w == (q * d) * w,
                t == q * d - (n - m) * 10771413168148108919,
        ;
        assert(false) by (nonlinear_arith)
            requires
                n - m == t * w,
                0 < n - m < w,
                w > 0,
        ;
    }
}

/// The word of step `n` is the mix of the state after `n + 1` steps.
pub proof fn lemma_nth_word(rng: SplitMix64, n: nat)
    ensures
        nth_word(rng, n) == spec_mix64(state_after(rng.state(), n + 1)),
{
    lemma_skip(rng, n);
    lemma_skip(rng, n + 1);
    let at = skip_words(rng, n);
    SplitMix64::lemma_of_state(spec_next(at.state()).1);
    assert(skip_words(rng, n + 1) == at.spec_word().1);
}

/// A generator yields no word twice within 2^64 steps.
pub proof fn lemma_words_distinct(rng: SplitMix64, m: nat, n: nat)
    requires
        m < n < m + 0x1_0000_0000_0000_0000,
    ensures
        nth_word(rng, m) != nth_word(rng, n),
{
    lemma_nth_word(rng, m);
    lemma_nth_word(rng, n);
    lemma_states_distinct(rng.state(), m + 1, n + 1);
    if nth_word(rng, m) == nth_word(rng, n) {
        lemma_mix64_injective(
            state_after(rng.state(), m + 1),
            state_after(rng.state(), n + 1),
        );
    }
}

/// A generator and its clone that has jumped have no word in common among
/// the first 2^40 words of each.
pub proof fn lemma_jump_disjoint(rng: SplitMix64, j: nat, k: nat)
    requires
        j < 0x100_0000_0000,
        k < 0x100_0000_0000,
    ensures
        nth_word(rng, j) != nth_word(rng.spec_jump(), k),
{
    lemma_jump(rng);
    lemma_skip_add(rng, 0x100_0000_0000, k);
    assert(nth_word(rng.spec_jump(), k) == nth_word(rng, 0x100_0000_0000 + k));
    lemma_words_distinct(rng, j, 0x100_0000_0000 + k);
}

/// Whatever the seed, the state that it is expanded to for the 256-bit
/// generator is not the state of four zeros, which that generator would
/// never leave.
pub proof fn lemma_seed_state_not_zero(seed: u64)
    ensures
        crate::rng::xoshiro256::seed_state(seed) != (0u64, 0u64, 0u64, 0u64),
{
    let a = spec_next(seed);
    let b = spec_next(a.1);
    if a.0 == 0 && b.0 == 0 {
        lemma_mix64_injective(a.1, b.1);
        assert(b.1 == a.1.wrapping_add(GOLDEN_GAMMA));
    }
}

} // verus!
