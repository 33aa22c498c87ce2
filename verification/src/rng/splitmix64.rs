use vstd::prelude::*;

use crate::random::Random;
use crate::rng::entropy::{getentropy, EntropyError};
use crate::rng::util::{
    high32, spec_high32, spec_u64_from_le, stream_bytes, stream_rest, u64_from_le, unit_f32_bits,
    unit_f64_bits,
};
use crate::rng::{Rng, WordSource};

verus! {

/// The odd increment of the state, close to 2^64 divided by the golden ratio.
pub const GOLDEN_GAMMA: u64 = 0x9e3779b97f4a7c15;

/// Fast generator with 64 bits of state, which also serves to initialize the
/// state of other generators.
#[derive(Debug)]
pub struct SplitMix64 {
    state: u64,
}

/// Three rounds of xor-shift and multiply that spread every input bit over
/// the whole word.
pub open spec fn spec_mix64(z: u64) -> u64 {
    let a = (z ^ (z >> 30u64)).wrapping_mul(0xbf58476d1ce4e5b9);
    let b = (a ^ (a >> 27u64)).wrapping_mul(0x94d049bb133111eb);
    b ^ (b >> 31u64)
}

/// The state that follows `state`, and the word it yields.
pub open spec fn spec_next(state: u64) -> (u64, u64) {
    let next = state.wrapping_add(GOLDEN_GAMMA);
    (spec_mix64(next), next)
}

pub fn mix64(z: u64) -> (r: u64)
    ensures
        r == spec_mix64(z),
{
    let a = (z ^ (z >> 30u64)).wrapping_mul(0xbf58476d1ce4e5b9);
    let b = (a ^ (a >> 27u64)).wrapping_mul(0x94d049bb133111eb);
    b ^ (b >> 31u64)
}

impl SplitMix64 {
    /// The 64 bits of state.
    pub closed spec fn state(&self) -> u64 {
        self.state
    }

    /// The generator whose state is `state`.
    pub closed spec fn of_state(state: u64) -> SplitMix64 {
        SplitMix64 { state }
    }

    /// The state of the generator of `state` is `state`.
    pub broadcast proof fn lemma_of_state(state: u64)
        ensures
            #[trigger] Self::of_state(state).state() == state,
    {
    }

    /// A generator is the generator of its state.
    pub broadcast proof fn lemma_state(&self)
        ensures
            #[trigger] Self::of_state(self.state()) == *self,
    {
    }

    /// Creates a new instance seeded securely from system entropy.
    ///
    /// Fails where the system cannot provide secure entropy.
    pub fn new() -> (r: Result<Random<SplitMix64>, EntropyError>)
        ensures
            r matches Ok(rand) ==> exists|bytes: Seq<u8>|
                bytes.len() == 8 && rand@.state() == #[trigger] spec_u64_from_le(bytes),
            r matches Err(e) ==> e == EntropyError::NotReady,
    {
        let mut bytes = [0u8; 8];
        match getentropy(&mut bytes) {
            Ok(()) => {
                let rand = Self::from_bytes(&bytes);
                assert(rand@.state() == spec_u64_from_le(bytes@));
                Ok(rand)
            },
            Err(e) => Err(e),
        }
    }

    /// Creates a new instance whose state the eight bytes spell, least
    /// significant byte first.
    pub fn from_bytes(bytes: &[u8; 8]) -> (rand: Random<SplitMix64>)
        ensures
            rand@.state() == spec_u64_from_le(bytes@),
    {
        assert(bytes@.subrange(0, 8) =~= bytes@);
        Random::wrap(SplitMix64 { state: u64_from_le(bytes, 0) })
    }

    /// Creates a new instance seeded from another generator: the state is
    /// its next `u64`.
    pub fn from_rng<R: Rng>(rand: &mut Random<R>) -> (child: Random<SplitMix64>)
        ensures
            (child@.state(), final(rand)@) == old(rand)@.spec_next_u64(),
    {
        Random::wrap(SplitMix64 { state: rand.next_u64() })
    }

    /// Creates a new instance using the given seed.
    pub fn from_seed(seed: u64) -> (rand: Random<SplitMix64>)
        ensures
            rand@.state() == seed,
    {
        Random::wrap(SplitMix64 { state: seed })
    }
}

/// The state that `n` steps lead to from `state`: each adds the golden gamma.
pub open spec fn state_after(state: u64, n: nat) -> u64 {
    ((state + n * GOLDEN_GAMMA) % 0x1_0000_0000_0000_0000) as u64
}

impl Clone for SplitMix64 {
    fn clone(&self) -> (copy: Self)
        ensures
            copy == *self,
    {
        SplitMix64 { state: self.state }
    }
}

impl WordSource for SplitMix64 {
    open spec fn spec_word(&self) -> (u64, Self) {
        (spec_next(self.state()).0, Self::of_state(spec_next(self.state()).1))
    }

    fn word(&mut self) -> (value: u64)
        ensures
            (value, final(self).state()) == spec_next(old(self).state()),
    {
        self.state = self.state.wrapping_add(GOLDEN_GAMMA);
        mix64(self.state)
    }
}

impl Rng for SplitMix64 {
    open spec fn spec_next_u32(&self) -> (u32, Self) {
        (spec_high32(self.spec_word().0), self.spec_word().1)
    }

    open spec fn spec_next_u64(&self) -> (u64, Self) {
        self.spec_word()
    }

    open spec fn spec_fill_bytes(&self, len: nat) -> (Seq<u8>, Self) {
        (stream_bytes(*self, len), stream_rest(*self, len))
    }

    /// The state that 2^40 steps would reach.
    open spec fn spec_jump(&self) -> Self {
        Self::of_state(self.state().wrapping_add(GOLDEN_GAMMA << 40u64))
    }

    fn next_u32(&mut self) -> (value: u32)
        ensures
            value == spec_high32(spec_next(old(self).state()).0),
            final(self).state() == spec_next(old(self).state()).1,
    {
        high32(self.word())
    }

    fn next_u64(&mut self) -> (value: u64)
        ensures
            (value, final(self).state()) == spec_next(old(self).state()),
    {
        self.word()
    }

    fn next_f32_bits(&mut self) -> (bits: u32) {
        unit_f32_bits(self.next_u32())
    }

    fn next_f64_bits(&mut self) -> (bits: u64) {
        unit_f64_bits(self.next_u64())
    }

    fn fill_bytes(&mut self, buf: &mut [u8]) {
        crate::rng::util::rng_fill_bytes(self, buf);
    }

    fn jump(&mut self)
        ensures
            final(self).state() == old(self).state().wrapping_add(GOLDEN_GAMMA << 40u64),
    {
        self.state = self.state.wrapping_add(GOLDEN_GAMMA << 40u64);
    }
}

/// After `n` steps the state has grown by `n` golden gammas.
pub proof fn lemma_skip(rng: SplitMix64, n: nat)
    ensures
        crate::rng::util::skip_words(rng, n).state() == state_after(rng.state(), n),
    decreases n,
{
    if n > 0 {
        lemma_skip(rng, (n - 1) as nat);
        let prev = crate::rng::util::skip_words(rng, (n - 1) as nat);
        SplitMix64::lemma_of_state(spec_next(prev.state()).1);
        assert(crate::rng::util::skip_words(rng, n) == prev.spec_word().1);
        let a = (rng.state() + (n - 1) * GOLDEN_GAMMA) as int;
        assert((a % 0x1_0000_0000_0000_0000 + GOLDEN_GAMMA) % 0x1_0000_0000_0000_0000 == (a
            + GOLDEN_GAMMA) % 0x1_0000_0000_0000_0000) by {
            vstd::arithmetic::div_mod::lemma_add_mod_noop(a, GOLDEN_GAMMA as int, 0x1_0000_0000_0000_0000);
            vstd::arithmetic::div_mod::lemma_small_mod(GOLDEN_GAMMA as nat, 0x1_0000_0000_0000_0000);
        }
        assert((n - 1) * GOLDEN_GAMMA + GOLDEN_GAMMA == n * GOLDEN_GAMMA) by (nonlinear_arith);
    }
}

/// A jump leads where 2^40 steps lead.
pub proof fn lemma_jump(rng: SplitMix64)
    ensures
        rng.spec_jump() == crate::rng::util::skip_words(rng, 0x100_0000_0000),
{
    lemma_skip(rng, 0x100_0000_0000);
    let s = rng.state() as int;
    assert(GOLDEN_GAMMA << 40u64 == 0x4a7c_1500_0000_0000u64) by (bit_vector);
    assert(0x100_0000_0000 * GOLDEN_GAMMA == 0x9e_3779_b97f * 0x1_0000_0000_0000_0000
        + 0x4a7c_1500_0000_0000);
    assert((0x100_0000_0000 * GOLDEN_GAMMA) % 0x1_0000_0000_0000_0000 == 0x4a7c_1500_0000_0000);
    assert((s + 0x100_0000_0000 * GOLDEN_GAMMA) % 0x1_0000_0000_0000_0000 == (s
        + 0x4a7c_1500_0000_0000) % 0x1_0000_0000_0000_0000) by {
        vstd::arithmetic::div_mod::lemma_add_mod_noop_right(
            s,
            0x100_0000_0000 * GOLDEN_GAMMA,
            0x1_0000_0000_0000_0000,
        );
        vstd::arithmetic::div_mod::lemma_small_mod(
            0x4a7c_1500_0000_0000,
            0x1_0000_0000_0000_0000,
        );
    }
    let jumped = rng.spec_jump();
    let stepped = crate::rng::util::skip_words(rng, 0x100_0000_0000);
    SplitMix64::lemma_of_state(rng.state().wrapping_add(GOLDEN_GAMMA << 40u64));
    assert(jumped.state() == stepped.state());
    stepped.lemma_state();
    jumped.lemma_state();
}

} // verus!
