use vstd::prelude::*;

use crate::random::Random;
use crate::rng::entropy::{getentropy, EntropyError};
use crate::rng::util::{
    high32, spec_high32, spec_u64_from_le, spec_wide_mul, stream_bytes, stream_rest, u64_from_le,
    unit_f32_bits, unit_f64_bits, wide_mul,
};
use crate::rng::{Rng, WordSource};

verus! {

/// The odd increment of the state.
pub const INCREMENT: u64 = 0x2d358dccaa6c78a5;

/// The mask that the state is xored with before the multiplication.
pub const MASK: u64 = 0x8bb84b93962eacc9;

/// Tiny and very fast generator with 64 bits of state: the state grows by an
/// odd constant, and the result folds the 128-bit product of the state and
/// the masked state.
#[derive(Debug)]
pub struct Wyrand {
    state: u64,
}

/// The lower and the upper half of the 128-bit product of `a` and `b`.
pub open spec fn spec_rapid_mum(a: u64, b: u64) -> (u64, u64) {
    (spec_wide_mul(a, b).1, spec_wide_mul(a, b).0)
}

/// The exclusive or of the two halves of the 128-bit product of `a` and `b`.
pub open spec fn spec_rapid_mix(a: u64, b: u64) -> u64 {
    spec_wide_mul(a, b).1 ^ spec_wide_mul(a, b).0
}

/// The state that follows `state`, and the word it yields.
pub open spec fn spec_wyrand(state: u64) -> (u64, u64) {
    let next = state.wrapping_add(INCREMENT);
    (spec_rapid_mix(next ^ MASK, next), next)
}

/// The lower and the upper half of the 128-bit product of `a` and `b`.
pub fn rapid_mum(a: u64, b: u64) -> (r: (u64, u64))
    ensures
        r == spec_rapid_mum(a, b),
{
    let (high, low) = wide_mul(a, b);
    (low, high)
}

/// The exclusive or of the two halves of the 128-bit product of `a` and `b`.
pub fn rapid_mix(a: u64, b: u64) -> (r: u64)
    ensures
        r == spec_rapid_mix(a, b),
{
    let (a, b) = rapid_mum(a, b);
    a ^ b
}

impl Clone for Wyrand {
    fn clone(&self) -> (copy: Self)
        ensures
            copy == *self,
    {
        Wyrand { state: self.state }
    }
}

impl Wyrand {
    /// The 64 bits of state.
    pub closed spec fn state(&self) -> u64 {
        self.state
    }

    /// The generator whose state is `state`.
    pub closed spec fn of_state(state: u64) -> Wyrand {
        Wyrand { state }
    }

    /// A generator is the generator of its state.
    pub broadcast proof fn lemma_of_state(state: u64)
        ensures
            #[trigger] Self::of_state(state).state() == state,
    {
    }

    /// A generator is the generator of its state.
    pub broadcast proof fn lemma_state(&self)
        ensures
            #[trigger] Self::of_state(self.state()) == *self,
    {
    }

    /// Creates a new instance seeded securely from system entropy.
    ///
    /// Fails where the system cannot provide secure entropy.
    pub fn new() -> (r: Result<Random<Wyrand>, EntropyError>)
        ensures
            r matches Ok(rand) ==> exists|bytes: Seq<u8>|
                bytes.len() == 8 && rand@.state() == #[trigger] spec_u64_from_le(bytes),
            r matches Err(e) ==> e == EntropyError::NotReady,
    {
        let mut bytes = [0u8; 8];
        match getentropy(&mut bytes) {
            Ok(()) => {
                let rand = Self::from_bytes(&bytes);
                assert(rand@.state() == spec_u64_from_le(bytes@));
                Ok(rand)
            },
            Err(e) => Err(e),
        }
    }

    /// Creates a new instance whose state the eight bytes spell, least
    /// significant byte first.
    pub fn from_bytes(bytes: &[u8; 8]) -> (rand: Random<Wyrand>)
        ensures
            rand@.state() == spec_u64_from_le(bytes@),
    {
        assert(bytes@.subrange(0, 8) =~= bytes@);
        Random::wrap(Wyrand { state: u64_from_le(bytes, 0) })
    }

    /// Creates a new instance seeded from another generator: the state is
    /// its next `u64`.
    pub fn from_rng<R: Rng>(rand: &mut Random<R>) -> (child: Random<Wyrand>)
        ensures
            (child@.state(), final(rand)@) == old(rand)@.spec_next_u64(),
    {
        Random::wrap(Wyrand { state: rand.next_u64() })
    }

    /// Creates a new instance using the given seed.
    pub fn from_seed(seed: u64) -> (rand: Random<Wyrand>)
        ensures
            rand@.state() == seed,
    {
        Random::wrap(Wyrand { state: seed })
    }
}

impl WordSource for Wyrand {
    open spec fn spec_word(&self) -> (u64, Self) {
        (spec_wyrand(self.state()).0, Self::of_state(spec_wyrand(self.state()).1))
    }

    fn word(&mut self) -> (value: u64)
        ensures
            (value, final(self).state()) == spec_wyrand(old(self).state()),
    {
        self.state = self.state.wrapping_add(INCREMENT);
        rapid_mix(self.state ^ MASK, self.state)
    }
}

impl Rng for Wyrand {
    open spec fn spec_next_u32(&self) -> (u32, Self) {
        (spec_high32(self.spec_word().0), self.spec_word().1)
    }

    open spec fn spec_next_u64(&self) -> (u64, Self) {
        self.spec_word()
    }

    open spec fn spec_fill_bytes(&self, len: nat) -> (Seq<u8>, Self) {
        (stream_bytes(*self, len), stream_rest(*self, len))
    }

    /// The state that 2^40 steps would reach.
    open spec fn spec_jump(&self) -> Self {
        Self::of_state(self.state().wrapping_add(INCREMENT << 40u64))
    }

    fn next_u32(&mut self) -> (value: u32)
        ensures
            value == spec_high32(spec_wyrand(old(self).state()).0),
            final(self).state() == spec_wyrand(old(self).state()).1,
    {
        high32(self.word())
    }

    fn next_u64(&mut self) -> (value: u64)
        ensures
            (value, final(self).state()) == spec_wyrand(old(self).state()),
    {
        self.word()
    }

    fn next_f32_bits(&mut self) -> (bits: u32) {
        unit_f32_bits(self.next_u32())
    }

    fn next_f64_bits(&mut self) -> (bits: u64) {
        unit_f64_bits(self.next_u64())
    }

    fn fill_bytes(&mut self, buf: &mut [u8]) {
        crate::rng::util::rng_fill_bytes(self, buf);
    }

    fn jump(&mut self)
        ensures
            final(self).state() == old(self).state().wrapping_add(INCREMENT << 40u64),
    {
        self.state = self.state.wrapping_add(INCREMENT << 40u64);
    }
}

/// The state that `n` steps lead to from `state`: each adds the increment.
pub open spec fn state_after(state: u64, n: nat) -> u64 {
    ((state + n * INCREMENT) % 0x1_0000_0000_0000_0000) as u64
}

/// After `n` steps the state has grown by `n` increments.
pub proof fn lemma_skip(rng: Wyrand, n: nat)
    ensures
        crate::rng::util::skip_words(rng, n).state() == state_after(rng.state(), n),
    decreases n,
{
    if n > 0 {
        lemma_skip(rng, (n - 1) as nat);
        let prev = crate::rng::util::skip_words(rng, (n - 1) as nat);
        Wyrand::lemma_of_state(spec_wyrand(prev.state()).1);
        let a = (rng.state() + (n - 1) * INCREMENT) as int;
        assert((a % 0x1_0000_0000_0000_0000 + INCREMENT) % 0x1_0000_0000_0000_0000 == (a + INCREMENT)
            % 0x1_0000_0000_0000_0000) by {
            vstd::arithmetic::div_mod::lemma_add_mod_noop(a, INCREMENT as int, 0x1_0000_0000_0000_0000);
            vstd::arithmetic::div_mod::lemma_small_mod(INCREMENT as nat, 0x1_0000_0000_0000_0000);
        }
        assert((n - 1) * INCREMENT + INCREMENT == n * INCREMENT) by (nonlinear_arith);
    }
}

/// Two numbers of steps that differ by less than 2^64 lead to different
/// states: the increment is odd.
pub proof fn lemma_states_distinct(state: u64, m: nat, n: nat)
    requires
        m < n < m + 0x1_0000_0000_0000_0000,
    ensures
        state_after(state, m) != state_after(state, n),
{
    let w = 0x1_0000_0000_0000_0000int;
    let g = INCREMENT as int;
    let d = 0x32e25c49d2beaf2dint;
    if state_after(state, m) == state_after(state, n) {
        let x = state + m * g;
        let y = state + n * g;
        vstd::arithmetic::div_mod::lemma_fundamental_div_mod(x, w);
        vstd::arithmetic::div_mod::lemma_fundamental_div_mod(y, w);
        let q = y / w - x / w;
        assert(w * (y / w) - w * (x / w) == q * w) by (nonlinear_arith)
            requires
                q == y / w - x / w,
        ;
        assert((n - m) * g == n * g - m * g) by (nonlinear_arith);
        assert((n - m) * g == q * w);
        assert(g * d == 1 + 647514790463945455 * w);
        assert((n - m) * g * d == (n - m) + ((n - m) * 647514790463945455) * w)
            by (nonlinear_arith)
            requires
                g * d == 1 + 647514790463945455 * w,
        ;
        assert((n - m) * g * d == (q * d) * w) by (nonlinear_arith)
            requires
                (n - m) * g == q * w,
        ;
        let t = q * d - (n - m) * 647514790463945455;
        assert(n - m == t * w) by (nonlinear_arith)
            requires
                (n - m) + ((n - m) * 647514790463945455) * w == (q * d) * w,
                t == q * d - (n - m) * 647514790463945455,
        ;
        assert(false) by (nonlinear_arith)
            requires
                n - m == t * w,
                0 < n - m < w,
                w > 0,
        ;
    }
}

/// A generator and its clone that has jumped pass through no state in
/// common within the first 2^40 steps of each.
pub proof fn lemma_jump_disjoint(rng: Wyrand, j: nat, k: nat)
    requires
        j < 0x100_0000_0000,
        k < 0x100_0000_0000,
    ensures
        crate::rng::util::skip_words(rng, j) != crate::rng::util::skip_words(rng.spec_jump(), k),
{
    lemma_jump(rng);
    crate::rng::util::lemma_skip_add(rng, 0x100_0000_0000, k);
    lemma_skip(rng, j);
    lemma_skip(rng, 0x100_0000_0000 + k);
    lemma_states_distinct(rng.state(), j, 0x100_0000_0000 + k);
}

/// A jump leads where 2^40 steps lead.
pub proof fn lemma_jump(rng: Wyrand)
    ensures
        rng.spec_jump() == crate::rng::util::skip_words(rng, 0x100_0000_0000),
{
    lemma_skip(rng, 0x100_0000_0000);
    let s = rng.state() as int;
    assert(INCREMENT << 40u64 == 0x6c78_a500_0000_0000u64) by (bit_vector);
    assert(0x100_0000_0000 * INCREMENT == 0x2d_358d_ccaa * 0x1_0000_0000_0000_0000
        + 0x6c78_a500_0000_0000);
    assert((0x100_0000_0000 * INCREMENT) % 0x1_0000_0000_0000_0000 == 0x6c78_a500_0000_0000);
    assert((s + 0x100_0000_0000 * INCREMENT) % 0x1_0000_0000_0000_0000 == (s + 0x6c78_a500_0000_0000)
        % 0x1_0000_0000_0000_0000) by {
        vstd::arithmetic::div_mod::lemma_add_mod_noop_right(
            s,
            0x100_0000_0000 * INCREMENT,
            0x1_0000_0000_0000_0000,
        );
        vstd::arithmetic::div_mod::lemma_small_mod(
            0x6c78_a500_0000_0000,
            0x1_0000_0000_0000_0000,
        );
    }
    let jumped = rng.spec_jump();
    let stepped = crate::rng::util::skip_words(rng, 0x100_0000_0000);
    Wyrand::lemma_of_state(rng.state().wrapping_add(INCREMENT << 40u64));
    assert(jumped.state() == stepped.state());
    stepped.lemma_state();
    jumped.lemma_state();
}

} // verus!
