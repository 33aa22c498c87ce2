use vstd::prelude::*;

use crate::random::Random;
use crate::rng::entropy::{getentropy, EntropyError};
use crate::rng::splitmix64::{spec_next, SplitMix64};
use crate::rng::util::{
    high32, rotl64, spec_high32, spec_rotl64, spec_u64_from_le, spec_unit_f32_bits,
    spec_unit_f64_bits, stream_bytes, stream_rest, u64_from_le, unit_f32_bits, unit_f64_bits,
};
use crate::rng::{Rng, WordSource};

verus! {

/// The four words of state.
pub type State = (u64, u64, u64, u64);

/// The 256 bits of the jump polynomial, least significant word first.
pub const JUMP: [u64; 4] = [
    0x180ec6d33cfd0aba,
    0xd5a61266f0c9392c,
    0xa9582618e03fc9aa,
    0x39abdc4529b1661c,
];

/// The xoshiro256 random number generator: 256 bits of state that a linear
/// recurrence of xor, shift and rotate advances, and a scrambler of two of
/// its words for the result.
#[derive(Debug)]
pub struct Xoshiro256 {
    s0: u64,
    s1: u64,
    s2: u64,
    s3: u64,
}

impl View for Xoshiro256 {
    type V = State;

    closed spec fn view(&self) -> State {
        (self.s0, self.s1, self.s2, self.s3)
    }
}

/// One step of the recurrence.
pub open spec fn spec_advance(s: State) -> State {
    let t = s.1 << 17u64;
    let s2 = s.2 ^ s.0;
    let s3 = s.3 ^ s.1;
    let s1 = s.1 ^ s2;
    let s0 = s.0 ^ s3;
    (s0, s1, s2 ^ t, spec_rotl64(s3, 45))
}

/// `n` steps of the recurrence.
pub open spec fn spec_advanced(s: State, n: nat) -> State
    decreases n,
{
    if n == 0 {
        s
    } else {
        spec_advance(spec_advanced(s, (n - 1) as nat))
    }
}

/// The "++" scrambler: the sum of the outer words, rotated, plus the first.
pub open spec fn spec_plusplus(s: State) -> u64 {
    spec_rotl64(s.0.wrapping_add(s.3), 23).wrapping_add(s.0)
}

/// The "+" scrambler: the sum of the outer words.
pub open spec fn spec_plus(s: State) -> u64 {
    s.0.wrapping_add(s.3)
}

/// Bit `q` of the jump polynomial.
pub open spec fn jump_bit(q: int) -> bool {
    JUMP[q / 64] & (1u64 << ((q % 64) as u64)) != 0
}

/// Word by word exclusive or of two states.
pub open spec fn spec_xor(a: State, b: State) -> State {
    (a.0 ^ b.0, a.1 ^ b.1, a.2 ^ b.2, a.3 ^ b.3)
}

/// The exclusive or of the states that `s` reaches after `q` steps, over the
/// `q` below `n` whose bit is set in the jump polynomial.
pub open spec fn spec_jump_sum(s: State, n: nat) -> State
    decreases n,
{
    if n == 0 {
        (0, 0, 0, 0)
    } else {
        let sum = spec_jump_sum(s, (n - 1) as nat);
        if jump_bit(n - 1) {
            spec_xor(sum, spec_advanced(s, (n - 1) as nat))
        } else {
            sum
        }
    }
}

/// The state that a 64-bit seed stands for: the first four words of the
/// splitting mixer that starts at the seed.
pub open spec fn seed_state(seed: u64) -> State {
    let a = spec_next(seed);
    let b = spec_next(a.1);
    let c = spec_next(b.1);
    let d = spec_next(c.1);
    (a.0, b.0, c.0, d.0)
}

/// The state that 32 bytes spell, each word least significant byte first.
pub open spec fn bytes_state(bytes: Seq<u8>) -> State {
    (
        spec_u64_from_le(bytes.subrange(0, 8)),
        spec_u64_from_le(bytes.subrange(8, 16)),
        spec_u64_from_le(bytes.subrange(16, 24)),
        spec_u64_from_le(bytes.subrange(24, 32)),
    )
}

/// A step of the recurrence leads to four zeros only from four zeros.
pub proof fn lemma_advance_not_zero(s: State)
    requires
        s != (0u64, 0u64, 0u64, 0u64),
    ensures
        spec_advance(s) != (0u64, 0u64, 0u64, 0u64),
{
    let (s0, s1, s2, s3) = s;
    assert(((s0 ^ (s3 ^ s1)) == 0 && (s1 ^ (s2 ^ s0)) == 0 && ((s2 ^ s0) ^ (s1 << 17u64)) == 0 && ((
    (s3 ^ s1) << 45u32) | ((s3 ^ s1) >> 19u32)) == 0) ==> (s0 == 0 && s1 == 0 && s2 == 0 && s3
        == 0)) by (bit_vector);
}

/// A generator that does not start at four zeros never gets there: its
/// words never freeze.
pub proof fn lemma_never_zero(s: State, n: nat)
    requires
        s != (0u64, 0u64, 0u64, 0u64),
    ensures
        spec_advanced(s, n) != (0u64, 0u64, 0u64, 0u64),
    decreases n,
{
    if n > 0 {
        lemma_never_zero(s, (n - 1) as nat);
        lemma_advance_not_zero(spec_advanced(s, (n - 1) as nat));
    }
}

impl Clone for Xoshiro256 {
    fn clone(&self) -> (copy: Self)
        ensures
            copy == *self,
    {
        Xoshiro256 { s0: self.s0, s1: self.s1, s2: self.s2, s3: self.s3 }
    }
}

impl Xoshiro256 {
    /// The generator whose state is `s`.
    pub closed spec fn of_state(s: State) -> Xoshiro256 {
        Xoshiro256 { s0: s.0, s1: s.1, s2: s.2, s3: s.3 }
    }

    /// A generator is the generator of its state.
    pub broadcast proof fn lemma_of_state(s: State)
        ensures
            #[trigger] Self::of_state(s)@ == s,
            Self::of_state(Self::of_state(s)@) == Self::of_state(s),
    {
    }

    /// A generator is the generator of its state.
    pub broadcast proof fn lemma_view(&self)
        ensures
            #[trigger] Self::of_state(self@) == *self,
    {
    }

    /// Creates a new instance seeded securely from system entropy.
    ///
    /// Fails where the system cannot provide secure entropy.
    pub fn new() -> (r: Result<Random<Xoshiro256>, EntropyError>)
        ensures
            r matches Ok(rand) ==> exists|bytes: Seq<u8>|
                bytes.len() == 32 && rand@@ == #[trigger] bytes_state(bytes),
            r matches Err(e) ==> e == EntropyError::NotReady,
    {
        let mut bytes = [0u8; 32];
        match getentropy(&mut bytes) {
            Ok(()) => {
                let rand = Self::from_bytes(&bytes);
                assert(rand@@ == bytes_state(bytes@));
                Ok(rand)
            },
            Err(e) => Err(e),
        }
    }

    /// Creates a new instance whose four words of state the 32 bytes spell,
    /// each word least significant byte first.
    pub fn from_bytes(bytes: &[u8; 32]) -> (rand: Random<Xoshiro256>)
        ensures
            rand@@ == bytes_state(bytes@),
    {
        Random::wrap(
            Xoshiro256 {
                s0: u64_from_le(bytes, 0),
                s1: u64_from_le(bytes, 8),
                s2: u64_from_le(bytes, 16),
                s3: u64_from_le(bytes, 24),
            },
        )
    }

    /// Creates a new instance seeded from another generator: the state is
    /// made of the next 32 bytes that it fills.
    pub fn from_rng<R: Rng>(rand: &mut Random<R>) -> (child: Random<Xoshiro256>)
        ensures
            child@@ == bytes_state(old(rand)@.spec_fill_bytes(32).0),
            final(rand)@ == old(rand)@.spec_fill_bytes(32).1,
    {
        let mut bytes = [0u8; 32];
        rand.fill_bytes(&mut bytes);
        Self::from_bytes(&bytes)
    }

    /// Creates a new instance whose state is the four given words.
    pub fn from_state(state: [u64; 4]) -> (rand: Random<Xoshiro256>)
        ensures
            rand@@ == (state[0], state[1], state[2], state[3]),
    {
        Random::wrap(Xoshiro256 { s0: state[0], s1: state[1], s2: state[2], s3: state[3] })
    }

    /// Creates a new instance using the given seed.
    ///
    /// The splitting mixer expands the seed, so that a seed of zero is as
    /// good as any other.
    pub fn from_seed(seed: u64) -> (rand: Random<Xoshiro256>)
        ensures
            rand@@ == seed_state(seed),
    {
        let mut master = SplitMix64::from_seed(seed);
        proof {
            SplitMix64::lemma_of_state(spec_next(seed).1);
        }
        let s0 = master.next_u64();
        proof {
            SplitMix64::lemma_of_state(spec_next(master@.state()).1);
        }
        let s1 = master.next_u64();
        proof {
            SplitMix64::lemma_of_state(spec_next(master@.state()).1);
        }
        let s2 = master.next_u64();
        proof {
            SplitMix64::lemma_of_state(spec_next(master@.state()).1);
        }
        let s3 = master.next_u64();
        Random::wrap(Xoshiro256 { s0, s1, s2, s3 })
    }

    /// One step of the recurrence.
    fn advance(&mut self)
        ensures
            final(self)@ == spec_advance(old(self)@),
    {
        let t = self.s1 << 17u64;
        self.s2 ^= self.s0;
        self.s3 ^= self.s1;
        self.s1 ^= self.s2;
        self.s0 ^= self.s3;
        self.s2 ^= t;
        self.s3 = rotl64(self.s3, 45);
    }

    /// The "++" result of this state, and a step.
    fn next_plusplus(&mut self) -> (value: u64)
        ensures
            value == spec_plusplus(old(self)@),
            final(self)@ == spec_advance(old(self)@),
    {
        let result = rotl64(self.s0.wrapping_add(self.s3), 23).wrapping_add(self.s0);
        self.advance();
        result
    }

    /// The "+" result of this state, and a step.
    fn next_plus(&mut self) -> (value: u64)
        ensures
            value == spec_plus(old(self)@),
            final(self)@ == spec_advance(old(self)@),
    {
        let result = self.s0.wrapping_add(self.s3);
        self.advance();
        result
    }
}

impl WordSource for Xoshiro256 {
    open spec fn spec_word(&self) -> (u64, Self) {
        (spec_plusplus(self@), Self::of_state(spec_advance(self@)))
    }

    fn word(&mut self) -> (value: u64)
        ensures
            value == spec_plusplus(old(self)@),
            final(self)@ == spec_advance(old(self)@),
    {
        let value = self.next_plusplus();
        proof {
            self.lemma_view();
        }
        value
    }
}

impl Rng for Xoshiro256 {
    open spec fn spec_next_u32(&self) -> (u32, Self) {
        (spec_high32(spec_plus(self@)), Self::of_state(spec_advance(self@)))
    }

    open spec fn spec_next_u64(&self) -> (u64, Self) {
        (spec_plusplus(self@), Self::of_state(spec_advance(self@)))
    }

    open spec fn spec_next_f32_bits(&self) -> (u32, Self) {
        (
            spec_unit_f32_bits(spec_high32(spec_plus(self@))),
            Self::of_state(spec_advance(self@)),
        )
    }

    open spec fn spec_next_f64_bits(&self) -> (u64, Self) {
        (spec_unit_f64_bits(spec_plus(self@)), Self::of_state(spec_advance(self@)))
    }

    open spec fn spec_fill_bytes(&self, len: nat) -> (Seq<u8>, Self) {
        (stream_bytes(*self, len), stream_rest(*self, len))
    }

    open spec fn spec_jump(&self) -> Self {
        Self::of_state(spec_jump_sum(self@, 256))
    }

    fn next_u32(&mut self) -> (value: u32)
        ensures
            value == spec_high32(spec_plus(old(self)@)),
            final(self)@ == spec_advance(old(self)@),
    {
        let value = high32(self.next_plus());
        proof {
            self.lemma_view();
        }
        value
    }

    fn next_u64(&mut self) -> (value: u64)
        ensures
            value == spec_plusplus(old(self)@),
            final(self)@ == spec_advance(old(self)@),
    {
        let value = self.next_plusplus();
        proof {
            self.lemma_view();
        }
        value
    }

    fn next_f32_bits(&mut self) -> (bits: u32)
        ensures
            final(self)@ == spec_advance(old(self)@),
    {
        let bits = unit_f32_bits(high32(self.next_plus()));
        proof {
            self.lemma_view();
        }
        bits
    }

    fn next_f64_bits(&mut self) -> (bits: u64)
        ensures
            final(self)@ == spec_advance(old(self)@),
    {
        let bits = unit_f64_bits(self.next_plus());
        proof {
            self.lemma_view();
        }
        bits
    }

    fn fill_bytes(&mut self, buf: &mut [u8]) {
        crate::rng::util::rng_fill_bytes(self, buf);
    }

    /// Replaces the state by the exclusive or of the states that the set bits
    /// of the jump polynomial pick among the next 256: the state that 2^128
    /// steps would reach.
    fn jump(&mut self)
        ensures
            final(self)@ == spec_jump_sum(old(self)@, 256),
    {
        let ghost start = self@;
        let mut s0: u64 = 0;
        let mut s1: u64 = 0;
        let mut s2: u64 = 0;
        let mut s3: u64 = 0;
        let mut i: usize = 0;
        while i < 4
            invariant
                i <= 4,
                self@ == spec_advanced(start, (64 * i) as nat),
                (s0, s1, s2, s3) == spec_jump_sum(start, (64 * i) as nat),
            decreases 4 - i,
        {
            let mut b: u64 = 0;
            while b < 64
                invariant
                    i < 4,
                    b <= 64,
                    self@ == spec_advanced(start, (64 * i + b) as nat),
                    (s0, s1, s2, s3) == spec_jump_sum(start, (64 * i + b) as nat),
                decreases 64 - b,
            {
                assert((64 * i + b) / 64 == i && (64 * i + b) % 64 == b);
                if (JUMP[i] & (1u64 << b)) != 0 {
                    s0 ^= self.s0;
                    s1 ^= self.s1;
                    s2 ^= self.s2;
                    s3 ^= self.s3;
                }
                self.advance();
                b += 1;
            }
            i += 1;
        }
        self.s0 = s0;
        self.s1 = s1;
        self.s2 = s2;
        self.s3 = s3;
        proof {
            self.lemma_view();
        }
    }
}

} // verus!
