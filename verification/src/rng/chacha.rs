//! Daniel J. Bernstein's ChaCha adapted as a deterministic random number generator.
use vstd::prelude::*;

use crate::random::Random;
use crate::rng::block::{BlockRng, BlockRngImpl, BlockView, EXHAUSTED};
use crate::rng::chacha::rounds::{input_words, CONSTANT};
use crate::rng::chacha::slp::{block, spec_block};
use crate::rng::entropy::{getentropy, EntropyError};
use crate::rng::util::{
    high32, low32, spec_high32, spec_low32, spec_u32_from_le, spec_u64_from_le, u32_from_le,
    u64_from_le,
};
use crate::rng::{Rng, SecureRng};

pub mod rounds;
pub mod scalar;
pub mod slp;

verus! {

/// Key, block counter and stream identifier of the cipher.
#[derive(Debug)]
pub struct ChaChaCore {
    seed: [u32; 8],
    counter: u64,
    stream: u64,
}

/// What a [`ChaChaCore`] holds: the eight key words, the 64-bit block counter
/// and the 64-bit stream identifier.
pub struct ChaChaView {
    pub seed: Seq<u32>,
    pub counter: u64,
    pub stream: u64,
}

impl View for ChaChaCore {
    type V = ChaChaView;

    closed spec fn view(&self) -> ChaChaView {
        ChaChaView { seed: self.seed@, counter: self.counter, stream: self.stream }
    }
}

impl Clone for ChaChaCore {
    fn clone(&self) -> (copy: Self)
        ensures
            copy == *self,
    {
        ChaChaCore { seed: self.seed, counter: self.counter, stream: self.stream }
    }
}

/// The sixteen words of four rows, row after row.
pub open spec fn rows_words(m: [[u32; 4]; 4]) -> Seq<u32> {
    seq![
        m[0][0],
        m[0][1],
        m[0][2],
        m[0][3],
        m[1][0],
        m[1][1],
        m[1][2],
        m[1][3],
        m[2][0],
        m[2][1],
        m[2][2],
        m[2][3],
        m[3][0],
        m[3][1],
        m[3][2],
        m[3][3],
    ]
}

impl ChaChaCore {
    /// The sixteen input words of the block that this state stands for.
    pub open spec fn words(&self) -> Seq<u32> {
        input_words(self@.seed, self@.counter, self@.stream)
    }

    /// This state with `counter` in place of its block counter.
    pub closed spec fn with_counter(&self, counter: u64) -> ChaChaCore {
        ChaChaCore { seed: self.seed, counter, stream: self.stream }
    }

    /// This state with `stream` in place of its stream identifier.
    pub closed spec fn with_stream(&self, stream: u64) -> ChaChaCore {
        ChaChaCore { seed: self.seed, counter: self.counter, stream }
    }

    /// Only the counter differs between a state and `with_counter` of it.
    pub broadcast proof fn lemma_with_counter(&self, counter: u64)
        ensures
            #[trigger] self.with_counter(counter)@ == (ChaChaView { counter, ..self@ }),
            self.with_counter(self@.counter) == *self,
    {
    }

    /// Only the stream differs between a state and `with_stream` of it.
    pub broadcast proof fn lemma_with_stream(&self, stream: u64)
        ensures
            #[trigger] self.with_stream(stream)@ == (ChaChaView { stream, ..self@ }),
            self.with_stream(self@.stream) == *self,
    {
    }

    /// A state of the given key, block counter and stream identifier.
    pub fn new(seed: [u32; 8], counter: u64, stream: u64) -> (core: ChaChaCore)
        ensures
            core@ == (ChaChaView { seed: seed@, counter, stream }),
    {
        ChaChaCore { seed, counter, stream }
    }

    /// The input block as a matrix of four rows: the constant, the two halves
    /// of the key, and the counter with the stream identifier.
    pub fn get_state(&self) -> (m: [[u32; 4]; 4])
        ensures
            rows_words(m) == self.words(),
    {
        let m = [
            CONSTANT,
            [self.seed[0], self.seed[1], self.seed[2], self.seed[3]],
            [self.seed[4], self.seed[5], self.seed[6], self.seed[7]],
            [low32(self.counter), high32(self.counter), low32(self.stream), high32(self.stream)],
        ];
        assert(rows_words(m) =~= self.words());
        m
    }

    /// The block counter.
    pub fn get_counter(&self) -> (counter: u64)
        ensures
            counter == self@.counter,
    {
        self.counter
    }

    /// Sets the block counter.
    pub fn set_counter(&mut self, counter: u64)
        ensures
            *final(self) == old(self).with_counter(counter),
    {
        self.counter = counter;
    }

    /// A copy of this state whose block counter is `counter` further on,
    /// wrapping around at 2^64.
    pub fn add_counter(&self, counter: u64) -> (core: ChaChaCore)
        ensures
            core == self.with_counter(self@.counter.wrapping_add(counter)),
    {
        let mut this = self.clone();
        this.set_counter(self.get_counter().wrapping_add(counter));
        this
    }

    /// The stream identifier.
    pub fn get_stream(&self) -> (stream: u64)
        ensures
            stream == self@.stream,
    {
        self.stream
    }

    /// Sets the stream identifier.
    pub fn set_stream(&mut self, stream: u64)
        ensures
            *final(self) == old(self).with_stream(stream),
    {
        self.stream = stream;
    }
}

/// The blocks of two streams have no input in common: a jump, which moves
/// to the next stream, leads to blocks that the stream left behind never
/// makes, whatever the block counters are.
pub proof fn lemma_streams_disjoint(core: ChaChaCore, here: u64, there: u64)
    ensures
        core.with_counter(here).words() != core.with_stream(
            core@.stream.wrapping_add(1),
        ).with_counter(there).words(),
{
    let s = core@.stream;
    let t = s.wrapping_add(1);
    let a = core.with_counter(here);
    let b = core.with_stream(t).with_counter(there);
    core.lemma_with_counter(here);
    core.lemma_with_stream(t);
    core.with_stream(t).lemma_with_counter(there);
    assert(a@.stream == s && b@.stream == t);
    assert(s != t);
    assert(spec_low32(s) != spec_low32(t) || spec_high32(s) != spec_high32(t)) by {
        assert(s != t ==> (s as u32 != t as u32 || (s >> 32u64) as u32 != (t >> 32u64) as u32))
            by (bit_vector);
    }
    assert(a.words()[14] == spec_low32(s) && a.words()[15] == spec_high32(s));
    assert(b.words()[14] == spec_low32(t) && b.words()[15] == spec_high32(t));
}

/// The state of the cipher run with `N` rounds, as a generator of blocks.
#[derive(Debug)]
pub struct ChaChaState<const N: usize> {
    core: ChaChaCore,
}

impl<const N: usize> View for ChaChaState<N> {
    type V = ChaChaView;

    closed spec fn view(&self) -> ChaChaView {
        self.core@
    }
}

impl<const N: usize> Clone for ChaChaState<N> {
    fn clone(&self) -> (copy: Self)
        ensures
            copy == *self,
    {
        ChaChaState { core: self.core.clone() }
    }
}

impl<const N: usize> ChaChaState<N> {
    /// The key, counter and stream identifier without the number of rounds.
    pub closed spec fn cipher(&self) -> ChaChaCore {
        self.core
    }

    /// The state that holds `core`.
    pub closed spec fn of_core(core: ChaChaCore) -> ChaChaState<N> {
        ChaChaState { core }
    }

    /// A state is the state that holds its core, and has its core's view.
    pub broadcast proof fn lemma_cipher(&self)
        ensures
            #[trigger] Self::of_core(self.cipher()) == *self,
            self@ == self.cipher()@,
    {
    }

    /// The core of the state that holds `core` is `core`.
    pub broadcast proof fn lemma_of_core(core: ChaChaCore)
        ensures
            #[trigger] Self::of_core(core).cipher() == core,
    {
    }

    /// A state of the given key, block counter and stream identifier.
    pub fn new(seed: [u32; 8], counter: u64, stream: u64) -> (state: ChaChaState<N>)
        ensures
            state@ == (ChaChaView { seed: seed@, counter, stream }),
    {
        ChaChaState { core: ChaChaCore::new(seed, counter, stream) }
    }

    /// The input block as a matrix of four rows: the constant, the two halves
    /// of the key, and the counter with the stream identifier.
    pub fn get_state(&self) -> (m: [[u32; 4]; 4])
        ensures
            rows_words(m) == input_words(self@.seed, self@.counter, self@.stream),
    {
        self.core.get_state()
    }

    /// The block counter.
    pub fn get_counter(&self) -> (counter: u64)
        ensures
            counter == self@.counter,
    {
        self.core.get_counter()
    }

    /// Sets the block counter.
    pub fn set_counter(&mut self, counter: u64)
        ensures
            final(self).cipher() == old(self).cipher().with_counter(counter),
    {
        self.core.set_counter(counter);
    }

    /// A copy of this state whose block counter is `counter` further on,
    /// wrapping around at 2^64.
    pub fn add_counter(&self, counter: u64) -> (state: ChaChaState<N>)
        ensures
            state.cipher() == self.cipher().with_counter(self@.counter.wrapping_add(counter)),
    {
        ChaChaState { core: self.core.add_counter(counter) }
    }

    /// The stream identifier.
    pub fn get_stream(&self) -> (stream: u64)
        ensures
            stream == self@.stream,
    {
        self.core.get_stream()
    }

    /// Sets the stream identifier.
    pub fn set_stream(&mut self, stream: u64)
        ensures
            final(self).cipher() == old(self).cipher().with_stream(stream),
    {
        self.core.set_stream(stream);
    }
}

impl<const N: usize> BlockRng for ChaChaState<N> {
    /// Four output blocks of `N` rounds; the counter moves four blocks on.
    open spec fn spec_generate(&self) -> (Seq<u32>, Self) {
        (
            spec_block(self.cipher(), N as nat),
            Self::of_core(self.cipher().with_counter(self@.counter.wrapping_add(4))),
        )
    }

    /// The next stream: the stream identifier grows by one, wrapping around
    /// at 2^64; key and counter stay.
    open spec fn spec_jump(&self) -> Self {
        Self::of_core(self.cipher().with_stream(self@.stream.wrapping_add(1)))
    }

    fn generate(&mut self, random: &mut [u32; 64]) {
        block(&mut self.core, random, N);
    }

    fn jump(&mut self) {
        let next = self.get_stream().wrapping_add(1);
        self.set_stream(next);
    }
}

/// Daniel J. Bernstein's ChaCha with `N` rounds, adapted as a deterministic
/// random number generator.
#[derive(Debug)]
pub struct ChaCha<const N: usize> {
    inner: BlockRngImpl<ChaChaState<N>>,
}

impl<const N: usize> Clone for ChaCha<N> {
    fn clone(&self) -> (copy: Self)
        ensures
            copy@ == self@,
    {
        ChaCha { inner: self.inner.clone() }
    }
}

/// [`ChaCha`] with 8 rounds.
pub type ChaCha8 = ChaCha<8>;

/// [`ChaCha`] with 12 rounds.
pub type ChaCha12 = ChaCha<12>;

/// [`ChaCha`] with 20 rounds.
pub type ChaCha20 = ChaCha<20>;

impl SecureRng for ChaCha<8> {

}

impl SecureRng for ChaCha<12> {

}

impl SecureRng for ChaCha<20> {

}

impl<const N: usize> View for ChaCha<N> {
    type V = BlockView<ChaChaState<N>>;

    open spec fn view(&self) -> BlockView<ChaChaState<N>> {
        self.inner()@
    }
}

/// The low and the high half of `seed`, four times over: the key that a
/// 64-bit seed stands for.
pub open spec fn seed_key(seed: u64) -> Seq<u32> {
    seq![
        spec_low32(seed),
        spec_high32(seed),
        spec_low32(seed),
        spec_high32(seed),
        spec_low32(seed),
        spec_high32(seed),
        spec_low32(seed),
        spec_high32(seed),
    ]
}

/// The key, block counter and stream identifier that 48 bytes spell.
pub open spec fn bytes_view(bytes: Seq<u8>) -> ChaChaView {
    ChaChaView {
        seed: Seq::new(8, |i: int| spec_u32_from_le(bytes.subrange(4 * i, 4 * i + 4))),
        counter: spec_u64_from_le(bytes.subrange(32, 40)),
        stream: spec_u64_from_le(bytes.subrange(40, 48)),
    }
}

impl<const N: usize> ChaCha<N> {
    /// The generator over the block adapter `inner`.
    pub closed spec fn of_inner(inner: BlockRngImpl<ChaChaState<N>>) -> ChaCha<N> {
        ChaCha { inner }
    }

    /// The block adapter that the generator holds.
    pub closed spec fn inner(&self) -> BlockRngImpl<ChaChaState<N>> {
        self.inner
    }

    /// A generator is the generator over its block adapter.
    pub broadcast proof fn lemma_inner(&self)
        ensures
            #[trigger] Self::of_inner(self.inner()) == *self,
    {
    }

    /// The block adapter of the generator over `inner` is `inner`.
    pub broadcast proof fn lemma_of_inner(inner: BlockRngImpl<ChaChaState<N>>)
        ensures
            #[trigger] Self::of_inner(inner).inner() == inner,
    {
    }

    /// Creates a new instance seeded securely from system entropy.
    ///
    /// Fails where the system cannot provide secure entropy.
    pub fn new() -> (r: Result<Random<ChaCha<N>>, EntropyError>)
        ensures
            r matches Ok(rand) ==> rand@@.index == EXHAUSTED && exists|bytes: Seq<u8>|
                bytes.len() == 48 && rand@@.state@ == #[trigger] bytes_view(bytes),
            r matches Err(e) ==> e == EntropyError::NotReady,
    {
        let mut bytes = [0u8; 48];
        match getentropy(&mut bytes) {
            Ok(()) => {
                let rand = Self::from_bytes(&bytes);
                assert(rand@@.state@ == bytes_view(bytes@));
                Ok(rand)
            },
            Err(e) => Err(e),
        }
    }

    /// Creates a new instance from 48 bytes: the eight words of the key, the
    /// block counter and the stream identifier, each least significant byte
    /// first.
    pub fn from_bytes(bytes: &[u8; 48]) -> (rand: Random<ChaCha<N>>)
        ensures
            rand@@.state@ == bytes_view(bytes@),
            rand@@.index == EXHAUSTED,
    {
        let key = [
            u32_from_le(bytes, 0),
            u32_from_le(bytes, 4),
            u32_from_le(bytes, 8),
            u32_from_le(bytes, 12),
            u32_from_le(bytes, 16),
            u32_from_le(bytes, 20),
            u32_from_le(bytes, 24),
            u32_from_le(bytes, 28),
        ];
        assert(key@ =~= bytes_view(bytes@).seed);
        let state = ChaChaState::new(key, u64_from_le(bytes, 32), u64_from_le(bytes, 40));
        let inner = BlockRngImpl::new(state);
        Random::wrap(ChaCha { inner })
    }

    /// Creates a new instance seeded from another generator, which is to be
    /// a secure one: the state is made of the next 48 bytes that it fills.
    pub fn from_rng<R: SecureRng>(rand: &mut Random<R>) -> (child: Random<ChaCha<N>>)
        ensures
            child@@.state@ == bytes_view(old(rand)@.spec_fill_bytes(48).0),
            child@@.index == EXHAUSTED,
            final(rand)@ == old(rand)@.spec_fill_bytes(48).1,
    {
        let mut bytes = [0u8; 48];
        rand.fill_bytes(&mut bytes);
        Self::from_bytes(&bytes)
    }

    /// Creates a new instance using the given seed.
    ///
    /// The key repeats the two halves of the seed; the block counter starts
    /// at one and the stream identifier at zero. With 64 bits of input this
    /// is not suitable for cryptography.
    pub fn from_seed(seed: u64) -> (rand: Random<ChaCha<N>>)
        ensures
            rand@@.state@ == (ChaChaView { seed: seed_key(seed), counter: 1, stream: 0 }),
            rand@@.index == EXHAUSTED,
    {
        let low = low32(seed);
        let high = high32(seed);
        let key = [low, high, low, high, low, high, low, high];
        assert(key@ =~= seed_key(seed));
        let state = ChaChaState::new(key, 1, 0);
        let inner = BlockRngImpl::new(state);
        Random::wrap(ChaCha { inner })
    }
}

impl<const N: usize> Rng for ChaCha<N> {
    open spec fn spec_next_u32(&self) -> (u32, Self) {
        (self.inner().spec_next_u32().0, Self::of_inner(self.inner().spec_next_u32().1))
    }

    open spec fn spec_next_u64(&self) -> (u64, Self) {
        (self.inner().spec_next_u64().0, Self::of_inner(self.inner().spec_next_u64().1))
    }

    open spec fn spec_fill_bytes(&self, len: nat) -> (Seq<u8>, Self) {
        (self.inner().spec_fill_bytes(len).0, Self::of_inner(self.inner().spec_fill_bytes(len).1))
    }

    open spec fn spec_jump(&self) -> Self {
        Self::of_inner(self.inner().spec_jump())
    }

    fn next_u32(&mut self) -> (value: u32)
        ensures
            (value, final(self)@) == crate::rng::block::view_next_u32(old(self)@),
    {
        self.inner.next_u32()
    }

    fn next_u64(&mut self) -> (value: u64)
        ensures
            (value, final(self)@) == crate::rng::block::view_next_u64(old(self)@),
    {
        self.inner.next_u64()
    }

    fn next_f32_bits(&mut self) -> (bits: u32) {
        self.inner.next_f32_bits()
    }

    fn next_f64_bits(&mut self) -> (bits: u64) {
        self.inner.next_f64_bits()
    }

    fn fill_bytes(&mut self, buf: &mut [u8])
        ensures
            (final(buf)@, final(self)@) == crate::rng::block::view_fill_bytes(
                old(self)@,
                old(buf)@.len(),
            ),
    {
        self.inner.fill_bytes(buf);
    }

    fn jump(&mut self)
        ensures
            final(self)@ == crate::rng::block::view_jump(old(self)@),
    {
        self.inner.jump();
    }
}

} // verus!
