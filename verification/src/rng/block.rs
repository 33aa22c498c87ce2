//! Turns a generator of whole blocks into a generator of words and bytes.
use vstd::prelude::*;

use crate::rng::util::{spec_unit_f32_bits, spec_unit_f64_bits, unit_f32_bits, unit_f64_bits};
use crate::rng::Rng;

verus! {

/// The number of 32-bit words in a block.
pub const BLOCK_WORDS: usize = 64;

/// The number of bytes in a block.
pub const BLOCK_BYTES: usize = 256;

/// The cursor of an adapter whose block is used up or was never filled.
pub const EXHAUSTED: u32 = 0xffff_ffff;

/// A generator that turns its state into one block of output at a time.
pub trait BlockRng: Sized {
    /// The block of [`BLOCK_WORDS`] words that `generate` writes in this
    /// state, and the state that follows.
    open spec fn spec_generate(&self) -> (Seq<u32>, Self) {
        arbitrary()
    }

    /// The state that `jump` leaves.
    open spec fn spec_jump(&self) -> Self {
        arbitrary()
    }

    /// Writes the next block into `random` and advances the state.
    fn generate(&mut self, random: &mut [u32; 64])
        ensures
            (final(random)@, *final(self)) == old(self).spec_generate(),
    ;

    /// Advances the state significantly.
    fn jump(&mut self)
        ensures
            *final(self) == old(self).spec_jump(),
    ;
}

/// The state of `core` after `n` blocks.
pub open spec fn generated<T: BlockRng>(core: T, n: nat) -> T
    decreases n,
{
    if n == 0 {
        core
    } else {
        generated(core, (n - 1) as nat).spec_generate().1
    }
}

/// The block numbered `n`, counting from zero, of the blocks that follow `core`.
pub open spec fn nth_block<T: BlockRng>(core: T, n: nat) -> Seq<u32> {
    generated(core, n).spec_generate().0
}

/// Byte `i` of a block: the words are laid out one after another, each least
/// significant byte first, whatever the byte order of the machine.
pub open spec fn block_byte(words: Seq<u32>, i: int) -> u8 {
    (words[i / 4] >> ((8 * (i % 4)) as u32)) as u8
}

/// The 32-bit word that the four bytes of a block from byte `i` on spell,
/// least significant byte first.
pub open spec fn le32_at(words: Seq<u32>, i: int) -> u32 {
    (block_byte(words, i) as u32) | (block_byte(words, i + 1) as u32) << 8u32 | (block_byte(
        words,
        i + 2,
    ) as u32) << 16u32 | (block_byte(words, i + 3) as u32) << 24u32
}

/// The 64-bit word that the eight bytes of a block from byte `i` on spell,
/// least significant byte first.
pub open spec fn le64_at(words: Seq<u32>, i: int) -> u64 {
    (le32_at(words, i) as u64) | (le32_at(words, i + 4) as u64) << 32u64
}

/// Byte `i` of the block.
fn byte_at(block: &[u32; 64], i: usize) -> (b: u8)
    requires
        i < BLOCK_BYTES,
    ensures
        b == block_byte(block@, i as int),
{
    let shift: u32 = 8 * ((i % 4) as u32);
    #[verifier::truncate]
    ((block[i / 4] >> shift) as u8)
}

/// The word at byte `i` of the block.
fn word_at(block: &[u32; 64], i: usize) -> (value: u32)
    requires
        i + 4 <= BLOCK_BYTES,
    ensures
        value == le32_at(block@, i as int),
{
    (byte_at(block, i) as u32) | (byte_at(block, i + 1) as u32) << 8u32 | (byte_at(block, i + 2) as u32)
        << 16u32 | (byte_at(block, i + 3) as u32) << 24u32
}

/// Copies `count` bytes of the block, from byte `from` on, to `buf` at `pos`.
fn copy_bytes(block: &[u32; 64], from: usize, buf: &mut [u8], pos: usize, count: usize)
    requires
        from + count <= BLOCK_BYTES,
        pos + count <= old(buf)@.len(),
    ensures
        final(buf)@.len() == old(buf)@.len(),
        forall|j: int| 0 <= j < pos ==> final(buf)@[j] == old(buf)@[j],
        forall|j: int| pos + count <= j < old(buf)@.len() ==> final(buf)@[j] == old(buf)@[j],
        forall|j: int|
            pos <= j < pos + count ==> final(buf)@[j] == block_byte(block@, from + (j - pos)),
{
    let len = buf.len();
    let mut i: usize = 0;
    while i < count
        invariant
            i <= count,
            from + count <= BLOCK_BYTES,
            pos + count <= len == buf@.len(),
            buf@.len() == old(buf)@.len(),
            forall|j: int| 0 <= j < pos ==> buf@[j] == old(buf)@[j],
            forall|j: int| pos + count <= j < old(buf)@.len() ==> buf@[j] == old(buf)@[j],
            forall|j: int| pos <= j < pos + i ==> buf@[j] == block_byte(block@, from + (j - pos)),
        decreases count - i,
    {
        buf[pos + i] = byte_at(block, from + i);
        i += 1;
    }
}

/// The array of 64 words whose first `n` words are those of `words`.
pub open spec fn block_upto(words: Seq<u32>, n: nat) -> [u32; 64]
    decreases n,
{
    if n == 0 {
        vstd::array::spec_array_fill_for_copy_type::<u32, 64>(0u32)
    } else {
        vstd::array::spec_array_update(block_upto(words, (n - 1) as nat), n - 1, words[n - 1])
    }
}

/// The array that holds the 64 words of `words`.
pub open spec fn block_of(words: Seq<u32>) -> [u32; 64] {
    block_upto(words, 64)
}

/// `block_upto` holds the first `n` words.
proof fn lemma_block_upto(words: Seq<u32>, n: nat)
    requires
        n <= 64,
    ensures
        forall|i: int| 0 <= i < n ==> block_upto(words, n)@[i] == words[i],
    decreases n,
{
    if n > 0 {
        lemma_block_upto(words, (n - 1) as nat);
    }
}

/// A block of 64 words and the array made of it hold the same words.
pub proof fn lemma_block_of(words: Seq<u32>)
    requires
        words.len() == 64,
    ensures
        block_of(words)@ == words,
{
    lemma_block_upto(words, 64);
    assert(block_of(words)@ =~= words);
}

/// What a [`BlockRngImpl`] holds: the state of its block generator, the
/// cursor, and the words of the buffered block.
pub struct BlockView<T> {
    pub state: T,
    pub index: u32,
    pub words: Seq<u32>,
}

/// Buffers the blocks of a [`BlockRng`] and hands them out word by word.
///
/// The cursor counts the bytes of the buffered block that are used up; a
/// cursor that leaves too few bytes for a read means that a new block is
/// generated first.
#[derive(Debug)]
pub struct BlockRngImpl<T> {
    state: T,
    index: u32,
    random: [u32; 64],
}

impl<T: Clone> Clone for BlockRngImpl<T> {
    fn clone(&self) -> (copy: Self)
        ensures
            cloned(self@.state, copy@.state),
            copy@.index == self@.index,
            copy@.words == self@.words,
    {
        BlockRngImpl { state: self.state.clone(), index: self.index, random: self.random }
    }
}

impl<T> View for BlockRngImpl<T> {
    type V = BlockView<T>;

    closed spec fn view(&self) -> BlockView<T> {
        BlockView { state: self.state, index: self.index, words: self.random@ }
    }
}

/// The view before a read of `need` bytes: a new block, read from its start,
/// where the cursor leaves fewer than `need` bytes.
pub open spec fn refilled<T: BlockRng>(v: BlockView<T>, need: int) -> BlockView<T> {
    if v.index + need > BLOCK_BYTES {
        let g = v.state.spec_generate();
        BlockView { state: g.1, index: 0, words: g.0 }
    } else {
        v
    }
}

/// What `next_u32` returns for the view `v`, and the view it leaves.
pub open spec fn view_next_u32<T: BlockRng>(v: BlockView<T>) -> (u32, BlockView<T>) {
    let r = refilled(v, 4);
    (le32_at(r.words, r.index as int), BlockView { index: (r.index + 4) as u32, ..r })
}

/// What `next_u64` returns for the view `v`, and the view it leaves.
pub open spec fn view_next_u64<T: BlockRng>(v: BlockView<T>) -> (u64, BlockView<T>) {
    let r = refilled(v, 8);
    (le64_at(r.words, r.index as int), BlockView { index: (r.index + 8) as u32, ..r })
}

/// The view that `jump` leaves: the block generator has jumped and the
/// buffered block counts as used up.
pub open spec fn view_jump<T: BlockRng>(v: BlockView<T>) -> BlockView<T> {
    BlockView { state: v.state.spec_jump(), index: EXHAUSTED, ..v }
}

/// Where in the buffered block the unused bytes start.
pub open spec fn unused_from<T>(v: BlockView<T>) -> int {
    if v.index < BLOCK_BYTES {
        v.index as int
    } else {
        BLOCK_BYTES as int
    }
}

/// Byte `j` of what `fill_bytes` writes into a buffer of `len` bytes.
///
/// The whole blocks that fit come first, each generated for the purpose and
/// none of them buffered. The rest comes from the unused bytes of the
/// buffered block and, where those do not suffice, from the start of one
/// more block, which is then the buffered one.
pub open spec fn view_fill_byte<T: BlockRng>(v: BlockView<T>, len: nat, j: int) -> u8 {
    let whole = len / (BLOCK_BYTES as nat);
    let t = j - whole * BLOCK_BYTES;
    if t < 0 {
        block_byte(nth_block(v.state, (j / (BLOCK_BYTES as int)) as nat), j % (BLOCK_BYTES as int))
    } else if t < BLOCK_BYTES - unused_from(v) {
        block_byte(v.words, unused_from(v) + t)
    } else {
        block_byte(nth_block(v.state, whole), t - (BLOCK_BYTES - unused_from(v)))
    }
}

/// Byte `i` of the whole block numbered `k` is byte `i` of that block.
proof fn lemma_whole_byte<T: BlockRng>(v: BlockView<T>, len: nat, k: int, i: int)
    requires
        0 <= k < len as int / 256,
        0 <= i < 256,
    ensures
        view_fill_byte(v, len, 256 * k + i) == block_byte(nth_block(v.state, k as nat), i),
{
    let j = 256 * k + i;
    assert(j / 256 == k && j % 256 == i);
    assert(j - (len / 256) * 256 < 0);
}

/// Byte `t` past the whole blocks comes from the unused bytes of the
/// buffered block, and past those from the start of one more block.
proof fn lemma_rest_byte<T: BlockRng>(v: BlockView<T>, len: nat, t: int)
    requires
        0 <= t < len as int % 256,
    ensures
        view_fill_byte(v, len, 256 * (len as int / 256) + t) == if t < 256 - unused_from(v) {
            block_byte(v.words, unused_from(v) + t)
        } else {
            block_byte(nth_block(v.state, len / 256), t - (256 - unused_from(v)))
        },
{
}

/// What `fill_bytes` writes into a buffer of `len` bytes for the view `v`,
/// and the view it leaves.
pub open spec fn view_fill_bytes<T: BlockRng>(v: BlockView<T>, len: nat) -> (
    Seq<u8>,
    BlockView<T>,
) {
    let whole = len / (BLOCK_BYTES as nat);
    let rest = len % (BLOCK_BYTES as nat);
    let unused = BLOCK_BYTES - unused_from(v);
    (
        Seq::new(len, |j: int| view_fill_byte(v, len, j)),
        if rest == 0 {
            BlockView { state: generated(v.state, whole), ..v }
        } else if rest <= unused {
            BlockView { state: generated(v.state, whole), index: (v.index + rest) as u32, ..v }
        } else {
            BlockView {
                state: generated(v.state, whole + 1),
                index: (rest - unused) as u32,
                words: nth_block(v.state, whole),
            }
        },
    )
}

/// Whether the cursor lies within the block or is the mark of a block that
/// is used up; it never points past the end otherwise.
pub open spec fn cursor_valid<T>(v: BlockView<T>) -> bool {
    v.index <= BLOCK_BYTES || v.index == EXHAUSTED
}

/// Every operation leaves the cursor within the block or at the mark of a
/// block that is used up.
pub proof fn lemma_cursor_valid<T: BlockRng>(v: BlockView<T>, len: nat)
    requires
        cursor_valid(v),
    ensures
        cursor_valid(view_next_u32(v).1),
        cursor_valid(view_next_u64(v).1),
        cursor_valid(view_fill_bytes(v, len).1),
        cursor_valid(view_jump(v)),
{
}

/// Below the size of a block, filling a shorter buffer gives the first bytes
/// of what filling a longer one gives.
pub proof fn lemma_fill_prefix<T: BlockRng>(v: BlockView<T>, shorter: nat, longer: nat)
    requires
        shorter <= longer < BLOCK_BYTES,
    ensures
        view_fill_bytes(v, longer).0.take(shorter as int) == view_fill_bytes(v, shorter).0,
{
    assert(view_fill_bytes(v, longer).0.take(shorter as int) =~= view_fill_bytes(v, shorter).0);
}

/// A read at a whole number of words returns the word of the block as it
/// is: the bytes are those of the words, least significant first, on every
/// machine.
pub proof fn lemma_aligned_word(words: Seq<u32>, k: int)
    requires
        0 <= k < words.len(),
    ensures
        le32_at(words, 4 * k) == words[k],
{
    let w = words[k];
    assert((4 * k) / 4 == k && (4 * k + 1) / 4 == k && (4 * k + 2) / 4 == k && (4 * k + 3) / 4
        == k);
    assert((4 * k) % 4 == 0 && (4 * k + 1) % 4 == 1 && (4 * k + 2) % 4 == 2 && (4 * k + 3) % 4
        == 3);
    assert((((w >> 0u32) as u8) as u32) | (((w >> 8u32) as u8) as u32) << 8u32 | (((w >> 16u32)
        as u8) as u32) << 16u32 | (((w >> 24u32) as u8) as u32) << 24u32 == w) by (bit_vector);
}

impl<T: BlockRng> BlockRngImpl<T> {
    /// The adapter that holds what the view `v` says.
    pub closed spec fn of_view(v: BlockView<T>) -> BlockRngImpl<T> {
        BlockRngImpl { state: v.state, index: v.index, random: block_of(v.words) }
    }

    /// An adapter is the adapter that holds what its view says.
    pub proof fn lemma_of_view(&self)
        ensures
            Self::of_view(self@) == *self,
            self@.words.len() == BLOCK_WORDS,
    {
        lemma_block_of(self.random@);
        assert(block_of(self.random@) =~= self.random);
    }

    /// The adapter made of a view of 64 words has that view.
    pub proof fn lemma_view_of(v: BlockView<T>)
        requires
            v.words.len() == BLOCK_WORDS,
        ensures
            Self::of_view(v)@ == v,
    {
        lemma_block_of(v.words);
    }

    /// An adapter over `state` with nothing buffered.
    pub fn new(state: T) -> (rng: BlockRngImpl<T>)
        ensures
            rng@.state == state,
            rng@.index == EXHAUSTED,
            rng@.words == Seq::new(64, |i: int| 0u32),
    {
        let rng = BlockRngImpl { state, index: EXHAUSTED, random: [0u32; 64] };
        assert(rng@.words =~= Seq::new(64, |i: int| 0u32));
        rng
    }
}

impl<T: BlockRng> Rng for BlockRngImpl<T> {
    open spec fn spec_next_u32(&self) -> (u32, Self) {
        (view_next_u32(self@).0, Self::of_view(view_next_u32(self@).1))
    }

    open spec fn spec_next_u64(&self) -> (u64, Self) {
        (view_next_u64(self@).0, Self::of_view(view_next_u64(self@).1))
    }

    open spec fn spec_fill_bytes(&self, len: nat) -> (Seq<u8>, Self) {
        (view_fill_bytes(self@, len).0, Self::of_view(view_fill_bytes(self@, len).1))
    }

    open spec fn spec_jump(&self) -> Self {
        Self::of_view(view_jump(self@))
    }

    fn next_u32(&mut self) -> (value: u32)
        ensures
            (value, final(self)@) == view_next_u32(old(self)@),
    {
        let mut index = self.index as usize;
        if index > BLOCK_BYTES - 4 {
            self.state.generate(&mut self.random);
            index = 0;
        }
        let value = word_at(&self.random, index);
        self.index = (index + 4) as u32;
        proof {
            self.lemma_of_view();
        }
        value
    }

    fn next_u64(&mut self) -> (value: u64)
        ensures
            (value, final(self)@) == view_next_u64(old(self)@),
    {
        let mut index = self.index as usize;
        if index > BLOCK_BYTES - 8 {
            self.state.generate(&mut self.random);
            index = 0;
        }
        let low = word_at(&self.random, index);
        let high = word_at(&self.random, index + 4);
        self.index = (index + 8) as u32;
        proof {
            self.lemma_of_view();
        }
        (low as u64) | (high as u64) << 32u64
    }

    fn next_f32_bits(&mut self) -> (bits: u32)
        ensures
            bits == spec_unit_f32_bits(view_next_u32(old(self)@).0),
            final(self)@ == view_next_u32(old(self)@).1,
    {
        unit_f32_bits(self.next_u32())
    }

    fn next_f64_bits(&mut self) -> (bits: u64)
        ensures
            bits == spec_unit_f64_bits(view_next_u64(old(self)@).0),
            final(self)@ == view_next_u64(old(self)@).1,
    {
        unit_f64_bits(self.next_u64())
    }

    fn fill_bytes(&mut self, buf: &mut [u8])
        ensures
            (final(buf)@, final(self)@) == view_fill_bytes(old(self)@, old(buf)@.len()),
    {
        let len = buf.len();
        let ghost start = self@;
        let mut pos: usize = 0;
        // Whole blocks go straight from the generator to the destination.
        let mut tmp = [0u32; 64];
        while len - pos >= BLOCK_BYTES
            invariant
                len == buf@.len(),
                pos <= len,
                pos % BLOCK_BYTES == 0,
                self@ == (BlockView {
                    state: generated(start.state, (pos / BLOCK_BYTES) as nat),
                    ..start
                }),
                forall|j: int| 0 <= j < pos ==> buf@[j] == view_fill_byte(start, len as nat, j),
            decreases len - pos,
        {
            let ghost k = pos as int / 256;
            self.state.generate(&mut tmp);
            copy_bytes(&tmp, 0, buf, pos, BLOCK_BYTES);
            proof {
                assert(tmp@ == nth_block(start.state, k as nat));
                assert(pos == 256 * k);
                assert(k < len as int / 256);
                assert forall|j: int| pos <= j < pos + 256 implies buf@[j] == view_fill_byte(
                    start,
                    len as nat,
                    j,
                ) by {
                    lemma_whole_byte(start, len as nat, k, j - pos);
                }
            }
            pos += BLOCK_BYTES;
        }
        let ghost whole = pos as int / 256;
        assert(pos == 256 * whole && whole == len as int / 256 && len - pos == len as int % 256);
        // The rest comes from the buffered block, refilled where it runs out.
        if pos < len {
            let rest = len - pos;
            let from = if (self.index as usize) < BLOCK_BYTES {
                self.index as usize
            } else {
                BLOCK_BYTES
            };
            let unused = BLOCK_BYTES - from;
            if rest <= unused {
                copy_bytes(&self.random, from, buf, pos, rest);
                self.index = self.index + rest as u32;
            } else {
                copy_bytes(&self.random, from, buf, pos, unused);
                self.state.generate(&mut self.random);
                copy_bytes(&self.random, 0, buf, pos + unused, rest - unused);
                self.index = (rest - unused) as u32;
            }
            proof {
                assert forall|j: int| pos <= j < len implies buf@[j] == view_fill_byte(
                    start,
                    len as nat,
                    j,
                ) by {
                    lemma_rest_byte(start, len as nat, j - pos);
                }
            }
        }
        proof {
            self.lemma_of_view();
            assert(buf@ =~= view_fill_bytes(start, len as nat).0);
        }
    }

    fn jump(&mut self)
        ensures
            final(self)@ == view_jump(old(self)@),
    {
        self.state.jump();
        self.index = EXHAUSTED;
        proof {
            self.lemma_of_view();
        }
    }
}

} // verus!
