//! Bit-level helpers shared by the generators.
use vstd::prelude::*;

use crate::rng::WordSource;

verus! {

/// Bit pattern of the single-precision float in `[1.0, 2.0)` whose mantissa
/// holds the upper 23 bits of `word`.
pub open spec fn spec_unit_f32_bits(word: u32) -> u32 {
    0x3f80_0000u32 | (word >> 9u32)
}

/// Bit pattern of the double-precision float in `[1.0, 2.0)` whose mantissa
/// holds the upper 52 bits of `word`.
pub open spec fn spec_unit_f64_bits(word: u64) -> u64 {
    0x3ff0_0000_0000_0000u64 | (word >> 12u64)
}

/// Forces the exponent field to that of `1.0` and splices the upper 23 bits
/// of `word` in as the mantissa.
pub fn unit_f32_bits(word: u32) -> (bits: u32)
    ensures
        bits == spec_unit_f32_bits(word),
        0x3f80_0000 <= bits < 0x4000_0000,
        bits & 0x007f_ffff == word >> 9u32,
{
    let bits = 0x3f80_0000u32 | (word >> 9u32);
    assert(0x3f80_0000u32 <= (0x3f80_0000u32 | (word >> 9u32)) < 0x4000_0000u32 && (0x3f80_0000u32
        | (word >> 9u32)) & 0x007f_ffff == word >> 9u32) by (bit_vector);
    bits
}

/// Forces the exponent field to that of `1.0` and splices the upper 52 bits
/// of `word` in as the mantissa.
pub fn unit_f64_bits(word: u64) -> (bits: u64)
    ensures
        bits == spec_unit_f64_bits(word),
        0x3ff0_0000_0000_0000 <= bits < 0x4000_0000_0000_0000,
        bits & 0x000f_ffff_ffff_ffff == word >> 12u64,
{
    let bits = 0x3ff0_0000_0000_0000u64 | (word >> 12u64);
    assert(0x3ff0_0000_0000_0000u64 <= (0x3ff0_0000_0000_0000u64 | (word >> 12u64))
        < 0x4000_0000_0000_0000u64 && (0x3ff0_0000_0000_0000u64 | (word >> 12u64))
        & 0x000f_ffff_ffff_ffff == word >> 12u64) by (bit_vector);
    bits
}

/// The lower half of a 64-bit word.
pub open spec fn spec_low32(word: u64) -> u32 {
    word as u32
}

/// The lower half of a 64-bit word.
pub fn low32(word: u64) -> (r: u32)
    ensures
        r == spec_low32(word),
{
    #[verifier::truncate]
    (word as u32)
}

/// The upper half of a 64-bit word.
pub open spec fn spec_high32(word: u64) -> u32 {
    (word >> 32u64) as u32
}

/// The upper half of a 64-bit word.
pub fn high32(word: u64) -> (r: u32)
    ensures
        r == spec_high32(word),
{
    #[verifier::truncate]
    ((word >> 32u64) as u32)
}

/// The halves of a word are its quotient and its remainder by 2^32.
pub proof fn lemma_halves(word: u64)
    ensures
        spec_low32(word) == word % 0x1_0000_0000,
        spec_high32(word) == word / 0x1_0000_0000,
        spec_high32(word) * 0x1_0000_0000 + spec_low32(word) == word,
{
    assert(word as u32 == word % 0x1_0000_0000 && (word >> 32u64) as u32 == word / 0x1_0000_0000)
        by (bit_vector);
}

/// Left rotation of a 64-bit word by `k` bit positions, `0 < k < 64`.
pub open spec fn spec_rotl64(x: u64, k: u32) -> u64 {
    (x << k) | (x >> ((64 - k) as u32))
}

/// Left rotation of a 64-bit word by `k` bit positions.
pub fn rotl64(x: u64, k: u32) -> (r: u64)
    requires
        0 < k < 64,
    ensures
        r == spec_rotl64(x, k),
{
    (x << k) | (x >> (64 - k))
}

/// The upper and the lower half of the 128-bit product of two 64-bit words.
pub open spec fn spec_wide_mul(a: u64, b: u64) -> (u64, u64) {
    (((a * b) / 0x1_0000_0000_0000_0000) as u64, ((a * b) % 0x1_0000_0000_0000_0000) as u64)
}

/// The upper and the lower half of the 128-bit product of two 64-bit words.
pub fn wide_mul(a: u64, b: u64) -> (r: (u64, u64))
    ensures
        r == spec_wide_mul(a, b),
        r.0 * 0x1_0000_0000_0000_0000 + r.1 == a * b,
{
    assert(a * b <= 0xffff_ffff_ffff_ffff * 0xffff_ffff_ffff_ffff) by (nonlinear_arith)
        requires
            a <= 0xffff_ffff_ffff_ffff,
            b <= 0xffff_ffff_ffff_ffff,
    ;
    let full: u128 = (a as u128) * (b as u128);
    let high = (full >> 64u128) as u64;
    let low = (full & 0xffff_ffff_ffff_ffffu128) as u64;
    assert(full >> 64u128 == full / 0x1_0000_0000_0000_0000 && full & 0xffff_ffff_ffff_ffffu128
        == full % 0x1_0000_0000_0000_0000) by (bit_vector);
    (high, low)
}

/// Byte `i` of `word`, counting from the least significant.
pub open spec fn spec_le_byte(word: u64, i: int) -> u8 {
    (word >> ((8 * i) as u64)) as u8
}

/// Byte `i` of `word`, counting from the least significant.
pub fn le_byte(word: u64, i: usize) -> (b: u8)
    requires
        i < 8,
    ensures
        b == spec_le_byte(word, i as int),
{
    let shift: u64 = 8 * (i as u64);
    #[verifier::truncate]
    ((word >> shift) as u8)
}

/// The 32-bit word that four bytes spell, least significant byte first.
pub open spec fn spec_u32_from_le(b: Seq<u8>) -> u32 {
    (b[0] as u32) | (b[1] as u32) << 8u32 | (b[2] as u32) << 16u32 | (b[3] as u32) << 24u32
}

/// The 64-bit word that eight bytes spell, least significant byte first.
pub open spec fn spec_u64_from_le(b: Seq<u8>) -> u64 {
    (spec_u32_from_le(b.subrange(0, 4)) as u64) | (spec_u32_from_le(b.subrange(4, 8)) as u64)
        << 32u64
}

/// The eight bytes of a word, least significant first, spell the word.
pub proof fn lemma_le_round_trip(word: u64)
    ensures
        spec_u64_from_le(Seq::new(8, |i: int| spec_le_byte(word, i))) == word,
{
    let b = Seq::new(8, |i: int| spec_le_byte(word, i));
    assert(b.subrange(0, 4) =~= seq![
        spec_le_byte(word, 0),
        spec_le_byte(word, 1),
        spec_le_byte(word, 2),
        spec_le_byte(word, 3),
    ]);
    assert(b.subrange(4, 8) =~= seq![
        spec_le_byte(word, 4),
        spec_le_byte(word, 5),
        spec_le_byte(word, 6),
        spec_le_byte(word, 7),
    ]);
    assert(((((word >> 0u64) as u8) as u32 | (((word >> 8u64) as u8) as u32) << 8u32 | (((word
        >> 16u64) as u8) as u32) << 16u32 | (((word >> 24u64) as u8) as u32) << 24u32) as u64) | ((
    ((word >> 32u64) as u8) as u32 | (((word >> 40u64) as u8) as u32) << 8u32 | (((word >> 48u64)
        as u8) as u32) << 16u32 | (((word >> 56u64) as u8) as u32) << 24u32) as u64) << 32u64
        == word) by (bit_vector);
}

/// The 32-bit word that the four bytes of `bytes` from `at` on spell, least
/// significant byte first.
pub fn u32_from_le(bytes: &[u8], at: usize) -> (value: u32)
    requires
        at + 4 <= bytes@.len(),
    ensures
        value == spec_u32_from_le(bytes@.subrange(at as int, at + 4)),
{
    let len = bytes.len();
    assert(at + 4 <= len);
    (bytes[at] as u32) | (bytes[at + 1] as u32) << 8u32 | (bytes[at + 2] as u32) << 16u32 | (
    bytes[at + 3] as u32) << 24u32
}

/// The 64-bit word that the eight bytes of `bytes` from `at` on spell, least
/// significant byte first.
pub fn u64_from_le(bytes: &[u8], at: usize) -> (value: u64)
    requires
        at + 8 <= bytes@.len(),
    ensures
        value == spec_u64_from_le(bytes@.subrange(at as int, at + 8)),
{
    let len = bytes.len();
    assert(at + 8 <= len);
    let low = u32_from_le(bytes, at);
    let high = u32_from_le(bytes, at + 4);
    assert(bytes@.subrange(at as int, at + 8).subrange(0, 4) =~= bytes@.subrange(
        at as int,
        at + 4,
    ));
    assert(bytes@.subrange(at as int, at + 8).subrange(4, 8) =~= bytes@.subrange(
        at + 4,
        at + 8,
    ));
    (low as u64) | (high as u64) << 32u64
}

/// The state of `source` after `n` steps.
pub open spec fn skip_words<W: WordSource>(source: W, n: nat) -> W
    decreases n,
{
    if n == 0 {
        source
    } else {
        skip_words(source, (n - 1) as nat).spec_word().1
    }
}

/// The word of the step numbered `n`, counting from zero, when the steps
/// start in the state `source`.
pub open spec fn nth_word<W: WordSource>(source: W, n: nat) -> u64 {
    skip_words(source, n).spec_word().0
}

/// How many words a buffer of `len` bytes takes: one for every eight bytes,
/// begun or complete.
pub open spec fn words_for(len: nat) -> nat {
    (len + 7) / 8
}

/// The first `len` bytes of the stream that the successive words of `source`
/// form when each is written least significant byte first.
pub open spec fn stream_bytes<W: WordSource>(source: W, len: nat) -> Seq<u8> {
    Seq::new(len, |j: int| spec_le_byte(nth_word(source, (j / 8) as nat), j % 8))
}

/// The state of `source` once [`stream_bytes`] has been taken from it.
pub open spec fn stream_rest<W: WordSource>(source: W, len: nat) -> W {
    skip_words(source, words_for(len))
}

/// Filling a shorter buffer gives the first bytes of what filling a longer
/// one gives, and every byte is the byte of its word.
pub proof fn lemma_stream_prefix<W: WordSource>(source: W, shorter: nat, longer: nat)
    requires
        shorter <= longer,
    ensures
        stream_bytes(source, longer).take(shorter as int) == stream_bytes(source, shorter),
        stream_bytes(source, longer).len() == longer,
{
    assert(stream_bytes(source, longer).take(shorter as int) =~= stream_bytes(source, shorter));
}

/// Past a whole number of words the stream goes on as the stream of the
/// state that is left: what two fills give one after the other is what one
/// fill of the joint length gives.
pub proof fn lemma_stream_append<W: WordSource>(source: W, words: nat, len: nat)
    ensures
        stream_bytes(source, 8 * words + len) == stream_bytes(source, 8 * words) + stream_bytes(
            stream_rest(source, 8 * words),
            len,
        ),
        stream_rest(source, 8 * words + len) == stream_rest(stream_rest(source, 8 * words), len),
{
    let rest = stream_rest(source, 8 * words);
    assert(words_for(8 * words) == words);
    assert(rest == skip_words(source, words));
    assert forall|n: nat| skip_words(rest, n) == skip_words(source, words + n) by {
        lemma_skip_add(source, words, n);
    }
    assert(words_for(8 * words + len) == words + words_for(len));
    assert forall|j: int| 0 <= j < len implies stream_bytes(rest, len)[j] == stream_bytes(
        source,
        8 * words + len,
    )[8 * words + j] by {
        assert((8 * words + j) / 8 == words + j / 8);
        assert((8 * words + j) % 8 == j % 8);
        assert(skip_words(rest, (j / 8) as nat) == skip_words(source, words + (j / 8) as nat));
    }
    assert(stream_bytes(source, 8 * words + len) =~= stream_bytes(source, 8 * words)
        + stream_bytes(rest, len));
}

/// Steps add up.
pub proof fn lemma_skip_add<W: WordSource>(source: W, m: nat, n: nat)
    ensures
        skip_words(skip_words(source, m), n) == skip_words(source, m + n),
    decreases n,
{
    if n > 0 {
        lemma_skip_add(source, m, (n - 1) as nat);
        assert(skip_words(source, m + n) == skip_words(source, (m + n - 1) as nat).spec_word().1);
    }
}

/// Fills `buf` from the words of `source`, each written least significant
/// byte first; of the last word only the bytes that fit are used.
pub fn rng_fill_bytes<W: WordSource>(source: &mut W, buf: &mut [u8])
    ensures
        final(buf)@ == stream_bytes(*old(source), old(buf)@.len()),
        *final(source) == stream_rest(*old(source), old(buf)@.len()),
{
    let len = buf.len();
    let ghost start = *source;
    let mut pos: usize = 0;
    while len - pos >= 8
        invariant
            len == buf@.len(),
            pos <= len,
            pos % 8 == 0,
            *source == skip_words(start, (pos / 8) as nat),
            forall|j: int|
                0 <= j < pos ==> buf@[j] == spec_le_byte(nth_word(start, (j / 8) as nat), j % 8),
        decreases len - pos,
    {
        let word = source.word();
        let mut i: usize = 0;
        while i < 8
            invariant
                len == buf@.len(),
                pos + 8 <= len,
                pos % 8 == 0,
                i <= 8,
                word == nth_word(start, (pos / 8) as nat),
                forall|j: int|
                    0 <= j < pos + i ==> buf@[j] == spec_le_byte(
                        nth_word(start, (j / 8) as nat),
                        j % 8,
                    ),
            decreases 8 - i,
        {
            buf[pos + i] = le_byte(word, i);
            i += 1;
        }
        pos += 8;
    }
    if pos < len {
        let word = source.word();
        let mut i: usize = 0;
        while pos + i < len
            invariant
                len == buf@.len(),
                pos < len,
                len - pos < 8,
                pos % 8 == 0,
                pos + i <= len,
                word == nth_word(start, (pos / 8) as nat),
                forall|j: int|
                    0 <= j < pos + i ==> buf@[j] == spec_le_byte(
                        nth_word(start, (j / 8) as nat),
                        j % 8,
                    ),
            decreases len - pos - i,
        {
            buf[pos + i] = le_byte(word, i);
            i += 1;
        }
    }
    assert(buf@ =~= stream_bytes(start, len as nat));
}

} // verus!
