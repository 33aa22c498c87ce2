//! Filling buffers of words and bytes from any generator.
use vstd::prelude::*;

use crate::rng::util::{
    high32, low32, rng_fill_bytes, spec_high32, spec_low32, stream_bytes, stream_rest,
};
use crate::rng::{nth_u64, skip_u64, Rng, WordSource};

verus! {

/// The `next_u64` words of a generator as a source of words.
pub struct Words<R>(pub R);

impl<R: Rng> WordSource for Words<R> {
    open spec fn spec_word(&self) -> (u64, Self) {
        (self.0.spec_next_u64().0, Words(self.0.spec_next_u64().1))
    }

    fn word(&mut self) -> (value: u64) {
        self.0.next_u64()
    }
}

/// Word `i` of what [`fill_u32`] writes: the halves of the `next_u64` words,
/// the lower half first, and for a last word that stands alone a `next_u32`.
pub open spec fn filled_u32<R: Rng>(rng: R, len: nat, i: int) -> u32 {
    if i == len - 1 && len % 2 == 1 {
        skip_u64(rng, len / 2).spec_next_u32().0
    } else if i % 2 == 0 {
        spec_low32(nth_u64(rng, (i / 2) as nat))
    } else {
        spec_high32(nth_u64(rng, (i / 2) as nat))
    }
}

/// The generator after [`fill_u32`] has filled `len` words.
pub open spec fn after_u32<R: Rng>(rng: R, len: nat) -> R {
    if len % 2 == 1 {
        skip_u64(rng, len / 2).spec_next_u32().1
    } else {
        skip_u64(rng, len / 2)
    }
}

/// Fills the buffer with 32-bit words: two from every `next_u64`, the lower
/// half first, and a `next_u32` for a last word that stands alone. Hands the
/// generator back.
pub fn fill_u32<R: Rng>(rng: R, buffer: &mut [u32]) -> (rest: R)
    ensures
        final(buffer)@.len() == old(buffer)@.len(),
        forall|i: int|
            0 <= i < old(buffer)@.len() ==> final(buffer)@[i] == filled_u32(
                rng,
                old(buffer)@.len(),
                i,
            ),
        rest == after_u32(rng, old(buffer)@.len()),
{
    let mut rng = rng;
    let ghost start = rng;
    let len = buffer.len();
    let mut pos: usize = 0;
    while len - pos >= 2
        invariant
            len == buffer@.len(),
            pos <= len,
            pos % 2 == 0,
            rng == skip_u64(start, (pos / 2) as nat),
            forall|i: int| 0 <= i < pos ==> buffer@[i] == filled_u32(start, len as nat, i),
        decreases len - pos,
    {
        let value = rng.next_u64();
        buffer[pos] = low32(value);
        buffer[pos + 1] = high32(value);
        pos += 2;
    }
    if pos < len {
        buffer[pos] = rng.next_u32();
    }
    rng
}

/// Fills the buffer with the `next_u64` words of the generator, and hands
/// the generator back.
pub fn fill_u64<R: Rng>(rng: R, buffer: &mut [u64]) -> (rest: R)
    ensures
        final(buffer)@ == Seq::new(old(buffer)@.len(), |i: int| nth_u64(rng, i as nat)),
        rest == skip_u64(rng, old(buffer)@.len()),
{
    let mut rng = rng;
    let ghost start = rng;
    let len = buffer.len();
    let mut pos: usize = 0;
    while pos < len
        invariant
            len == buffer@.len(),
            pos <= len,
            rng == skip_u64(start, pos as nat),
            forall|i: int| 0 <= i < pos ==> buffer@[i] == nth_u64(start, i as nat),
        decreases len - pos,
    {
        buffer[pos] = rng.next_u64();
        pos += 1;
    }
    assert(buffer@ =~= Seq::new(len as nat, |i: int| nth_u64(start, i as nat)));
    rng
}

/// Fills the buffer with the bytes of the `next_u64` words of the generator,
/// each written least significant byte first, and hands the generator back.
pub fn fill_bytes<R: Rng>(rng: R, buffer: &mut [u8]) -> (rest: R)
    ensures
        final(buffer)@ == stream_bytes(Words(rng), old(buffer)@.len()),
        Words(rest) == stream_rest(Words(rng), old(buffer)@.len()),
{
    let mut words = Words(rng);
    rng_fill_bytes(&mut words, buffer);
    words.0
}

} // verus!
