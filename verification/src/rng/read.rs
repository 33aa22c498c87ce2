use vstd::prelude::*;

use crate::rng::util::{spec_u32_from_le, spec_u64_from_le};

verus! {

/// Recorded randomness: hands out the bytes of a slice, in their order, as
/// words in little-endian byte order.
///
/// The bytes are finite, so this is no [`Rng`](crate::rng::Rng): each read
/// asks that the bytes it takes are still there.
#[derive(Debug)]
pub struct Read<'a> {
    reader: &'a [u8],
    pos: usize,
}

impl<'a> Read<'a> {
    /// The bytes that are still to be read.
    pub closed spec fn remaining(&self) -> Seq<u8> {
        self.reader@.subrange(self.pos as int, self.reader@.len() as int)
    }

    /// Whether the position lies within the bytes.
    pub closed spec fn wf(&self) -> bool {
        self.pos <= self.reader@.len()
    }

    /// Creates a new instance that reads `reader` from its start.
    pub fn new(reader: &'a [u8]) -> (rand: Read<'a>)
        ensures
            rand.wf(),
            rand.remaining() == reader@,
    {
        let rand = Read { reader, pos: 0 };
        assert(rand.remaining() =~= reader@);
        rand
    }

    /// Skips `count` bytes.
    fn skip(&mut self, count: usize)
        requires
            old(self).wf(),
            count <= old(self).remaining().len(),
        ensures
            final(self).wf(),
            final(self).remaining() == old(self).remaining().skip(count as int),
    {
        let len = self.reader.len();
        assert(self.pos + count <= len);
        self.pos = self.pos + count;
        assert(self.remaining() =~= old(self).remaining().skip(count as int));
    }

    /// The byte `i` places on.
    fn peek(&self, i: usize) -> (b: u8)
        requires
            self.wf(),
            i < self.remaining().len(),
        ensures
            b == self.remaining()[i as int],
    {
        let len = self.reader.len();
        assert(self.pos + i < len);
        self.reader[self.pos + i]
    }

    /// Reads the next four bytes as a `u32`.
    pub fn next_u32(&mut self) -> (value: u32)
        requires
            old(self).wf(),
            old(self).remaining().len() >= 4,
        ensures
            final(self).wf(),
            value == spec_u32_from_le(old(self).remaining().take(4)),
            final(self).remaining() == old(self).remaining().skip(4),
    {
        let value = (self.peek(0) as u32) | (self.peek(1) as u32) << 8u32 | (self.peek(2) as u32)
            << 16u32 | (self.peek(3) as u32) << 24u32;
        self.skip(4);
        value
    }

    /// Reads the next eight bytes as a `u64`.
    pub fn next_u64(&mut self) -> (value: u64)
        requires
            old(self).wf(),
            old(self).remaining().len() >= 8,
        ensures
            final(self).wf(),
            value == spec_u64_from_le(old(self).remaining().take(8)),
            final(self).remaining() == old(self).remaining().skip(8),
    {
        let ghost bytes = self.remaining();
        let low = self.next_u32();
        let high = self.next_u32();
        assert(bytes.take(8).subrange(0, 4) =~= bytes.take(4));
        assert(bytes.take(8).subrange(4, 8) =~= bytes.skip(4).take(4));
        assert(bytes.skip(4).skip(4) =~= bytes.skip(8));
        (low as u64) | (high as u64) << 32u64
    }

    /// Fills `buf` with the next bytes.
    pub fn fill_bytes(&mut self, buf: &mut [u8])
        requires
            old(self).wf(),
            old(self).remaining().len() >= old(buf)@.len(),
        ensures
            final(self).wf(),
            final(buf)@ == old(self).remaining().take(old(buf)@.len() as int),
            final(self).remaining() == old(self).remaining().skip(old(buf)@.len() as int),
    {
        let len = buf.len();
        let mut i: usize = 0;
        while i < len
            invariant
                len == buf@.len(),
                i <= len,
                *self == *old(self),
                self.wf(),
                self.remaining().len() >= len,
                forall|j: int| 0 <= j < i ==> buf@[j] == self.remaining()[j],
            decreases len - i,
        {
            buf[i] = self.peek(i);
            i += 1;
        }
        assert(buf@ =~= self.remaining().take(len as int));
        self.skip(len);
    }

    /// Recorded bytes have nowhere to jump to: nothing changes.
    pub fn jump(&mut self)
        ensures
            *final(self) == *old(self),
    {
    }
}

} // verus!
