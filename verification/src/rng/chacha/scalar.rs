//! The block function word by word, on a flat state of sixteen words.
use vstd::prelude::*;

use crate::rng::chacha::rounds::{chacha_block, double_rounds, quarter_at, rotl32};

verus! {

/// The 128-bit number that the last four words of a flat state hold, least
/// significant word first.
pub open spec fn counter128(s: Seq<u32>) -> int {
    s[12] + s[13] * 0x1_0000_0000 + s[14] * 0x1_0000_0000_0000_0000 + s[15]
        * 0x1_0000_0000_0000_0000_0000_0000
}

/// Adds one to the 128-bit number in the last four words, wrapping around at
/// 2^128.
pub fn increment_counter(state: &mut [u32; 16])
    ensures
        forall|i: int| 0 <= i < 12 ==> final(state)@[i] == old(state)@[i],
        counter128(final(state)@) == (counter128(old(state)@) + 1)
            % 0x1_0000_0000_0000_0000_0000_0000_0000_0000int,
{
    state[12] = state[12].wrapping_add(1);
    if state[12] == 0 {
        state[13] = state[13].wrapping_add(1);
        if state[13] == 0 {
            state[14] = state[14].wrapping_add(1);
            if state[14] == 0 {
                state[15] = state[15].wrapping_add(1);
            }
        }
    }
}

/// The quarter round on the words at `i`, `j`, `k` and `l`.
fn quarter(ws: &mut [u32; 16], i: usize, j: usize, k: usize, l: usize)
    requires
        i < 16,
        j < 16,
        k < 16,
        l < 16,
        i != j && i != k && i != l && j != k && j != l && k != l,
    ensures
        final(ws)@ == quarter_at(old(ws)@, i as int, j as int, k as int, l as int),
{
    let mut a = ws[i];
    let mut b = ws[j];
    let mut c = ws[k];
    let mut d = ws[l];
    a = a.wrapping_add(b);
    d = rotl32(d ^ a, 16);
    c = c.wrapping_add(d);
    b = rotl32(b ^ c, 12);
    a = a.wrapping_add(b);
    d = rotl32(d ^ a, 8);
    c = c.wrapping_add(d);
    b = rotl32(b ^ c, 7);
    ws[i] = a;
    ws[j] = b;
    ws[k] = c;
    ws[l] = d;
    assert(ws@ =~= quarter_at(old(ws)@, i as int, j as int, k as int, l as int));
}

/// Writes the 20-round output block of the flat state into `ws` and adds one
/// to the state's 128-bit counter.
pub fn block(state: &mut [u32; 16], ws: &mut [u32; 16])
    ensures
        final(ws)@ == chacha_block(old(state)@, 10),
        forall|i: int| 0 <= i < 12 ==> final(state)@[i] == old(state)@[i],
        counter128(final(state)@) == (counter128(old(state)@) + 1)
            % 0x1_0000_0000_0000_0000_0000_0000_0000_0000int,
{
    *ws = *state;
    let mut n: usize = 0;
    while n < 10
        invariant
            n <= 10,
            *state == *old(state),
            ws@ == double_rounds(state@, n as nat),
        decreases 10 - n,
    {
        // column rounds
        quarter(ws, 0, 4, 8, 12);
        quarter(ws, 1, 5, 9, 13);
        quarter(ws, 2, 6, 10, 14);
        quarter(ws, 3, 7, 11, 15);
        // diagonal rounds
        quarter(ws, 0, 5, 10, 15);
        quarter(ws, 1, 6, 11, 12);
        quarter(ws, 2, 7, 8, 13);
        quarter(ws, 3, 4, 9, 14);
        n += 1;
    }
    let ghost mixed = ws@;
    let mut i: usize = 0;
    while i < 16
        invariant
            i <= 16,
            *state == *old(state),
            mixed == double_rounds(state@, 10),
            forall|j: int| 0 <= j < i ==> ws@[j] == mixed[j].wrapping_add(state@[j]),
            forall|j: int| i <= j < 16 ==> ws@[j] == mixed[j],
        decreases 16 - i,
    {
        ws[i] = ws[i].wrapping_add(state[i]);
        i += 1;
    }
    assert(ws@ =~= chacha_block(state@, 10));
    increment_counter(state);
}

} // verus!
