//! The ChaCha block function as a function on sequences of sixteen words.
//!
//! This is the definition that the executable block functions are held to.
use vstd::prelude::*;

use crate::rng::util::{spec_high32, spec_low32};

verus! {

/// The four words "expand 32-byte k" that open every input block.
pub const CONSTANT: [u32; 4] = [0x61707865, 0x3320646e, 0x79622d32, 0x6b206574];

/// Left rotation of a 32-bit word by `n` bit positions, `0 < n < 32`.
pub open spec fn spec_rotl32(x: u32, n: u32) -> u32 {
    (x << n) | (x >> ((32 - n) as u32))
}

/// Left rotation of a 32-bit word by `n` bit positions.
pub fn rotl32(x: u32, n: u32) -> (r: u32)
    requires
        0 < n < 32,
    ensures
        r == spec_rotl32(x, n),
{
    (x << n) | (x >> (32 - n))
}

/// The quarter round: four steps of add, xor and rotate by 16, 12, 8 and 7.
pub open spec fn quarter_round(a: u32, b: u32, c: u32, d: u32) -> (u32, u32, u32, u32) {
    let a1 = a.wrapping_add(b);
    let d1 = spec_rotl32(d ^ a1, 16);
    let c1 = c.wrapping_add(d1);
    let b1 = spec_rotl32(b ^ c1, 12);
    let a2 = a1.wrapping_add(b1);
    let d2 = spec_rotl32(d1 ^ a2, 8);
    let c2 = c1.wrapping_add(d2);
    let b2 = spec_rotl32(b1 ^ c2, 7);
    (a2, b2, c2, d2)
}

/// The quarter round applied to the words of `s` at `i`, `j`, `k` and `l`.
pub open spec fn quarter_at(s: Seq<u32>, i: int, j: int, k: int, l: int) -> Seq<u32> {
    let q = quarter_round(s[i], s[j], s[k], s[l]);
    s.update(i, q.0).update(j, q.1).update(k, q.2).update(l, q.3)
}

/// A round on the four columns of the 4x4 matrix.
pub open spec fn column_round(s: Seq<u32>) -> Seq<u32> {
    quarter_at(quarter_at(quarter_at(quarter_at(s, 0, 4, 8, 12), 1, 5, 9, 13), 2, 6, 10, 14), 3, 7, 11, 15)
}

/// A round on the four diagonals of the 4x4 matrix.
pub open spec fn diagonal_round(s: Seq<u32>) -> Seq<u32> {
    quarter_at(quarter_at(quarter_at(quarter_at(s, 0, 5, 10, 15), 1, 6, 11, 12), 2, 7, 8, 13), 3, 4, 9, 14)
}

/// A column round followed by a diagonal round.
pub open spec fn double_round(s: Seq<u32>) -> Seq<u32> {
    diagonal_round(column_round(s))
}

/// `n` double rounds.
pub open spec fn double_rounds(s: Seq<u32>, n: nat) -> Seq<u32>
    decreases n,
{
    if n == 0 {
        s
    } else {
        double_round(double_rounds(s, (n - 1) as nat))
    }
}

/// The output block for the sixteen input words `input`: `n` double rounds,
/// and the input added back word by word.
pub open spec fn chacha_block(input: Seq<u32>, n: nat) -> Seq<u32> {
    Seq::new(16, |i: int| double_rounds(input, n)[i].wrapping_add(input[i]))
}

/// The sixteen input words for a key of eight words, a block counter and a
/// stream identifier.
pub open spec fn input_words(seed: Seq<u32>, counter: u64, stream: u64) -> Seq<u32> {
    seq![
        CONSTANT[0],
        CONSTANT[1],
        CONSTANT[2],
        CONSTANT[3],
        seed[0],
        seed[1],
        seed[2],
        seed[3],
        seed[4],
        seed[5],
        seed[6],
        seed[7],
        spec_low32(counter),
        spec_high32(counter),
        spec_low32(stream),
        spec_high32(stream),
    ]
}

} // verus!
