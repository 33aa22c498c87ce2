//! The block function on rows of four words, a shape that compilers turn
//! into vector instructions.
use vstd::prelude::*;

use crate::rng::chacha::rounds::{
    chacha_block, column_round, diagonal_round, double_round, double_rounds, quarter_round,
    rotl32, spec_rotl32,
};
use crate::rng::chacha::{rows_words, ChaChaCore};

verus! {

/// Lane-wise wrapping addition.
pub fn u32x4_add(a: [u32; 4], b: [u32; 4]) -> (r: [u32; 4])
    ensures
        forall|i: int| 0 <= i < 4 ==> r[i] == a[i].wrapping_add(b[i]),
{
    [
        a[0].wrapping_add(b[0]),
        a[1].wrapping_add(b[1]),
        a[2].wrapping_add(b[2]),
        a[3].wrapping_add(b[3]),
    ]
}

/// Lane-wise exclusive or.
pub fn u32x4_xor(a: [u32; 4], b: [u32; 4]) -> (r: [u32; 4])
    ensures
        forall|i: int| 0 <= i < 4 ==> r[i] == a[i] ^ b[i],
{
    [a[0] ^ b[0], a[1] ^ b[1], a[2] ^ b[2], a[3] ^ b[3]]
}

/// Lane-wise left rotation by `n` bit positions.
pub fn u32x4_rol(a: [u32; 4], n: u32) -> (r: [u32; 4])
    requires
        0 < n < 32,
    ensures
        forall|i: int| 0 <= i < 4 ==> r[i] == spec_rotl32(a[i], n),
{
    [rotl32(a[0], n), rotl32(a[1], n), rotl32(a[2], n), rotl32(a[3], n)]
}

/// The quarter round on all four lanes at once.
fn quarter_rounds(m: [[u32; 4]; 4]) -> (r: [[u32; 4]; 4])
    ensures
        forall|i: int|
            0 <= i < 4 ==> (r[0][i], r[1][i], r[2][i], r[3][i]) == quarter_round(
                m[0][i],
                m[1][i],
                m[2][i],
                m[3][i],
            ),
{
    let a = u32x4_add(m[0], m[1]);
    let d = u32x4_rol(u32x4_xor(m[3], a), 16);
    let c = u32x4_add(m[2], d);
    let b = u32x4_rol(u32x4_xor(m[1], c), 12);
    let a = u32x4_add(a, b);
    let d = u32x4_rol(u32x4_xor(d, a), 8);
    let c = u32x4_add(c, d);
    let b = u32x4_rol(u32x4_xor(b, c), 7);
    [a, b, c, d]
}

/// Turns the diagonals of the matrix into its columns: row `k` moves `k`
/// lanes to the left.
fn diagonalize(m: [[u32; 4]; 4]) -> (r: [[u32; 4]; 4])
    ensures
        r[0]@ == m[0]@,
        r[1]@ == seq![m[1][1], m[1][2], m[1][3], m[1][0]],
        r[2]@ == seq![m[2][2], m[2][3], m[2][0], m[2][1]],
        r[3]@ == seq![m[3][3], m[3][0], m[3][1], m[3][2]],
{
    [
        [m[0][0], m[0][1], m[0][2], m[0][3]],
        [m[1][1], m[1][2], m[1][3], m[1][0]],
        [m[2][2], m[2][3], m[2][0], m[2][1]],
        [m[3][3], m[3][0], m[3][1], m[3][2]],
    ]
}

/// Undoes [`diagonalize`]: row `k` moves `k` lanes to the right.
fn undiagonalize(m: [[u32; 4]; 4]) -> (r: [[u32; 4]; 4])
    ensures
        r[0]@ == m[0]@,
        r[1]@ == seq![m[1][3], m[1][0], m[1][1], m[1][2]],
        r[2]@ == seq![m[2][2], m[2][3], m[2][0], m[2][1]],
        r[3]@ == seq![m[3][1], m[3][2], m[3][3], m[3][0]],
{
    [
        [m[0][0], m[0][1], m[0][2], m[0][3]],
        [m[1][3], m[1][0], m[1][1], m[1][2]],
        [m[2][2], m[2][3], m[2][0], m[2][1]],
        [m[3][1], m[3][2], m[3][3], m[3][0]],
    ]
}

/// A column round and a diagonal round on the matrix.
fn double_round_rows(m: [[u32; 4]; 4]) -> (r: [[u32; 4]; 4])
    ensures
        rows_words(r) == double_round(rows_words(m)),
{
    let columns = quarter_rounds(m);
    assert(rows_words(columns) =~= column_round(rows_words(m)));
    let turned = diagonalize(columns);
    let mixed = quarter_rounds(turned);
    let r = undiagonalize(mixed);
    assert(rows_words(r) =~= diagonal_round(rows_words(columns)));
    r
}

/// The output block of one state: `rounds / 2` double rounds on its input
/// matrix, and the input added back.
fn block_of(core: &ChaChaCore, rounds: usize) -> (out: [u32; 16])
    ensures
        out@ == chacha_block(core.words(), (rounds / 2) as nat),
{
    let input = core.get_state();
    let mut m = input;
    let mut i: usize = 0;
    while i < rounds / 2
        invariant
            i <= rounds / 2,
            rows_words(m) == double_rounds(rows_words(input), i as nat),
        decreases rounds / 2 - i,
    {
        m = double_round_rows(m);
        i += 1;
    }
    let a = u32x4_add(m[0], input[0]);
    let b = u32x4_add(m[1], input[1]);
    let c = u32x4_add(m[2], input[2]);
    let d = u32x4_add(m[3], input[3]);
    let out = [
        a[0],
        a[1],
        a[2],
        a[3],
        b[0],
        b[1],
        b[2],
        b[3],
        c[0],
        c[1],
        c[2],
        c[3],
        d[0],
        d[1],
        d[2],
        d[3],
    ];
    proof {
        let mixed = double_rounds(core.words(), (rounds / 2) as nat);
        assert(rows_words(m) == mixed);
        assert(rows_words(input) == core.words());
        assert forall|j: int| 0 <= j < 16 implies out@[j] == mixed[j].wrapping_add(
            core.words()[j],
        ) by {
            assert(rows_words(m)[j] == mixed[j]);
            assert(rows_words(input)[j] == core.words()[j]);
        }
        assert(out@ =~= chacha_block(core.words(), (rounds / 2) as nat));
    }
    out
}

/// The number of blocks that one call of [`block`] produces.
pub const LANES: usize = 4;

/// The words of the four output blocks that follow `core`, block after block.
pub open spec fn spec_block(core: ChaChaCore, rounds: nat) -> Seq<u32> {
    Seq::new(
        64,
        |i: int|
            chacha_block(
                core.with_counter(core@.counter.wrapping_add((i / 16) as u64)).words(),
                rounds / 2,
            )[i % 16],
    )
}

/// Produces the next four output blocks of `state` and moves its block
/// counter four blocks on, wrapping around at 2^64.
///
/// Block `k` of `ws` is the output block for the state's key and stream
/// identifier and its counter plus `k`: the same words, in the same order, as
/// four calls that produce one block each. `rounds` is the number of rounds,
/// two to a double round.
pub fn block(state: &mut ChaChaCore, ws: &mut [u32; 64], rounds: usize)
    ensures
        final(ws)@ == spec_block(*old(state), rounds as nat),
        *final(state) == old(state).with_counter(old(state)@.counter.wrapping_add(4)),
{
    let mut k: usize = 0;
    while k < LANES
        invariant
            k <= LANES,
            *state == *old(state),
            forall|i: int| 0 <= i < 16 * k ==> ws@[i] == spec_block(*state, rounds as nat)[i],
        decreases LANES - k,
    {
        let lane = state.add_counter(k as u64);
        let out = block_of(&lane, rounds);
        let mut j: usize = 0;
        while j < 16
            invariant
                k < LANES,
                j <= 16,
                out@ == chacha_block(
                    state.with_counter(state@.counter.wrapping_add(k as u64)).words(),
                    (rounds / 2) as nat,
                ),
                forall|i: int|
                    0 <= i < 16 * k + j ==> ws@[i] == spec_block(*state, rounds as nat)[i],
            decreases 16 - j,
        {
            ws[16 * k + j] = out[j];
            j += 1;
        }
        k += 1;
    }
    assert(ws@ =~= spec_block(*state, rounds as nat));
    state.set_counter(state.get_counter().wrapping_add(4));
}

} // verus!
