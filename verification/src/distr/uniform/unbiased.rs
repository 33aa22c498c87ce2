//! Why Lemire's method has no bias: every candidate is the candidate of the
//! same number of words.
use vstd::prelude::*;

use crate::distr::uniform::integer::{accepts32, accepts64, offset32, offset64};

verus! {

/// Whether the word `v` of a width of `width` values stands for `range`
/// values and has the candidate `x`.
pub open spec fn stands(width: int, range: int, x: int, v: int) -> bool {
    0 <= v < width && (v * range) % width >= width % range && (v * range) / width == x
}

/// The first of the words that stand with the candidate `x`.
pub open spec fn first_standing(width: int, range: int, x: int) -> int {
    (x * width + width % range + range - 1) / range
}

/// A product reaches `a` from the rounded-up quotient on.
proof fn lemma_ceil(a: int, r: int, u: int)
    requires
        r > 0,
    ensures
        u * r >= a <==> u >= (a + r - 1) / r,
{
    let c = (a + r - 1) / r;
    vstd::arithmetic::div_mod::lemma_fundamental_div_mod(a + r - 1, r);
    vstd::arithmetic::div_mod::lemma_mod_bound(a + r - 1, r);
    assert(r * c == c * r) by (nonlinear_arith);
    assert(c * r >= a);
    assert((c - 1) * r == c * r - r) by (nonlinear_arith);
    assert((c - 1) * r < a);
    if u >= c {
        assert(u * r >= c * r) by (nonlinear_arith)
            requires
                u >= c,
                r > 0,
        ;
    } else {
        assert(u * r <= (c - 1) * r) by (nonlinear_arith)
            requires
                u <= c - 1,
                r > 0,
        ;
    }
}

/// The words that stand with the candidate `x` are the `width / range` words
/// from the first of them on.
pub proof fn lemma_standing_range(width: int, range: int, x: int, v: int)
    requires
        0 < range <= width,
        0 <= x < range,
    ensures
        stands(width, range, x, v) <==> first_standing(width, range, x) <= v < first_standing(
            width,
            range,
            x,
        ) + width / range,
        0 <= first_standing(width, range, x),
{
    let t = width % range;
    let m = width / range;
    let a = x * width + t;
    let lo = first_standing(width, range, x);
    let p = v * range;
    vstd::arithmetic::div_mod::lemma_fundamental_div_mod(width, range);
    vstd::arithmetic::div_mod::lemma_mod_bound(width, range);
    assert(range * m == m * range) by (nonlinear_arith);
    assert((x + 1) * width == x * width + width) by (nonlinear_arith);
    assert((x + 1) * width == a + m * range);
    assert(x * width >= 0) by (nonlinear_arith)
        requires
            x >= 0,
            width > 0,
    ;
    lemma_ceil(a, range, v);
    lemma_ceil(a, range, v - m);
    lemma_ceil(a, range, 0);
    assert((v - m) * range == p - m * range) by (nonlinear_arith)
        requires
            p == v * range,
    ;
    vstd::arithmetic::div_mod::lemma_fundamental_div_mod(p, width);
    vstd::arithmetic::div_mod::lemma_mod_bound(p, width);
    assert(width * (p / width) == (p / width) * width) by (nonlinear_arith);
    if stands(width, range, x, v) {
        assert(p == x * width + p % width);
        assert(a <= p < (x + 1) * width);
    }
    if lo <= v < lo + m {
        assert(a <= p < (x + 1) * width);
        assert(p / width == x && p % width == p - x * width) by {
            vstd::arithmetic::div_mod::lemma_fundamental_div_mod_converse(
                p,
                width,
                x,
                p - x * width,
            );
        }
        assert(v >= 0) by (nonlinear_arith)
            requires
                v * range >= 0,
                range > 0,
        ;
        assert((x + 1) * width <= range * width) by (nonlinear_arith)
            requires
                x + 1 <= range,
                width > 0,
        ;
        assert(v < width) by (nonlinear_arith)
            requires
                v * range < range * width,
                range > 0,
        ;
    }
}

/// The 64-bit words that stand for `range` values with the candidate
/// `offset`.
pub open spec fn standing64(range: u64, offset: u64) -> Set<int> {
    Set::new(
        |v: int|
            0 <= v < 0x1_0000_0000_0000_0000 && accepts64(range, v as u64) && offset64(
                range,
                v as u64,
            ) == offset,
    )
}

/// The 32-bit words that stand for `range` values with the candidate
/// `offset`.
pub open spec fn standing32(range: u32, offset: u32) -> Set<int> {
    Set::new(
        |v: int|
            0 <= v < 0x1_0000_0000 && accepts32(range, v as u32) && offset32(range, v as u32)
                == offset,
    )
}

/// Every candidate below `range` is the candidate of exactly `2^64 / range`
/// of the 64-bit words that stand, rounded down: a generator whose words are
/// uniform gives samples that are uniform.
pub proof fn lemma_unbiased64(range: u64, offset: u64)
    requires
        0 < range,
        offset < range,
    ensures
        standing64(range, offset).finite(),
        standing64(range, offset).len() == 0x1_0000_0000_0000_0000int / (range as int),
{
    let width = 0x1_0000_0000_0000_0000int;
    let lo = first_standing(width, range as int, offset as int);
    let m = width / (range as int);
    assert forall|v: int| standing64(range, offset).contains(v) <==> lo <= v < lo + m by {
        lemma_standing_range(width, range as int, offset as int, v);
        if 0 <= v < width {
            let p = v * range;
            assert(0 <= p < width * range) by (nonlinear_arith)
                requires
                    0 <= v < width,
                    range > 0,
                    p == v * range,
            ;
            vstd::arithmetic::div_mod::lemma_fundamental_div_mod(p, width);
            vstd::arithmetic::div_mod::lemma_mod_bound(p, width);
            assert(0 <= p / width < range) by (nonlinear_arith)
                requires
                    0 <= p < width * range,
                    width > 0,
            ;
        }
    }
    vstd::arithmetic::div_mod::lemma_div_pos_is_pos(width, range as int);
    assert(standing64(range, offset) =~= vstd::set_lib::set_int_range(lo, lo + m));
    vstd::set_lib::lemma_int_range(lo, lo + m);
}

/// Every candidate below `range` is the candidate of exactly `2^32 / range`
/// of the 32-bit words that stand, rounded down.
pub proof fn lemma_unbiased32(range: u32, offset: u32)
    requires
        0 < range,
        offset < range,
    ensures
        standing32(range, offset).finite(),
        standing32(range, offset).len() == 0x1_0000_0000int / (range as int),
{
    let width = 0x1_0000_0000int;
    let lo = first_standing(width, range as int, offset as int);
    let m = width / (range as int);
    assert forall|v: int| standing32(range, offset).contains(v) <==> lo <= v < lo + m by {
        lemma_standing_range(width, range as int, offset as int, v);
        if 0 <= v < width {
            let p = v * range;
            assert(0 <= p < width * range) by (nonlinear_arith)
                requires
                    0 <= v < width,
                    range > 0,
                    p == v * range,
            ;
            vstd::arithmetic::div_mod::lemma_fundamental_div_mod(p, width);
            vstd::arithmetic::div_mod::lemma_mod_bound(p, width);
            assert(0 <= p / width < range) by (nonlinear_arith)
                requires
                    0 <= p < width * range,
                    width > 0,
            ;
        }
    }
    vstd::arithmetic::div_mod::lemma_div_pos_is_pos(width, range as int);
    assert(standing32(range, offset) =~= vstd::set_lib::set_int_range(lo, lo + m));
    vstd::set_lib::lemma_int_range(lo, lo + m);
}

} // verus!
