//! The integer types that the uniform sampler serves.
//!
//! The types of 8 and 16 bits are sampled from 32-bit words, all others from
//! 64-bit words, `usize` and `isize` among them, whatever the width of a
//! pointer.
use vstd::prelude::*;

use crate::distr::uniform::integer::SampleUniform;

verus! {

impl SampleUniform for i8 {
    open spec fn as_int(self) -> int {
        self as int
    }

    open spec fn min_int() -> int {
        i8::MIN as int
    }

    open spec fn max_int() -> int {
        i8::MAX as int
    }

    open spec fn wide() -> bool {
        false
    }

    open spec fn truncated(word: u64) -> Self {
        word as i8
    }

    proof fn lemma_type(a: Self, b: Self) {
    }

    fn to_wide(self) -> (x: i128) {
        self as i128
    }

    fn from_wide(x: i128) -> (value: Self) {
        x as i8
    }

    fn lowest() -> (x: i128) {
        i8::MIN as i128
    }

    fn highest() -> (x: i128) {
        i8::MAX as i128
    }

    fn is_wide() -> (w: bool) {
        false
    }

    fn truncate(word: u64) -> (value: Self) {
        #[verifier::truncate]
        (word as i8)
    }
}

impl SampleUniform for u8 {
    open spec fn as_int(self) -> int {
        self as int
    }

    open spec fn min_int() -> int {
        u8::MIN as int
    }

    open spec fn max_int() -> int {
        u8::MAX as int
    }

    open spec fn wide() -> bool {
        false
    }

    open spec fn truncated(word: u64) -> Self {
        word as u8
    }

    proof fn lemma_type(a: Self, b: Self) {
    }

    fn to_wide(self) -> (x: i128) {
        self as i128
    }

    fn from_wide(x: i128) -> (value: Self) {
        x as u8
    }

    fn lowest() -> (x: i128) {
        u8::MIN as i128
    }

    fn highest() -> (x: i128) {
        u8::MAX as i128
    }

    fn is_wide() -> (w: bool) {
        false
    }

    fn truncate(word: u64) -> (value: Self) {
        #[verifier::truncate]
        (word as u8)
    }
}

impl SampleUniform for i16 {
    open spec fn as_int(self) -> int {
        self as int
    }

    open spec fn min_int() -> int {
        i16::MIN as int
    }

    open spec fn max_int() -> int {
        i16::MAX as int
    }

    open spec fn wide() -> bool {
        false
    }

    open spec fn truncated(word: u64) -> Self {
        word as i16
    }

    proof fn lemma_type(a: Self, b: Self) {
    }

    fn to_wide(self) -> (x: i128) {
        self as i128
    }

    fn from_wide(x: i128) -> (value: Self) {
        x as i16
    }

    fn lowest() -> (x: i128) {
        i16::MIN as i128
    }

    fn highest() -> (x: i128) {
        i16::MAX as i128
    }

    fn is_wide() -> (w: bool) {
        false
    }

    fn truncate(word: u64) -> (value: Self) {
        #[verifier::truncate]
        (word as i16)
    }
}

impl SampleUniform for u16 {
    open spec fn as_int(self) -> int {
        self as int
    }

    open spec fn min_int() -> int {
        u16::MIN as int
    }

    open spec fn max_int() -> int {
        u16::MAX as int
    }

    open spec fn wide() -> bool {
        false
    }

    open spec fn truncated(word: u64) -> Self {
        word as u16
    }

    proof fn lemma_type(a: Self, b: Self) {
    }

    fn to_wide(self) -> (x: i128) {
        self as i128
    }

    fn from_wide(x: i128) -> (value: Self) {
        x as u16
    }

    fn lowest() -> (x: i128) {
        u16::MIN as i128
    }

    fn highest() -> (x: i128) {
        u16::MAX as i128
    }

    fn is_wide() -> (w: bool) {
        false
    }

    fn truncate(word: u64) -> (value: Self) {
        #[verifier::truncate]
        (word as u16)
    }
}

impl SampleUniform for i32 {
    open spec fn as_int(self) -> int {
        self as int
    }

    open spec fn min_int() -> int {
        i32::MIN as int
    }

    open spec fn max_int() -> int {
        i32::MAX as int
    }

    open spec fn wide() -> bool {
        true
    }

    open spec fn truncated(word: u64) -> Self {
        word as i32
    }

    proof fn lemma_type(a: Self, b: Self) {
    }

    fn to_wide(self) -> (x: i128) {
        self as i128
    }

    fn from_wide(x: i128) -> (value: Self) {
        x as i32
    }

    fn lowest() -> (x: i128) {
        i32::MIN as i128
    }

    fn highest() -> (x: i128) {
        i32::MAX as i128
    }

    fn is_wide() -> (w: bool) {
        true
    }

    fn truncate(word: u64) -> (value: Self) {
        #[verifier::truncate]
        (word as i32)
    }
}

impl SampleUniform for u32 {
    open spec fn as_int(self) -> int {
        self as int
    }

    open spec fn min_int() -> int {
        u32::MIN as int
    }

    open spec fn max_int() -> int {
        u32::MAX as int
    }

    open spec fn wide() -> bool {
        true
    }

    open spec fn truncated(word: u64) -> Self {
        word as u32
    }

    proof fn lemma_type(a: Self, b: Self) {
    }

    fn to_wide(self) -> (x: i128) {
        self as i128
    }

    fn from_wide(x: i128) -> (value: Self) {
        x as u32
    }

    fn lowest() -> (x: i128) {
        u32::MIN as i128
    }

    fn highest() -> (x: i128) {
        u32::MAX as i128
    }

    fn is_wide() -> (w: bool) {
        true
    }

    fn truncate(word: u64) -> (value: Self) {
        #[verifier::truncate]
        (word as u32)
    }
}

impl SampleUniform for i64 {
    open spec fn as_int(self) -> int {
        self as int
    }

    open spec fn min_int() -> int {
        i64::MIN as int
    }

    open spec fn max_int() -> int {
        i64::MAX as int
    }

    open spec fn wide() -> bool {
        true
    }

    open spec fn truncated(word: u64) -> Self {
        word as i64
    }

    proof fn lemma_type(a: Self, b: Self) {
    }

    fn to_wide(self) -> (x: i128) {
        self as i128
    }

    fn from_wide(x: i128) -> (value: Self) {
        x as i64
    }

    fn lowest() -> (x: i128) {
        i64::MIN as i128
    }

    fn highest() -> (x: i128) {
        i64::MAX as i128
    }

    fn is_wide() -> (w: bool) {
        true
    }

    fn truncate(word: u64) -> (value: Self) {
        #[verifier::truncate]
        (word as i64)
    }
}

impl SampleUniform for u64 {
    open spec fn as_int(self) -> int {
        self as int
    }

    open spec fn min_int() -> int {
        u64::MIN as int
    }

    open spec fn max_int() -> int {
        u64::MAX as int
    }

    open spec fn wide() -> bool {
        true
    }

    open spec fn truncated(word: u64) -> Self {
        word as u64
    }

    proof fn lemma_type(a: Self, b: Self) {
    }

    fn to_wide(self) -> (x: i128) {
        self as i128
    }

    fn from_wide(x: i128) -> (value: Self) {
        x as u64
    }

    fn lowest() -> (x: i128) {
        u64::MIN as i128
    }

    fn highest() -> (x: i128) {
        u64::MAX as i128
    }

    fn is_wide() -> (w: bool) {
        true
    }

    fn truncate(word: u64) -> (value: Self) {
        #[verifier::truncate]
        (word as u64)
    }
}

impl SampleUniform for isize {
    open spec fn as_int(self) -> int {
        self as int
    }

    open spec fn min_int() -> int {
        isize::MIN as int
    }

    open spec fn max_int() -> int {
        isize::MAX as int
    }

    open spec fn wide() -> bool {
        true
    }

    open spec fn truncated(word: u64) -> Self {
        word as isize
    }

    proof fn lemma_type(a: Self, b: Self) {
    }

    fn to_wide(self) -> (x: i128) {
        self as i128
    }

    fn from_wide(x: i128) -> (value: Self) {
        x as isize
    }

    fn lowest() -> (x: i128) {
        isize::MIN as i128
    }

    fn highest() -> (x: i128) {
        isize::MAX as i128
    }

    fn is_wide() -> (w: bool) {
        true
    }

    fn truncate(word: u64) -> (value: Self) {
        #[verifier::truncate]
        (word as isize)
    }
}

impl SampleUniform for usize {
    open spec fn as_int(self) -> int {
        self as int
    }

    open spec fn min_int() -> int {
        usize::MIN as int
    }

    open spec fn max_int() -> int {
        usize::MAX as int
    }

    open spec fn wide() -> bool {
        true
    }

    open spec fn truncated(word: u64) -> Self {
        word as usize
    }

    proof fn lemma_type(a: Self, b: Self) {
    }

    fn to_wide(self) -> (x: i128) {
        self as i128
    }

    fn from_wide(x: i128) -> (value: Self) {
        x as usize
    }

    fn lowest() -> (x: i128) {
        usize::MIN as i128
    }

    fn highest() -> (x: i128) {
        usize::MAX as i128
    }

    fn is_wide() -> (w: bool) {
        true
    }

    fn truncate(word: u64) -> (value: Self) {
        #[verifier::truncate]
        (word as usize)
    }
}

} // verus!
