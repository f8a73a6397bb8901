//! see [`InternalIndex`]

use vstd::prelude::*;

use crate::seal::Seal;

verus! {

/// A basic unsigned integer type, used to shrink the per-slot metadata of
/// arenas that store small elements.
///
/// A value stands for the mathematical integer [`InternalIndex::as_int`];
/// [`InternalIndex::from_usize`] and [`InternalIndex::to_usize`] convert it
/// to and from `usize` without losing it.
pub trait InternalIndex: Seal + Sized + Copy {
    /// The integer this value stands for.
    spec fn as_int(self) -> int;

    /// The largest integer a value of this type can stand for.
    spec fn max_value() -> int;

    /// Every value stands for an integer between zero and the maximum.
    proof fn lemma_bounds(self)
        ensures
            0 <= self.as_int() <= Self::max_value(),
    ;

    /// The maximum is never negative.
    proof fn lemma_max_value()
        ensures
            Self::max_value() >= 0,
    ;

    /// Convert a `usize` that fits into this type.
    fn from_usize(x: usize) -> (r: Self)
        requires
            x as int <= Self::max_value(),
        ensures
            r.as_int() == x as int,
    ;

    /// Convert back to a `usize`. The value must fit; every value an arena
    /// stores is bounded by a slot count, which fits.
    fn to_usize(self) -> (r: usize)
        requires
            self.as_int() <= usize::MAX as int,
        ensures
            r as int == self.as_int(),
    ;
}

impl Seal for u8 {

}

impl InternalIndex for u8 {
    open spec fn as_int(self) -> int {
        self as int
    }

    open spec fn max_value() -> int {
        u8::MAX as int
    }

    proof fn lemma_bounds(self) {
    }

    proof fn lemma_max_value() {
    }

    fn from_usize(x: usize) -> (r: Self) {
        x as u8
    }

    fn to_usize(self) -> (r: usize) {
        self as usize
    }
}

impl Seal for u16 {

}

impl InternalIndex for u16 {
    open spec fn as_int(self) -> int {
        self as int
    }

    open spec fn max_value() -> int {
        u16::MAX as int
    }

    proof fn lemma_bounds(self) {
    }

    proof fn lemma_max_value() {
    }

    fn from_usize(x: usize) -> (r: Self) {
        x as u16
    }

    fn to_usize(self) -> (r: usize) {
        self as usize
    }
}

impl Seal for u32 {

}

impl InternalIndex for u32 {
    open spec fn as_int(self) -> int {
        self as int
    }

    open spec fn max_value() -> int {
        u32::MAX as int
    }

    proof fn lemma_bounds(self) {
    }

    proof fn lemma_max_value() {
    }

    fn from_usize(x: usize) -> (r: Self) {
        x as u32
    }

    fn to_usize(self) -> (r: usize) {
        self as usize
    }
}

impl Seal for u64 {

}

impl InternalIndex for u64 {
    open spec fn as_int(self) -> int {
        self as int
    }

    open spec fn max_value() -> int {
        u64::MAX as int
    }

    proof fn lemma_bounds(self) {
    }

    proof fn lemma_max_value() {
    }

    fn from_usize(x: usize) -> (r: Self) {
        x as u64
    }

    fn to_usize(self) -> (r: usize) {
        self as usize
    }
}

impl Seal for u128 {

}

impl InternalIndex for u128 {
    open spec fn as_int(self) -> int {
        self as int
    }

    open spec fn max_value() -> int {
        u128::MAX as int
    }

    proof fn lemma_bounds(self) {
    }

    proof fn lemma_max_value() {
    }

    fn from_usize(x: usize) -> (r: Self) {
        x as u128
    }

    fn to_usize(self) -> (r: usize) {
        self as usize
    }
}

impl Seal for usize {

}

impl InternalIndex for usize {
    open spec fn as_int(self) -> int {
        self as int
    }

    open spec fn max_value() -> int {
        usize::MAX as int
    }

    proof fn lemma_bounds(self) {
    }

    proof fn lemma_max_value() {
    }

    fn from_usize(x: usize) -> (r: Self) {
        x
    }

    fn to_usize(self) -> (r: usize) {
        self
    }
}

} // verus!
