//! Generations track whether a slot is filled and how often it has been
//! emptied, which is what hardens arena keys against the ABA problem.
//!
//! see [`Generation`] for details

use vstd::prelude::*;

verus! {

/// A [`Generation`] models the lifetime of one arena slot.
///
/// * a slot starts out as [`Generation::empty`];
/// * filling the slot advances the generation with [`Generation::fill`];
/// * emptying the slot advances it with [`Generation::try_empty`], which may
///   instead report that the generation is exhausted, in which case the arena
///   writes [`Generation::empty`] and retires the slot forever;
/// * a key stores the snapshot [`Generation::to_filled`] of the generation it
///   was minted with, and [`Generation::matches`] compares a slot's live
///   generation against such a snapshot.
///
/// The `*_spec` functions mirror each step in specifications, and the lemmas
/// state the facts every policy guarantees: a fresh fill matches its own
/// snapshot, a matching generation is filled, and one generation matches at
/// most one snapshot.
///
/// The numeric policies keep the counter in one unsigned integer where even
/// values are empty and odd values are filled, so `matches` is a single
/// comparison.
pub trait Generation: Sized + Copy + PartialEq + Eq + PartialOrd + Ord + core::hash::Hash + core::fmt::Debug {
    /// The snapshot of a filled generation that keys embed.
    type Filled: Copy + PartialEq + Eq + PartialOrd + Ord + core::hash::Hash + core::fmt::Debug;

    /// Whether this generation marks a filled slot.
    spec fn filled_spec(self) -> bool;

    /// The initial, empty generation.
    spec fn empty_spec() -> Self;

    /// What [`Generation::fill`] returns.
    spec fn fill_spec(self) -> Self;

    /// Whether [`Generation::try_empty`] succeeds on this generation.
    spec fn try_empty_ok(self) -> bool;

    /// What [`Generation::try_empty`] returns when it succeeds.
    spec fn try_empty_spec(self) -> Self;

    /// What [`Generation::to_filled`] returns.
    spec fn to_filled_spec(self) -> Self::Filled;

    /// Whether this generation matches the snapshot `f`.
    spec fn matches_spec(self, f: Self::Filled) -> bool;

    /// The initial generation is empty.
    proof fn lemma_empty()
        ensures
            !Self::empty_spec().filled_spec(),
    ;

    /// Filling an empty generation yields a filled one that matches its own
    /// snapshot.
    proof fn lemma_fill(self)
        requires
            !self.filled_spec(),
        ensures
            self.fill_spec().filled_spec(),
            self.fill_spec().matches_spec(self.fill_spec().to_filled_spec()),
    ;

    /// A successful removal yields an empty generation.
    proof fn lemma_try_empty(self)
        requires
            self.filled_spec(),
            self.try_empty_ok(),
        ensures
            !self.try_empty_spec().filled_spec(),
    ;

    /// A generation that matches some snapshot is filled.
    proof fn lemma_matches_filled(self, f: Self::Filled)
        ensures
            self.matches_spec(f) ==> self.filled_spec(),
    ;

    /// A generation matches at most one snapshot.
    proof fn lemma_matches_unique(self, f1: Self::Filled, f2: Self::Filled)
        ensures
            self.matches_spec(f1) && self.matches_spec(f2) ==> f1 == f2,
    ;

    /// A filled generation matches its own snapshot.
    proof fn lemma_to_filled_matches(self)
        requires
            self.filled_spec(),
        ensures
            self.matches_spec(self.to_filled_spec()),
    ;

    /// The initial generation, used for every newly grown slot.
    fn empty() -> (r: Self)
        ensures
            r == Self::empty_spec(),
    ;

    /// The next generation after filling this empty one.
    fn fill(self) -> (r: Self)
        requires
            !self.filled_spec(),
        ensures
            r == self.fill_spec(),
    ;

    /// The next generation after emptying this filled one, or `None` when the
    /// generation is exhausted and the slot must be retired.
    fn try_empty(self) -> (r: Option<Self>)
        requires
            self.filled_spec(),
        ensures
            self.try_empty_ok() ==> r == Some(self.try_empty_spec()),
            !self.try_empty_ok() ==> r is None,
    ;

    /// The snapshot of this filled generation, cheap enough to sit in a key.
    fn to_filled(self) -> (r: Self::Filled)
        requires
            self.filled_spec(),
        ensures
            r == self.to_filled_spec(),
    ;

    /// Check whether this generation matches the snapshot `f`.
    fn matches(self, f: Self::Filled) -> (r: bool)
        ensures
            r == self.matches_spec(f),
    ;

    /// Check whether this generation marks an empty slot.
    fn is_empty(self) -> (r: bool)
        ensures
            r == !self.filled_spec(),
    ;

    /// Check whether this generation marks a filled slot.
    fn is_filled(self) -> (r: bool)
        ensures
            r == self.filled_spec(),
    {
        let e = self.is_empty();
        !e
    }
}

/// A generation policy whose counter only grows until the slot is retired.
///
/// The saturating numeric policies implement this. It is the interface the
/// staleness lemmas of
/// [`GenericSparseArena`](crate::generic_sparse::GenericSparseArena) rest on:
/// because the counter of a slot never returns to an earlier value, a key
/// whose snapshot has been passed can never match that slot again.
pub trait OrderedGeneration: Generation {
    /// The counter a generation stands for.
    spec fn gen_count(self) -> int;

    /// The counter a snapshot was taken at.
    spec fn snap_count(f: Self::Filled) -> int;

    /// Filling strictly increases the counter, and the snapshot of the
    /// filled generation is taken at the new counter.
    proof fn lemma_fill_count(self)
        requires
            !self.filled_spec(),
        ensures
            self.fill_spec().gen_count() > self.gen_count(),
            Self::snap_count(self.fill_spec().to_filled_spec()) == self.fill_spec().gen_count(),
    ;

    /// A successful removal strictly increases the counter.
    proof fn lemma_try_empty_count(self)
        requires
            self.filled_spec(),
            self.try_empty_ok(),
        ensures
            self.try_empty_spec().gen_count() > self.gen_count(),
    ;

    /// A generation only matches snapshots taken at its own counter.
    proof fn lemma_matches_count(self, f: Self::Filled)
        ensures
            self.matches_spec(f) ==> self.gen_count() == Self::snap_count(f),
    ;
}

/// The generation policy that ignores the ABA problem: it only tells filled
/// slots from empty ones, so a stale key to a refilled slot is
/// indistinguishable from a fresh one.
#[derive(Debug, Clone, Copy, PartialEq, Eq, PartialOrd, Ord, Hash)]
pub struct NoGeneration(bool);

/// The key snapshot of [`NoGeneration`]: it carries no information, since
/// this policy cannot tell two occupants of one slot apart.
#[derive(Debug, Clone, Copy, PartialEq, Eq, PartialOrd, Ord, Hash)]
pub struct NoGenerationFilled;

impl Generation for NoGeneration {
    type Filled = NoGenerationFilled;

    closed spec fn filled_spec(self) -> bool {
        self.0
    }

    closed spec fn empty_spec() -> Self {
        NoGeneration(false)
    }

    closed spec fn fill_spec(self) -> Self {
        NoGeneration(true)
    }

    closed spec fn try_empty_ok(self) -> bool {
        true
    }

    closed spec fn try_empty_spec(self) -> Self {
        NoGeneration(false)
    }

    closed spec fn to_filled_spec(self) -> Self::Filled {
        NoGenerationFilled
    }

    closed spec fn matches_spec(self, f: Self::Filled) -> bool {
        self.0
    }

    proof fn lemma_empty() {
    }

    proof fn lemma_fill(self) {
    }

    proof fn lemma_try_empty(self) {
    }

    proof fn lemma_matches_filled(self, f: Self::Filled) {
    }

    proof fn lemma_matches_unique(self, f1: Self::Filled, f2: Self::Filled) {
    }

    proof fn lemma_to_filled_matches(self) {
    }

    fn empty() -> (r: Self) {
        NoGeneration(false)
    }

    fn fill(self) -> (r: Self) {
        NoGeneration(true)
    }

    fn try_empty(self) -> (r: Option<Self>) {
        Some(NoGeneration(false))
    }

    fn to_filled(self) -> (r: Self::Filled) {
        NoGenerationFilled
    }

    fn matches(self, f: Self::Filled) -> (r: bool) {
        self.0
    }

    fn is_empty(self) -> (r: bool) {
        !self.0
    }
}


/// A 8-bit saturating generation: even counter values are empty, odd values
/// are filled, and a removal at the largest counter value retires the slot.
#[allow(non_camel_case_types)]
#[derive(Debug, Clone, Copy, PartialEq, Eq, PartialOrd, Ord, Hash)]
pub struct g8(u8);

/// The key snapshot of [`g8`]: the odd counter value the key was minted at.
#[derive(Debug, Clone, Copy, PartialEq, Eq, PartialOrd, Ord, Hash)]
pub struct FilledG8(u8);

impl Generation for g8 {
    type Filled = FilledG8;

    closed spec fn filled_spec(self) -> bool {
        self.0 % 2 == 1
    }

    closed spec fn empty_spec() -> Self {
        g8(0)
    }

    closed spec fn fill_spec(self) -> Self {
        g8((self.0 + 1) as u8)
    }

    closed spec fn try_empty_ok(self) -> bool {
        self.0 < u8::MAX
    }

    closed spec fn try_empty_spec(self) -> Self {
        g8((self.0 + 1) as u8)
    }

    closed spec fn to_filled_spec(self) -> Self::Filled {
        FilledG8(self.0)
    }

    closed spec fn matches_spec(self, f: Self::Filled) -> bool {
        self.0 % 2 == 1 && self.0 == f.0
    }

    proof fn lemma_empty() {
    }

    proof fn lemma_fill(self) {
    }

    proof fn lemma_try_empty(self) {
    }

    proof fn lemma_matches_filled(self, f: Self::Filled) {
    }

    proof fn lemma_matches_unique(self, f1: Self::Filled, f2: Self::Filled) {
    }

    proof fn lemma_to_filled_matches(self) {
    }

    fn empty() -> (r: Self) {
        g8(0)
    }

    fn fill(self) -> (r: Self) {
        g8(self.0 + 1)
    }

    fn try_empty(self) -> (r: Option<Self>) {
        if self.0 == u8::MAX {
            None
        } else {
            Some(g8(self.0 + 1))
        }
    }

    fn to_filled(self) -> (r: Self::Filled) {
        FilledG8(self.0)
    }

    fn matches(self, f: Self::Filled) -> (r: bool) {
        self.0 % 2 == 1 && self.0 == f.0
    }

    fn is_empty(self) -> (r: bool) {
        self.0 % 2 == 0
    }
}

impl OrderedGeneration for g8 {
    closed spec fn gen_count(self) -> int {
        self.0 as int
    }

    closed spec fn snap_count(f: Self::Filled) -> int {
        f.0 as int
    }

    proof fn lemma_fill_count(self) {
    }

    proof fn lemma_try_empty_count(self) {
    }

    proof fn lemma_matches_count(self, f: Self::Filled) {
    }
}

/// A 16-bit saturating generation: even counter values are empty, odd values
/// are filled, and a removal at the largest counter value retires the slot.
#[allow(non_camel_case_types)]
#[derive(Debug, Clone, Copy, PartialEq, Eq, PartialOrd, Ord, Hash)]
pub struct g16(u16);

/// The key snapshot of [`g16`]: the odd counter value the key was minted at.
#[derive(Debug, Clone, Copy, PartialEq, Eq, PartialOrd, Ord, Hash)]
pub struct FilledG16(u16);

impl Generation for g16 {
    type Filled = FilledG16;

    closed spec fn filled_spec(self) -> bool {
        self.0 % 2 == 1
    }

    closed spec fn empty_spec() -> Self {
        g16(0)
    }

    closed spec fn fill_spec(self) -> Self {
        g16((self.0 + 1) as u16)
    }

    closed spec fn try_empty_ok(self) -> bool {
        self.0 < u16::MAX
    }

    closed spec fn try_empty_spec(self) -> Self {
        g16((self.0 + 1) as u16)
    }

    closed spec fn to_filled_spec(self) -> Self::Filled {
        FilledG16(self.0)
    }

    closed spec fn matches_spec(self, f: Self::Filled) -> bool {
        self.0 % 2 == 1 && self.0 == f.0
    }

    proof fn lemma_empty() {
    }

    proof fn lemma_fill(self) {
    }

    proof fn lemma_try_empty(self) {
    }

    proof fn lemma_matches_filled(self, f: Self::Filled) {
    }

    proof fn lemma_matches_unique(self, f1: Self::Filled, f2: Self::Filled) {
    }

    proof fn lemma_to_filled_matches(self) {
    }

    fn empty() -> (r: Self) {
        g16(0)
    }

    fn fill(self) -> (r: Self) {
        g16(self.0 + 1)
    }

    fn try_empty(self) -> (r: Option<Self>) {
        if self.0 == u16::MAX {
            None
        } else {
            Some(g16(self.0 + 1))
        }
    }

    fn to_filled(self) -> (r: Self::Filled) {
        FilledG16(self.0)
    }

    fn matches(self, f: Self::Filled) -> (r: bool) {
        self.0 % 2 == 1 && self.0 == f.0
    }

    fn is_empty(self) -> (r: bool) {
        self.0 % 2 == 0
    }
}

impl OrderedGeneration for g16 {
    closed spec fn gen_count(self) -> int {
        self.0 as int
    }

    closed spec fn snap_count(f: Self::Filled) -> int {
        f.0 as int
    }

    proof fn lemma_fill_count(self) {
    }

    proof fn lemma_try_empty_count(self) {
    }

    proof fn lemma_matches_count(self, f: Self::Filled) {
    }
}

/// A 32-bit saturating generation: even counter values are empty, odd values
/// are filled, and a removal at the largest counter value retires the slot.
#[allow(non_camel_case_types)]
#[derive(Debug, Clone, Copy, PartialEq, Eq, PartialOrd, Ord, Hash)]
pub struct g32(u32);

/// The key snapshot of [`g32`]: the odd counter value the key was minted at.
#[derive(Debug, Clone, Copy, PartialEq, Eq, PartialOrd, Ord, Hash)]
pub struct FilledG32(u32);

impl Generation for g32 {
    type Filled = FilledG32;

    closed spec fn filled_spec(self) -> bool {
        self.0 % 2 == 1
    }

    closed spec fn empty_spec() -> Self {
        g32(0)
    }

    closed spec fn fill_spec(self) -> Self {
        g32((self.0 + 1) as u32)
    }

    closed spec fn try_empty_ok(self) -> bool {
        self.0 < u32::MAX
    }

    closed spec fn try_empty_spec(self) -> Self {
        g32((self.0 + 1) as u32)
    }

    closed spec fn to_filled_spec(self) -> Self::Filled {
        FilledG32(self.0)
    }

    closed spec fn matches_spec(self, f: Self::Filled) -> bool {
        self.0 % 2 == 1 && self.0 == f.0
    }

    proof fn lemma_empty() {
    }

    proof fn lemma_fill(self) {
    }

    proof fn lemma_try_empty(self) {
    }

    proof fn lemma_matches_filled(self, f: Self::Filled) {
    }

    proof fn lemma_matches_unique(self, f1: Self::Filled, f2: Self::Filled) {
    }

    proof fn lemma_to_filled_matches(self) {
    }

    fn empty() -> (r: Self) {
        g32(0)
    }

    fn fill(self) -> (r: Self) {
        g32(self.0 + 1)
    }

    fn try_empty(self) -> (r: Option<Self>) {
        if self.0 == u32::MAX {
            None
        } else {
            Some(g32(self.0 + 1))
        }
    }

    fn to_filled(self) -> (r: Self::Filled) {
        FilledG32(self.0)
    }

    fn matches(self, f: Self::Filled) -> (r: bool) {
        self.0 % 2 == 1 && self.0 == f.0
    }

    fn is_empty(self) -> (r: bool) {
        self.0 % 2 == 0
    }
}

impl OrderedGeneration for g32 {
    closed spec fn gen_count(self) -> int {
        self.0 as int
    }

    closed spec fn snap_count(f: Self::Filled) -> int {
        f.0 as int
    }

    proof fn lemma_fill_count(self) {
    }

    proof fn lemma_try_empty_count(self) {
    }

    proof fn lemma_matches_count(self, f: Self::Filled) {
    }
}

/// A 64-bit saturating generation: even counter values are empty, odd values
/// are filled, and a removal at the largest counter value retires the slot.
#[allow(non_camel_case_types)]
#[derive(Debug, Clone, Copy, PartialEq, Eq, PartialOrd, Ord, Hash)]
pub struct g64(u64);

/// The key snapshot of [`g64`]: the odd counter value the key was minted at.
#[derive(Debug, Clone, Copy, PartialEq, Eq, PartialOrd, Ord, Hash)]
pub struct FilledG64(u64);

impl Generation for g64 {
    type Filled = FilledG64;

    closed spec fn filled_spec(self) -> bool {
        self.0 % 2 == 1
    }

    closed spec fn empty_spec() -> Self {
        g64(0)
    }

    closed spec fn fill_spec(self) -> Self {
        g64((self.0 + 1) as u64)
    }

    closed spec fn try_empty_ok(self) -> bool {
        self.0 < u64::MAX
    }

    closed spec fn try_empty_spec(self) -> Self {
        g64((self.0 + 1) as u64)
    }

    closed spec fn to_filled_spec(self) -> Self::Filled {
        FilledG64(self.0)
    }

    closed spec fn matches_spec(self, f: Self::Filled) -> bool {
        self.0 % 2 == 1 && self.0 == f.0
    }

    proof fn lemma_empty() {
    }

    proof fn lemma_fill(self) {
    }

    proof fn lemma_try_empty(self) {
    }

    proof fn lemma_matches_filled(self, f: Self::Filled) {
    }

    proof fn lemma_matches_unique(self, f1: Self::Filled, f2: Self::Filled) {
    }

    proof fn lemma_to_filled_matches(self) {
    }

    fn empty() -> (r: Self) {
        g64(0)
    }

    fn fill(self) -> (r: Self) {
        g64(self.0 + 1)
    }

    fn try_empty(self) -> (r: Option<Self>) {
        if self.0 == u64::MAX {
            None
        } else {
            Some(g64(self.0 + 1))
        }
    }

    fn to_filled(self) -> (r: Self::Filled) {
        FilledG64(self.0)
    }

    fn matches(self, f: Self::Filled) -> (r: bool) {
        self.0 % 2 == 1 && self.0 == f.0
    }

    fn is_empty(self) -> (r: bool) {
        self.0 % 2 == 0
    }
}

impl OrderedGeneration for g64 {
    closed spec fn gen_count(self) -> int {
        self.0 as int
    }

    closed spec fn snap_count(f: Self::Filled) -> int {
        f.0 as int
    }

    proof fn lemma_fill_count(self) {
    }

    proof fn lemma_try_empty_count(self) {
    }

    proof fn lemma_matches_count(self, f: Self::Filled) {
    }
}

/// A pointer-sized saturating generation: even counter values are empty, odd values
/// are filled, and a removal at the largest counter value retires the slot.
#[allow(non_camel_case_types)]
#[derive(Debug, Clone, Copy, PartialEq, Eq, PartialOrd, Ord, Hash)]
pub struct gsize(usize);

/// The key snapshot of [`gsize`]: the odd counter value the key was minted at.
#[derive(Debug, Clone, Copy, PartialEq, Eq, PartialOrd, Ord, Hash)]
pub struct FilledGsize(usize);

impl Generation for gsize {
    type Filled = FilledGsize;

    closed spec fn filled_spec(self) -> bool {
        self.0 % 2 == 1
    }

    closed spec fn empty_spec() -> Self {
        gsize(0)
    }

    closed spec fn fill_spec(self) -> Self {
        gsize((self.0 + 1) as usize)
    }

    closed spec fn try_empty_ok(self) -> bool {
        self.0 < usize::MAX
    }

    closed spec fn try_empty_spec(self) -> Self {
        gsize((self.0 + 1) as usize)
    }

    closed spec fn to_filled_spec(self) -> Self::Filled {
        FilledGsize(self.0)
    }

    closed spec fn matches_spec(self, f: Self::Filled) -> bool {
        self.0 % 2 == 1 && self.0 == f.0
    }

    proof fn lemma_empty() {
    }

    proof fn lemma_fill(self) {
    }

    proof fn lemma_try_empty(self) {
    }

    proof fn lemma_matches_filled(self, f: Self::Filled) {
    }

    proof fn lemma_matches_unique(self, f1: Self::Filled, f2: Self::Filled) {
    }

    proof fn lemma_to_filled_matches(self) {
    }

    fn empty() -> (r: Self) {
        gsize(0)
    }

    fn fill(self) -> (r: Self) {
        gsize(self.0 + 1)
    }

    fn try_empty(self) -> (r: Option<Self>) {
        if self.0 == usize::MAX {
            None
        } else {
            Some(gsize(self.0 + 1))
        }
    }

    fn to_filled(self) -> (r: Self::Filled) {
        FilledGsize(self.0)
    }

    fn matches(self, f: Self::Filled) -> (r: bool) {
        self.0 % 2 == 1 && self.0 == f.0
    }

    fn is_empty(self) -> (r: bool) {
        self.0 % 2 == 0
    }
}

impl OrderedGeneration for gsize {
    closed spec fn gen_count(self) -> int {
        self.0 as int
    }

    closed spec fn snap_count(f: Self::Filled) -> int {
        f.0 as int
    }

    proof fn lemma_fill_count(self) {
    }

    proof fn lemma_try_empty_count(self) {
    }

    proof fn lemma_matches_count(self, f: Self::Filled) {
    }
}

/// A 128-bit saturating generation: even counter values are empty, odd values
/// are filled, and a removal at the largest counter value retires the slot.
#[allow(non_camel_case_types)]
#[derive(Debug, Clone, Copy, PartialEq, Eq, PartialOrd, Ord, Hash)]
pub struct g128(u128);

/// The key snapshot of [`g128`]: the odd counter value the key was minted at.
#[derive(Debug, Clone, Copy, PartialEq, Eq, PartialOrd, Ord, Hash)]
pub struct FilledG128(u128);

impl Generation for g128 {
    type Filled = FilledG128;

    closed spec fn filled_spec(self) -> bool {
        self.0 % 2 == 1
    }

    closed spec fn empty_spec() -> Self {
        g128(0)
    }

    closed spec fn fill_spec(self) -> Self {
        g128((self.0 + 1) as u128)
    }

    closed spec fn try_empty_ok(self) -> bool {
        self.0 < u128::MAX
    }

    closed spec fn try_empty_spec(self) -> Self {
        g128((self.0 + 1) as u128)
    }

    closed spec fn to_filled_spec(self) -> Self::Filled {
        FilledG128(self.0)
    }

    closed spec fn matches_spec(self, f: Self::Filled) -> bool {
        self.0 % 2 == 1 && self.0 == f.0
    }

    proof fn lemma_empty() {
    }

    proof fn lemma_fill(self) {
    }

    proof fn lemma_try_empty(self) {
    }

    proof fn lemma_matches_filled(self, f: Self::Filled) {
    }

    proof fn lemma_matches_unique(self, f1: Self::Filled, f2: Self::Filled) {
    }

    proof fn lemma_to_filled_matches(self) {
    }

    fn empty() -> (r: Self) {
        g128(0)
    }

    fn fill(self) -> (r: Self) {
        g128(self.0 + 1)
    }

    fn try_empty(self) -> (r: Option<Self>) {
        if self.0 == u128::MAX {
            None
        } else {
            Some(g128(self.0 + 1))
        }
    }

    fn to_filled(self) -> (r: Self::Filled) {
        FilledG128(self.0)
    }

    fn matches(self, f: Self::Filled) -> (r: bool) {
        self.0 % 2 == 1 && self.0 == f.0
    }

    fn is_empty(self) -> (r: bool) {
        self.0 % 2 == 0
    }
}

impl OrderedGeneration for g128 {
    closed spec fn gen_count(self) -> int {
        self.0 as int
    }

    closed spec fn snap_count(f: Self::Filled) -> int {
        f.0 as int
    }

    proof fn lemma_fill_count(self) {
    }

    proof fn lemma_try_empty_count(self) {
    }

    proof fn lemma_matches_count(self, f: Self::Filled) {
    }
}

/// A 8-bit wrapping generation: even counter values are empty, odd values
/// are filled, and the counter wraps around instead of retiring the slot, so
/// a key can collide with a much later occupant of its slot.
#[allow(non_camel_case_types)]
#[derive(Debug, Clone, Copy, PartialEq, Eq, PartialOrd, Ord, Hash)]
pub struct gw8(u8);

/// The key snapshot of [`gw8`]: the odd counter value the key was minted at.
#[derive(Debug, Clone, Copy, PartialEq, Eq, PartialOrd, Ord, Hash)]
pub struct FilledGw8(u8);

impl Generation for gw8 {
    type Filled = FilledGw8;

    closed spec fn filled_spec(self) -> bool {
        self.0 % 2 == 1
    }

    closed spec fn empty_spec() -> Self {
        gw8(0)
    }

    closed spec fn fill_spec(self) -> Self {
        gw8((self.0 + 1) as u8)
    }

    closed spec fn try_empty_ok(self) -> bool {
        true
    }

    closed spec fn try_empty_spec(self) -> Self {
        if self.0 == u8::MAX {
            gw8(0)
        } else {
            gw8((self.0 + 1) as u8)
        }
    }

    closed spec fn to_filled_spec(self) -> Self::Filled {
        FilledGw8(self.0)
    }

    closed spec fn matches_spec(self, f: Self::Filled) -> bool {
        self.0 % 2 == 1 && self.0 == f.0
    }

    proof fn lemma_empty() {
    }

    proof fn lemma_fill(self) {
    }

    proof fn lemma_try_empty(self) {
    }

    proof fn lemma_matches_filled(self, f: Self::Filled) {
    }

    proof fn lemma_matches_unique(self, f1: Self::Filled, f2: Self::Filled) {
    }

    proof fn lemma_to_filled_matches(self) {
    }

    fn empty() -> (r: Self) {
        gw8(0)
    }

    fn fill(self) -> (r: Self) {
        gw8(self.0 + 1)
    }

    fn try_empty(self) -> (r: Option<Self>) {
        if self.0 == u8::MAX {
            Some(gw8(0))
        } else {
            Some(gw8(self.0 + 1))
        }
    }

    fn to_filled(self) -> (r: Self::Filled) {
        FilledGw8(self.0)
    }

    fn matches(self, f: Self::Filled) -> (r: bool) {
        self.0 % 2 == 1 && self.0 == f.0
    }

    fn is_empty(self) -> (r: bool) {
        self.0 % 2 == 0
    }
}

/// A 16-bit wrapping generation: even counter values are empty, odd values
/// are filled, and the counter wraps around instead of retiring the slot, so
/// a key can collide with a much later occupant of its slot.
#[allow(non_camel_case_types)]
#[derive(Debug, Clone, Copy, PartialEq, Eq, PartialOrd, Ord, Hash)]
pub struct gw16(u16);

/// The key snapshot of [`gw16`]: the odd counter value the key was minted at.
#[derive(Debug, Clone, Copy, PartialEq, Eq, PartialOrd, Ord, Hash)]
pub struct FilledGw16(u16);

impl Generation for gw16 {
    type Filled = FilledGw16;

    closed spec fn filled_spec(self) -> bool {
        self.0 % 2 == 1
    }

    closed spec fn empty_spec() -> Self {
        gw16(0)
    }

    closed spec fn fill_spec(self) -> Self {
        gw16((self.0 + 1) as u16)
    }

    closed spec fn try_empty_ok(self) -> bool {
        true
    }

    closed spec fn try_empty_spec(self) -> Self {
        if self.0 == u16::MAX {
            gw16(0)
        } else {
            gw16((self.0 + 1) as u16)
        }
    }

    closed spec fn to_filled_spec(self) -> Self::Filled {
        FilledGw16(self.0)
    }

    closed spec fn matches_spec(self, f: Self::Filled) -> bool {
        self.0 % 2 == 1 && self.0 == f.0
    }

    proof fn lemma_empty() {
    }

    proof fn lemma_fill(self) {
    }

    proof fn lemma_try_empty(self) {
    }

    proof fn lemma_matches_filled(self, f: Self::Filled) {
    }

    proof fn lemma_matches_unique(self, f1: Self::Filled, f2: Self::Filled) {
    }

    proof fn lemma_to_filled_matches(self) {
    }

    fn empty() -> (r: Self) {
        gw16(0)
    }

    fn fill(self) -> (r: Self) {
        gw16(self.0 + 1)
    }

    fn try_empty(self) -> (r: Option<Self>) {
        if self.0 == u16::MAX {
            Some(gw16(0))
        } else {
            Some(gw16(self.0 + 1))
        }
    }

    fn to_filled(self) -> (r: Self::Filled) {
        FilledGw16(self.0)
    }

    fn matches(self, f: Self::Filled) -> (r: bool) {
        self.0 % 2 == 1 && self.0 == f.0
    }

    fn is_empty(self) -> (r: bool) {
        self.0 % 2 == 0
    }
}

/// A 32-bit wrapping generation: even counter values are empty, odd values
/// are filled, and the counter wraps around instead of retiring the slot, so
/// a key can collide with a much later occupant of its slot.
#[allow(non_camel_case_types)]
#[derive(Debug, Clone, Copy, PartialEq, Eq, PartialOrd, Ord, Hash)]
pub struct gw32(u32);

/// The key snapshot of [`gw32`]: the odd counter value the key was minted at.
#[derive(Debug, Clone, Copy, PartialEq, Eq, PartialOrd, Ord, Hash)]
pub struct FilledGw32(u32);

impl Generation for gw32 {
    type Filled = FilledGw32;

    closed spec fn filled_spec(self) -> bool {
        self.0 % 2 == 1
    }

    closed spec fn empty_spec() -> Self {
        gw32(0)
    }

    closed spec fn fill_spec(self) -> Self {
        gw32((self.0 + 1) as u32)
    }

    closed spec fn try_empty_ok(self) -> bool {
        true
    }

    closed spec fn try_empty_spec(self) -> Self {
        if self.0 == u32::MAX {
            gw32(0)
        } else {
            gw32((self.0 + 1) as u32)
        }
    }

    closed spec fn to_filled_spec(self) -> Self::Filled {
        FilledGw32(self.0)
    }

    closed spec fn matches_spec(self, f: Self::Filled) -> bool {
        self.0 % 2 == 1 && self.0 == f.0
    }

    proof fn lemma_empty() {
    }

    proof fn lemma_fill(self) {
    }

    proof fn lemma_try_empty(self) {
    }

    proof fn lemma_matches_filled(self, f: Self::Filled) {
    }

    proof fn lemma_matches_unique(self, f1: Self::Filled, f2: Self::Filled) {
    }

    proof fn lemma_to_filled_matches(self) {
    }

    fn empty() -> (r: Self) {
        gw32(0)
    }

    fn fill(self) -> (r: Self) {
        gw32(self.0 + 1)
    }

    fn try_empty(self) -> (r: Option<Self>) {
        if self.0 == u32::MAX {
            Some(gw32(0))
        } else {
            Some(gw32(self.0 + 1))
        }
    }

    fn to_filled(self) -> (r: Self::Filled) {
        FilledGw32(self.0)
    }

    fn matches(self, f: Self::Filled) -> (r: bool) {
        self.0 % 2 == 1 && self.0 == f.0
    }

    fn is_empty(self) -> (r: bool) {
        self.0 % 2 == 0
    }
}

/// A 64-bit wrapping generation: even counter values are empty, odd values
/// are filled, and the counter wraps around instead of retiring the slot, so
/// a key can collide with a much later occupant of its slot.
#[allow(non_camel_case_types)]
#[derive(Debug, Clone, Copy, PartialEq, Eq, PartialOrd, Ord, Hash)]
pub struct gw64(u64);

/// The key snapshot of [`gw64`]: the odd counter value the key was minted at.
#[derive(Debug, Clone, Copy, PartialEq, Eq, PartialOrd, Ord, Hash)]
pub struct FilledGw64(u64);

impl Generation for gw64 {
    type Filled = FilledGw64;

    closed spec fn filled_spec(self) -> bool {
        self.0 % 2 == 1
    }

    closed spec fn empty_spec() -> Self {
        gw64(0)
    }

    closed spec fn fill_spec(self) -> Self {
        gw64((self.0 + 1) as u64)
    }

    closed spec fn try_empty_ok(self) -> bool {
        true
    }

    closed spec fn try_empty_spec(self) -> Self {
        if self.0 == u64::MAX {
            gw64(0)
        } else {
            gw64((self.0 + 1) as u64)
        }
    }

    closed spec fn to_filled_spec(self) -> Self::Filled {
        FilledGw64(self.0)
    }

    closed spec fn matches_spec(self, f: Self::Filled) -> bool {
        self.0 % 2 == 1 && self.0 == f.0
    }

    proof fn lemma_empty() {
    }

    proof fn lemma_fill(self) {
    }

    proof fn lemma_try_empty(self) {
    }

    proof fn lemma_matches_filled(self, f: Self::Filled) {
    }

    proof fn lemma_matches_unique(self, f1: Self::Filled, f2: Self::Filled) {
    }

    proof fn lemma_to_filled_matches(self) {
    }

    fn empty() -> (r: Self) {
        gw64(0)
    }

    fn fill(self) -> (r: Self) {
        gw64(self.0 + 1)
    }

    fn try_empty(self) -> (r: Option<Self>) {
        if self.0 == u64::MAX {
            Some(gw64(0))
        } else {
            Some(gw64(self.0 + 1))
        }
    }

    fn to_filled(self) -> (r: Self::Filled) {
        FilledGw64(self.0)
    }

    fn matches(self, f: Self::Filled) -> (r: bool) {
        self.0 % 2 == 1 && self.0 == f.0
    }

    fn is_empty(self) -> (r: bool) {
        self.0 % 2 == 0
    }
}

/// A pointer-sized wrapping generation: even counter values are empty, odd values
/// are filled, and the counter wraps around instead of retiring the slot, so
/// a key can collide with a much later occupant of its slot.
#[allow(non_camel_case_types)]
#[derive(Debug, Clone, Copy, PartialEq, Eq, PartialOrd, Ord, Hash)]
pub struct gwsize(usize);

/// The key snapshot of [`gwsize`]: the odd counter value the key was minted at.
#[derive(Debug, Clone, Copy, PartialEq, Eq, PartialOrd, Ord, Hash)]
pub struct FilledGwsize(usize);

impl Generation for gwsize {
    type Filled = FilledGwsize;

    closed spec fn filled_spec(self) -> bool {
        self.0 % 2 == 1
    }

    closed spec fn empty_spec() -> Self {
        gwsize(0)
    }

    closed spec fn fill_spec(self) -> Self {
        gwsize((self.0 + 1) as usize)
    }

    closed spec fn try_empty_ok(self) -> bool {
        true
    }

    closed spec fn try_empty_spec(self) -> Self {
        if self.0 == usize::MAX {
            gwsize(0)
        } else {
            gwsize((self.0 + 1) as usize)
        }
    }

    closed spec fn to_filled_spec(self) -> Self::Filled {
        FilledGwsize(self.0)
    }

    closed spec fn matches_spec(self, f: Self::Filled) -> bool {
        self.0 % 2 == 1 && self.0 == f.0
    }

    proof fn lemma_empty() {
    }

    proof fn lemma_fill(self) {
    }

    proof fn lemma_try_empty(self) {
    }

    proof fn lemma_matches_filled(self, f: Self::Filled) {
    }

    proof fn lemma_matches_unique(self, f1: Self::Filled, f2: Self::Filled) {
    }

    proof fn lemma_to_filled_matches(self) {
    }

    fn empty() -> (r: Self) {
        gwsize(0)
    }

    fn fill(self) -> (r: Self) {
        gwsize(self.0 + 1)
    }

    fn try_empty(self) -> (r: Option<Self>) {
        if self.0 == usize::MAX {
            Some(gwsize(0))
        } else {
            Some(gwsize(self.0 + 1))
        }
    }

    fn to_filled(self) -> (r: Self::Filled) {
        FilledGwsize(self.0)
    }

    fn matches(self, f: Self::Filled) -> (r: bool) {
        self.0 % 2 == 1 && self.0 == f.0
    }

    fn is_empty(self) -> (r: bool) {
        self.0 % 2 == 0
    }
}


/// A 128-bit wrapping generation: even counter values are empty, odd values
/// are filled, and the counter wraps around instead of retiring the slot, so
/// a key can collide with a much later occupant of its slot.
#[allow(non_camel_case_types)]
#[derive(Debug, Clone, Copy, PartialEq, Eq, PartialOrd, Ord, Hash)]
pub struct gw128(u128);

/// The key snapshot of [`gw128`]: the odd counter value the key was minted at.
#[derive(Debug, Clone, Copy, PartialEq, Eq, PartialOrd, Ord, Hash)]
pub struct FilledGw128(u128);

impl Generation for gw128 {
    type Filled = FilledGw128;

    closed spec fn filled_spec(self) -> bool {
        self.0 % 2 == 1
    }

    closed spec fn empty_spec() -> Self {
        gw128(0)
    }

    closed spec fn fill_spec(self) -> Self {
        gw128((self.0 + 1) as u128)
    }

    closed spec fn try_empty_ok(self) -> bool {
        true
    }

    closed spec fn try_empty_spec(self) -> Self {
        if self.0 == u128::MAX {
            gw128(0)
        } else {
            gw128((self.0 + 1) as u128)
        }
    }

    closed spec fn to_filled_spec(self) -> Self::Filled {
        FilledGw128(self.0)
    }

    closed spec fn matches_spec(self, f: Self::Filled) -> bool {
        self.0 % 2 == 1 && self.0 == f.0
    }

    proof fn lemma_empty() {
    }

    proof fn lemma_fill(self) {
    }

    proof fn lemma_try_empty(self) {
    }

    proof fn lemma_matches_filled(self, f: Self::Filled) {
    }

    proof fn lemma_matches_unique(self, f1: Self::Filled, f2: Self::Filled) {
    }

    proof fn lemma_to_filled_matches(self) {
    }

    fn empty() -> (r: Self) {
        gw128(0)
    }

    fn fill(self) -> (r: Self) {
        gw128(self.0 + 1)
    }

    fn try_empty(self) -> (r: Option<Self>) {
        if self.0 == u128::MAX {
            Some(gw128(0))
        } else {
            Some(gw128(self.0 + 1))
        }
    }

    fn to_filled(self) -> (r: Self::Filled) {
        FilledGw128(self.0)
    }

    fn matches(self, f: Self::Filled) -> (r: bool) {
        self.0 % 2 == 1 && self.0 == f.0
    }

    fn is_empty(self) -> (r: bool) {
        self.0 % 2 == 0
    }
}

/// The default generation policy: a thin wrapper around [`g32`], a saturating
/// 32-bit counter.
#[derive(Debug, Clone, Copy, PartialEq, Eq, PartialOrd, Ord, Hash)]
pub struct DefaultGeneration(g32);

/// The key snapshot of [`DefaultGeneration`].
#[derive(Debug, Clone, Copy, PartialEq, Eq, PartialOrd, Ord, Hash)]
pub struct DefaultGenerationFilled(FilledG32);

impl Generation for DefaultGeneration {
    type Filled = DefaultGenerationFilled;

    closed spec fn filled_spec(self) -> bool {
        self.0.filled_spec()
    }

    closed spec fn empty_spec() -> Self {
        DefaultGeneration(g32::empty_spec())
    }

    closed spec fn fill_spec(self) -> Self {
        DefaultGeneration(self.0.fill_spec())
    }

    closed spec fn try_empty_ok(self) -> bool {
        self.0.try_empty_ok()
    }

    closed spec fn try_empty_spec(self) -> Self {
        DefaultGeneration(self.0.try_empty_spec())
    }

    closed spec fn to_filled_spec(self) -> Self::Filled {
        DefaultGenerationFilled(self.0.to_filled_spec())
    }

    closed spec fn matches_spec(self, f: Self::Filled) -> bool {
        self.0.matches_spec(f.0)
    }

    proof fn lemma_empty() {
        g32::lemma_empty();
    }

    proof fn lemma_fill(self) {
        self.0.lemma_fill();
    }

    proof fn lemma_try_empty(self) {
        self.0.lemma_try_empty();
    }

    proof fn lemma_matches_filled(self, f: Self::Filled) {
        self.0.lemma_matches_filled(f.0);
    }

    proof fn lemma_matches_unique(self, f1: Self::Filled, f2: Self::Filled) {
        self.0.lemma_matches_unique(f1.0, f2.0);
    }

    proof fn lemma_to_filled_matches(self) {
        self.0.lemma_to_filled_matches();
    }

    fn empty() -> (r: Self) {
        DefaultGeneration(g32::empty())
    }

    fn fill(self) -> (r: Self) {
        DefaultGeneration(self.0.fill())
    }

    fn try_empty(self) -> (r: Option<Self>) {
        match self.0.try_empty() {
            Some(g) => Some(DefaultGeneration(g)),
            None => None,
        }
    }

    fn to_filled(self) -> (r: Self::Filled) {
        DefaultGenerationFilled(self.0.to_filled())
    }

    fn matches(self, f: Self::Filled) -> (r: bool) {
        self.0.matches(f.0)
    }

    fn is_empty(self) -> (r: bool) {
        self.0.is_empty()
    }
}

impl OrderedGeneration for DefaultGeneration {
    closed spec fn gen_count(self) -> int {
        self.0.gen_count()
    }

    closed spec fn snap_count(f: Self::Filled) -> int {
        g32::snap_count(f.0)
    }

    proof fn lemma_fill_count(self) {
        self.0.lemma_fill_count();
    }

    proof fn lemma_try_empty_count(self) {
        self.0.lemma_try_empty_count();
    }

    proof fn lemma_matches_count(self, f: Self::Filled) {
        self.0.lemma_matches_count(f.0);
    }
}

} // verus!
