//! [`ArenaKey`] is the preferred key of the arenas; the [`ArenaIndex`] trait
//! is what lets an arena accept plain `usize` indices and generation-checked
//! keys through one interface.

use vstd::prelude::*;

use crate::generation::Generation;

verus! {

/// An [`ArenaKey`] is an index and a generation snapshot pair.
///
/// The snapshot is taken from the generation of the slot the key was minted
/// for; once the slot is emptied, the snapshot no longer matches and the key
/// is rejected by every checked accessor.
#[derive(Debug, Clone, Copy, PartialEq, Eq, PartialOrd, Ord, Hash)]
pub struct ArenaKey<I = usize, G = crate::generation::DefaultGeneration> where G: Generation {
    index: I,
    generation: G::Filled,
}

impl<I, G: Generation> ArenaKey<I, G> {
    /// The stored index, as a specification value.
    pub closed spec fn index_of(self) -> I {
        self.index
    }

    /// The stored generation snapshot, as a specification value.
    pub closed spec fn snapshot_of(self) -> G::Filled {
        self.generation
    }

    /// Get the underlying index of this key.
    #[inline]
    pub fn index(self) -> (r: I)
        ensures
            r == self.index_of(),
    {
        self.index
    }
}

/// A trait that manages access to arenas.
///
/// A key is an index [`ArenaIndex::index_spec`] together with a test
/// [`ArenaIndex::key_matches`] that decides whether the key is still valid
/// for the generation its slot currently carries. For plain `usize` keys the
/// test only asks whether the slot is filled; for [`ArenaKey`] it compares
/// the stored snapshot, which is what detects stale keys.
pub trait ArenaIndex<O, G: Generation>: Sized + Copy {
    /// The slot index this key points at.
    spec fn index_spec(self) -> int;

    /// Whether this key is valid for a slot that carries the generation `g`.
    spec fn key_matches(self, g: G) -> bool;

    /// The largest slot index this key type can carry.
    spec fn max_index() -> int;

    /// The generation snapshot this key stores, or `None` for key types that
    /// carry no snapshot and accept any filled slot.
    spec fn generation_snapshot(self) -> Option<G::Filled>;

    /// A key index is never negative, and the maximum is not either.
    proof fn lemma_index_bounds(self)
        ensures
            0 <= self.index_spec(),
            Self::max_index() >= 0,
    ;

    /// A key only matches filled generations.
    proof fn lemma_key_matches_filled(self, g: G)
        ensures
            self.key_matches(g) ==> g.filled_spec(),
    ;

    /// Two keys for the same slot that are both valid for the same
    /// generation are the same key.
    proof fn lemma_key_matches_unique(self, other: Self, g: G)
        requires
            self.index_spec() == other.index_spec(),
            self.key_matches(g),
            other.key_matches(g),
        ensures
            self == other,
    ;

    /// A key that stores a snapshot matches exactly the generations that
    /// match its snapshot.
    proof fn lemma_snapshot_matches(self, g: G)
        requires
            self.generation_snapshot() is Some,
        ensures
            self.key_matches(g) <==> g.matches_spec(self.generation_snapshot()->0),
    ;

    /// Mint the key for the slot at `index`, whose generation has the
    /// snapshot `generation`.
    fn new(index: usize, owner: &O, generation: G::Filled) -> (r: Self)
        requires
            index as int <= Self::max_index(),
        ensures
            r.index_spec() == index as int,
            forall|g: G| g.matches_spec(generation) ==> #[trigger] r.key_matches(g),
            r.generation_snapshot() is Some ==> r.generation_snapshot() == Some(generation),
    ;

    /// The slot index this key points at.
    fn to_index(&self) -> (r: usize)
        ensures
            r as int == self.index_spec(),
    ;

    /// Check whether this key is valid for the generation `g`.
    fn matches_generation(self, g: G) -> (r: bool)
        ensures
            r == self.key_matches(g),
    ;

    /// Assert that this key is valid for the generation `g`. The caller must
    /// already know it is; the arenas call this on their panicking accessors,
    /// whose contracts rule invalid keys out.
    fn assert_matches_generation(self, g: G)
        requires
            self.key_matches(g),
    ;
}

impl<O, G: Generation> ArenaIndex<O, G> for usize {
    open spec fn index_spec(self) -> int {
        self as int
    }

    open spec fn key_matches(self, g: G) -> bool {
        g.filled_spec()
    }

    open spec fn max_index() -> int {
        usize::MAX as int
    }

    open spec fn generation_snapshot(self) -> Option<G::Filled> {
        None
    }

    proof fn lemma_index_bounds(self) {
    }

    proof fn lemma_key_matches_filled(self, g: G) {
    }

    proof fn lemma_key_matches_unique(self, other: Self, g: G) {
    }

    proof fn lemma_snapshot_matches(self, g: G) {
    }

    fn new(index: usize, owner: &O, generation: G::Filled) -> (r: Self) {
        proof {
            assert forall|g: G| g.matches_spec(generation) implies g.filled_spec() by {
                g.lemma_matches_filled(generation);
            }
        }
        index
    }

    fn to_index(&self) -> (r: usize) {
        *self
    }

    fn matches_generation(self, g: G) -> (r: bool) {
        g.is_filled()
    }

    fn assert_matches_generation(self, g: G) {
    }
}

impl<O, G: Generation> ArenaIndex<O, G> for ArenaKey<usize, G> {
    closed spec fn index_spec(self) -> int {
        self.index as int
    }

    closed spec fn key_matches(self, g: G) -> bool {
        g.matches_spec(self.generation)
    }

    open spec fn max_index() -> int {
        usize::MAX as int
    }

    closed spec fn generation_snapshot(self) -> Option<G::Filled> {
        Some(self.generation)
    }

    proof fn lemma_index_bounds(self) {
    }

    proof fn lemma_key_matches_filled(self, g: G) {
        g.lemma_matches_filled(self.generation);
    }

    proof fn lemma_key_matches_unique(self, other: Self, g: G) {
        g.lemma_matches_unique(self.generation, other.generation);
    }

    proof fn lemma_snapshot_matches(self, g: G) {
    }

    fn new(index: usize, owner: &O, generation: G::Filled) -> (r: Self) {
        ArenaKey { index, generation }
    }

    fn to_index(&self) -> (r: usize) {
        self.index
    }

    fn matches_generation(self, g: G) -> (r: bool) {
        g.matches(self.generation)
    }

    fn assert_matches_generation(self, g: G) {
    }
}

impl<O, G: Generation> ArenaIndex<O, G> for ArenaKey<u32, G> {
    closed spec fn index_spec(self) -> int {
        self.index as int
    }

    closed spec fn key_matches(self, g: G) -> bool {
        g.matches_spec(self.generation)
    }

    open spec fn max_index() -> int {
        u32::MAX as int
    }

    closed spec fn generation_snapshot(self) -> Option<G::Filled> {
        Some(self.generation)
    }

    proof fn lemma_index_bounds(self) {
    }

    proof fn lemma_key_matches_filled(self, g: G) {
        g.lemma_matches_filled(self.generation);
    }

    proof fn lemma_key_matches_unique(self, other: Self, g: G) {
        g.lemma_matches_unique(self.generation, other.generation);
    }

    proof fn lemma_snapshot_matches(self, g: G) {
    }

    fn new(index: usize, owner: &O, generation: G::Filled) -> (r: Self) {
        ArenaKey { index: index as u32, generation }
    }

    fn to_index(&self) -> (r: usize) {
        self.index as usize
    }

    fn matches_generation(self, g: G) -> (r: bool) {
        g.matches(self.generation)
    }

    fn assert_matches_generation(self, g: G) {
    }
}

/// For every filled generation and every index there is an [`ArenaKey`]
/// that is valid for exactly that generation: the key the arena minted when
/// it stamped the generation. Iteration lemmas use this witness.
pub proof fn lemma_key_exists<O, G: Generation>(index: usize, g: G)
    requires
        g.filled_spec(),
    ensures
        exists|k: ArenaKey<usize, G>|
            #![trigger k.index_of()]
            k.index_of() == index && <ArenaKey<usize, G> as ArenaIndex<O, G>>::key_matches(k, g)
                && <ArenaKey<usize, G> as ArenaIndex<O, G>>::index_spec(k) == index as int,
{
    let k = ArenaKey::<usize, G> { index, generation: g.to_filled_spec() };
    g.lemma_to_filled_matches();
    assert(k.index_of() == index);
    assert(<ArenaKey<usize, G> as ArenaIndex<O, G>>::key_matches(k, g));
    assert(<ArenaKey<usize, G> as ArenaIndex<O, G>>::index_spec(k) == index as int);
}

} // verus!
