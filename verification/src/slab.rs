//! A sparse arena with plain `usize` keys, no ABA protection, and a length
//! counter.
//!
//! see [`Slab`] for details

use vstd::prelude::*;

use crate::generation::NoGeneration;
use crate::generic_sparse;
use crate::generic_sparse::GenericSparseArena;

verus! {

/// A [`Slab`] is a [`GenericSparseArena`] fixed to `usize` keys and the
/// [`NoGeneration`] policy, with a length counter on top.
///
/// A key is valid as long as its slot is filled: the slab detects accesses
/// to empty slots, but a slot reused after a removal is indistinguishable
/// from its earlier occupant.
pub struct Slab<T> {
    len: usize,
    arena: GenericSparseArena<T, (), NoGeneration, usize>,
}

/// A reserved place for one value in a [`Slab`], created by
/// [`Slab::vacant_slot`].
pub struct VacantSlot {
    slot: generic_sparse::VacantSlot<usize>,
}

impl<T> Slab<T> {
    /// The arena behind this slab.
    pub closed spec fn arena_of(&self) -> GenericSparseArena<T, (), NoGeneration, usize> {
        self.arena
    }

    /// The number of values in the slab.
    pub open spec fn len_spec(&self) -> int {
        self.arena_of().live_count()
    }

    /// Whether `k` is a live key: in bounds and naming a filled slot.
    pub open spec fn key_live(&self, k: usize) -> bool {
        self.arena_of().key_live(k)
    }

    /// The value the live key `k` refers to.
    pub open spec fn value_of(&self, k: usize) -> T
        recommends
            self.key_live(k),
    {
        self.arena_of().value_of(k)
    }

    /// Whether an insertion may proceed: one more slot must be
    /// representable.
    pub open spec fn can_insert(&self) -> bool {
        self.arena_of().can_insert::<usize>()
    }

    /// The slab's invariant: the arena is well formed and the counter
    /// holds the number of filled slots.
    pub closed spec fn wf(&self) -> bool {
        &&& self.arena.wf()
        &&& self.len as int == self.arena.live_count()
    }

    /// Create a new, empty [`Slab`].
    pub fn new() -> (r: Self)
        ensures
            r.wf(),
            r.len_spec() == 0,
            r.arena_of().slot_count() == 0,
    {
        Slab { len: 0, arena: GenericSparseArena::new() }
    }

    /// The number of values in the [`Slab`].
    #[inline]
    pub fn len(&self) -> (r: usize)
        requires
            self.wf(),
        ensures
            r as int == self.len_spec(),
    {
        self.len
    }

    /// Returns true when the [`Slab`] holds no value.
    #[inline]
    pub fn is_empty(&self) -> (r: bool)
        requires
            self.wf(),
        ensures
            r == (self.len_spec() == 0),
    {
        self.len == 0
    }

    /// Insert a new value and return its key.
    pub fn insert(&mut self, value: T) -> (r: usize)
        requires
            old(self).wf(),
            old(self).can_insert(),
        ensures
            final(self).wf(),
            GenericSparseArena::inserted(old(self).arena_of(), final(self).arena_of(), r, value),
            final(self).len_spec() == old(self).len_spec() + 1,
    {
        proof {
            self.arena.lemma_wf_facts();
        }
        let r = self.arena.insert(value);
        self.len = self.len + 1;
        r
    }

    /// Insert a value built from its own freshly minted key, and return
    /// that key.
    pub fn insert_with<F: FnOnce(usize) -> T>(&mut self, value: F) -> (r: usize)
        requires
            old(self).wf(),
            old(self).can_insert(),
            forall|k: usize| call_requires(value, (k,)),
        ensures
            final(self).wf(),
            exists|v: T|
                #[trigger] call_ensures(value, (r,), v) && GenericSparseArena::inserted(
                    old(self).arena_of(),
                    final(self).arena_of(),
                    r,
                    v,
                ),
            final(self).len_spec() == old(self).len_spec() + 1,
    {
        proof {
            self.arena.lemma_wf_facts();
        }
        let r = self.arena.insert_with(value);
        self.len = self.len + 1;
        r
    }

    /// Reserve the slot the next insertion will fill, without changing the
    /// slab.
    pub fn vacant_slot(&mut self) -> (r: VacantSlot)
        requires
            old(self).wf(),
            old(self).can_insert(),
        ensures
            *final(self) == *old(self),
            r.slot_spec().is_vacant_for(old(self).arena_of()),
    {
        VacantSlot { slot: self.arena.vacant_slot() }
    }

    /// Get a reference to the value associated with the key, or `None`
    /// when the key is dead.
    #[inline]
    pub fn get(&self, key: usize) -> (r: Option<&T>)
        requires
            self.wf(),
        ensures
            match r {
                Some(v) => self.key_live(key) && *v == self.value_of(key),
                None => !self.key_live(key),
            },
    {
        self.arena.get(key)
    }

    /// Get a mutable reference to the value associated with the key, or
    /// `None` when the key is dead.
    ///
    /// [`GenericSparseArena::lemma_value_written`] turns the returned update shape back
    /// into a well-formed state.
    #[inline]
    pub fn get_mut(&mut self, key: usize) -> (r: Option<&mut T>)
        requires
            old(self).wf(),
        ensures
            old(self).key_live(key) ==> r is Some && *r.unwrap() == old(self).value_of(key)
                && GenericSparseArena::value_written(
                old(self).arena_of(),
                final(self).arena_of(),
                key as int,
                *final(r.unwrap()),
            ),
            !old(self).key_live(key) ==> r is None && *final(self) == *old(self),
    {
        self.arena.get_mut(key)
    }

    /// Try to remove the value associated with the key; `None` when the
    /// key is dead, with no effect.
    #[inline]
    pub fn try_remove(&mut self, key: usize) -> (r: Option<T>)
        requires
            old(self).wf(),
        ensures
            old(self).key_live(key) ==> r == Some(old(self).value_of(key)) && final(self).wf()
                && GenericSparseArena::removed(
                old(self).arena_of(),
                final(self).arena_of(),
                key,
            ) && final(self).len_spec() == old(self).len_spec() - 1,
            !old(self).key_live(key) ==> r is None && *final(self) == *old(self),
    {
        let r = self.arena.try_remove(key);
        if r.is_some() {
            proof {
                self.arena.lemma_wf_facts();
            }
            self.len = self.len - 1;
        }
        r
    }

    /// Remove the value associated with the key, which must be live.
    #[inline]
    pub fn remove(&mut self, key: usize) -> (r: T)
        requires
            old(self).wf(),
            old(self).key_live(key),
        ensures
            final(self).wf(),
            r == old(self).value_of(key),
            GenericSparseArena::removed(old(self).arena_of(), final(self).arena_of(), key),
            final(self).len_spec() == old(self).len_spec() - 1,
    {
        let r = self.try_remove(key);
        r.unwrap()
    }

    /// Get a reference to the value associated with the key, which must be
    /// live.
    #[inline]
    pub fn index(&self, key: usize) -> (r: &T)
        requires
            self.wf(),
            self.key_live(key),
        ensures
            *r == self.value_of(key),
    {
        self.arena.index(key)
    }

    /// Get a mutable reference to the value associated with the key, which
    /// must be live.
    #[inline]
    pub fn index_mut(&mut self, key: usize) -> (r: &mut T)
        requires
            old(self).wf(),
            old(self).key_live(key),
        ensures
            *r == old(self).value_of(key),
            GenericSparseArena::value_written(
                old(self).arena_of(),
                final(self).arena_of(),
                key as int,
                *final(r),
            ),
    {
        self.arena.index_mut(key)
    }

    /// Get an iterator over references to the values of this slab.
    pub fn values(&self) -> (r: generic_sparse::Values<'_, T, (), NoGeneration, usize>)
        ensures
            r.arena_spec() == self.arena_of(),
            r.pos_spec() == 0,
    {
        self.arena.values()
    }

    /// Get an iterator over the keys of this slab.
    pub fn keys(&self) -> (r: generic_sparse::Keys<'_, usize, T, (), NoGeneration, usize>)
        ensures
            r.arena_spec() == self.arena_of(),
            r.pos_spec() == 0,
    {
        self.arena.keys()
    }

    /// Get an iterator over the keys and references to the values of this
    /// slab.
    pub fn iter(&self) -> (r: generic_sparse::Iter<'_, usize, T, (), NoGeneration, usize>)
        ensures
            r.arena_spec() == self.arena_of(),
            r.pos_spec() == 0,
    {
        self.arena.iter()
    }
}

impl VacantSlot {
    /// The sparse reservation behind this one.
    pub closed spec fn slot_spec(&self) -> generic_sparse::VacantSlot<usize> {
        self.slot
    }

    /// Get the key that will be associated with this slot once it is
    /// filled.
    pub fn key(&self) -> (r: usize)
        ensures
            r == self.slot_spec().key_spec(),
    {
        self.slot.key()
    }

    /// Insert a value into the reserved slot. The slab must not have been
    /// changed since the reservation was taken.
    pub fn insert<T>(self, slab: &mut Slab<T>, value: T)
        requires
            old(slab).wf(),
            old(slab).can_insert(),
            self.slot_spec().is_vacant_for(old(slab).arena_of()),
        ensures
            final(slab).wf(),
            GenericSparseArena::inserted(
                old(slab).arena_of(),
                final(slab).arena_of(),
                self.slot_spec().key_spec(),
                value,
            ),
            final(slab).len_spec() == old(slab).len_spec() + 1,
    {
        proof {
            slab.arena.lemma_wf_facts();
        }
        self.slot.insert(&mut slab.arena, value);
        slab.len = slab.len + 1;
    }
}

/// An iterator over mutable references to the values of a [`Slab`],
/// created by [`Slab::values_mut`]. The slab is handed to every
/// [`ValuesMut::next`] call.
pub struct ValuesMut {
    inner: generic_sparse::ValuesMut,
}

/// An iterator over keys and mutable references to the values of a
/// [`Slab`], created by [`Slab::iter_mut`]. The slab is handed to every
/// [`IterMut::next`] call.
pub struct IterMut {
    inner: generic_sparse::IterMut,
}

impl ValuesMut {
    /// The next slot this iterator will look at.
    pub open spec fn pos_spec(&self) -> int {
        self.inner_spec().pos_spec()
    }

    /// The arena-level iterator behind this one.
    pub closed spec fn inner_spec(&self) -> generic_sparse::ValuesMut {
        self.inner
    }

    /// A mutable reference to the value of the first filled slot at or
    /// after the cursor, stepping the cursor past it; `None` once no
    /// filled slot is left.
    pub fn next<'a, T>(&mut self, slab: &'a mut Slab<T>) -> (r: Option<&'a mut T>)
        requires
            old(slab).wf(),
        ensures
            ({
                let a = old(slab).arena_of();
                let j = a.next_filled_from(old(self).pos_spec());
                match r {
                    Some(v) => j < a.slot_count() && a.is_filled_at(j) && *v == a.value_at(j)
                        && final(self).pos_spec() == j + 1 && GenericSparseArena::value_written(
                        a,
                        final(slab).arena_of(),
                        j,
                        *final(v),
                    ),
                    None => j == a.slot_count() && final(self).pos_spec() == a.slot_count()
                        && *final(slab) == *old(slab),
                }
            }),
    {
        self.inner.next(&mut slab.arena)
    }
}

impl IterMut {
    /// The next slot this iterator will look at.
    pub open spec fn pos_spec(&self) -> int {
        self.inner_spec().pos_spec()
    }

    /// The arena-level iterator behind this one.
    pub closed spec fn inner_spec(&self) -> generic_sparse::IterMut {
        self.inner
    }

    /// The key and a mutable reference to the value of the first filled
    /// slot at or after the cursor, stepping the cursor past it; `None`
    /// once no filled slot is left.
    pub fn next<'a, T>(&mut self, slab: &'a mut Slab<T>) -> (r: Option<(usize, &'a mut T)>)
        requires
            old(slab).wf(),
        ensures
            ({
                let a = old(slab).arena_of();
                let j = a.next_filled_from(old(self).pos_spec());
                match r {
                    Some(kv) => j < a.slot_count() && a.is_filled_at(j) && kv.0 as int == j
                        && *kv.1 == a.value_at(j) && final(self).pos_spec() == j + 1
                        && GenericSparseArena::value_written(
                        a,
                        final(slab).arena_of(),
                        j,
                        *final(kv.1),
                    ),
                    None => j == a.slot_count() && final(self).pos_spec() == a.slot_count()
                        && *final(slab) == *old(slab),
                }
            }),
    {
        proof {
            slab.arena.lemma_wf_facts();
        }
        self.inner.next(&mut slab.arena)
    }
}

impl<T> Slab<T> {
    /// Get an iterator over mutable references to the values of this slab;
    /// this slab is handed to each of its steps.
    pub fn values_mut(&mut self) -> (r: ValuesMut)
        ensures
            *final(self) == *old(self),
            r.pos_spec() == 0,
    {
        ValuesMut { inner: self.arena.values_mut() }
    }

    /// Get an iterator over keys and mutable references to the values of
    /// this slab; this slab is handed to each of its steps.
    pub fn iter_mut(&mut self) -> (r: IterMut)
        ensures
            *final(self) == *old(self),
            r.pos_spec() == 0,
    {
        IterMut { inner: self.arena.iter_mut() }
    }
}

} // verus!
