//! A sparse arena with generation-checked keys, 32-bit wrapping
//! generations, 32-bit slot metadata and a length counter.
//!
//! see [`SlotMap`] for details

use vstd::prelude::*;

use crate::generation::gw32;
use crate::generic_sparse;
use crate::generic_sparse::GenericSparseArena;

verus! {

/// The key type of [`SlotMap`].
pub type ArenaKey = crate::key::ArenaKey<u32, gw32>;

/// A [`SlotMap`] is a [`GenericSparseArena`] fixed to 32-bit wrapping
/// generations and 32-bit slot metadata, with a length counter on top.
///
/// A wrapping generation never exhausts a slot, so no slot is ever
/// retired; in exchange, a key whose slot has gone through enough
/// removals for the counter to wrap can collide with a later occupant.
pub struct SlotMap<T> {
    len: u32,
    arena: GenericSparseArena<T, (), gw32, u32>,
}

/// A reserved place for one value in a [`SlotMap`], created by
/// [`SlotMap::vacant_slot`].
pub struct VacantSlot {
    slot: generic_sparse::VacantSlot<ArenaKey>,
}

impl<T> SlotMap<T> {
    /// The arena behind this slot map.
    pub closed spec fn arena_of(&self) -> GenericSparseArena<T, (), gw32, u32> {
        self.arena
    }

    /// The number of values in the slot map.
    pub open spec fn len_spec(&self) -> int {
        self.arena_of().live_count()
    }

    /// Whether `k` is a live key: in bounds, with a snapshot that matches
    /// its slot's generation.
    pub open spec fn key_live(&self, k: ArenaKey) -> bool {
        self.arena_of().key_live(k)
    }

    /// The value the live key `k` refers to.
    pub open spec fn value_of(&self, k: ArenaKey) -> T
        recommends
            self.key_live(k),
    {
        self.arena_of().value_of(k)
    }

    /// Whether an insertion may proceed: one more slot must be
    /// representable.
    pub open spec fn can_insert(&self) -> bool {
        self.arena_of().can_insert::<ArenaKey>()
    }

    /// The slot map's invariant: the arena is well formed and the counter
    /// holds the number of filled slots.
    pub closed spec fn wf(&self) -> bool {
        &&& self.arena.wf()
        &&& self.len as int == self.arena.live_count()
    }

    /// Create a new, empty [`SlotMap`].
    pub fn new() -> (r: Self)
        ensures
            r.wf(),
            r.len_spec() == 0,
            r.arena_of().slot_count() == 0,
    {
        SlotMap { len: 0, arena: GenericSparseArena::new() }
    }

    /// The number of values in the [`SlotMap`].
    #[inline]
    pub fn len(&self) -> (r: usize)
        requires
            self.wf(),
        ensures
            r as int == self.len_spec(),
    {
        self.len as usize
    }

    /// Returns true when the [`SlotMap`] holds no value.
    #[inline]
    pub fn is_empty(&self) -> (r: bool)
        requires
            self.wf(),
        ensures
            r == (self.len_spec() == 0),
    {
        self.len == 0
    }

    /// Insert a new value and return its key.
    pub fn insert(&mut self, value: T) -> (r: ArenaKey)
        requires
            old(self).wf(),
            old(self).can_insert(),
        ensures
            final(self).wf(),
            GenericSparseArena::inserted(old(self).arena_of(), final(self).arena_of(), r, value),
            final(self).len_spec() == old(self).len_spec() + 1,
    {
        proof {
            self.arena.lemma_wf_facts();
        }
        let r = self.arena.insert(value);
        self.len = self.len + 1;
        r
    }

    /// Insert a value built from its own freshly minted key, and return
    /// that key.
    pub fn insert_with<F: FnOnce(ArenaKey) -> T>(&mut self, value: F) -> (r: ArenaKey)
        requires
            old(self).wf(),
            old(self).can_insert(),
            forall|k: ArenaKey| call_requires(value, (k,)),
        ensures
            final(self).wf(),
            exists|v: T|
                #[trigger] call_ensures(value, (r,), v) && GenericSparseArena::inserted(
                    old(self).arena_of(),
                    final(self).arena_of(),
                    r,
                    v,
                ),
            final(self).len_spec() == old(self).len_spec() + 1,
    {
        proof {
            self.arena.lemma_wf_facts();
        }
        let r = self.arena.insert_with(value);
        self.len = self.len + 1;
        r
    }

    /// Reserve the slot the next insertion will fill, without changing the
    /// slot map.
    pub fn vacant_slot(&mut self) -> (r: VacantSlot)
        requires
            old(self).wf(),
            old(self).can_insert(),
        ensures
            *final(self) == *old(self),
            r.slot_spec().is_vacant_for(old(self).arena_of()),
    {
        VacantSlot { slot: self.arena.vacant_slot() }
    }

    /// Get a reference to the value associated with the key, or `None`
    /// when the key is dead.
    #[inline]
    pub fn get(&self, key: ArenaKey) -> (r: Option<&T>)
        requires
            self.wf(),
        ensures
            match r {
                Some(v) => self.key_live(key) && *v == self.value_of(key),
                None => !self.key_live(key),
            },
    {
        self.arena.get(key)
    }

    /// Get a mutable reference to the value associated with the key, or
    /// `None` when the key is dead.
    ///
    /// [`GenericSparseArena::lemma_value_written`] turns the returned update shape back
    /// into a well-formed state.
    #[inline]
    pub fn get_mut(&mut self, key: ArenaKey) -> (r: Option<&mut T>)
        requires
            old(self).wf(),
        ensures
            old(self).key_live(key) ==> r is Some && *r.unwrap() == old(self).value_of(key)
                && GenericSparseArena::value_written(
                old(self).arena_of(),
                final(self).arena_of(),
                crate::key::ArenaIndex::<(), gw32>::index_spec(key),
                *final(r.unwrap()),
            ),
            !old(self).key_live(key) ==> r is None && *final(self) == *old(self),
    {
        self.arena.get_mut(key)
    }

    /// Try to remove the value associated with the key; `None` when the
    /// key is dead, with no effect.
    #[inline]
    pub fn try_remove(&mut self, key: ArenaKey) -> (r: Option<T>)
        requires
            old(self).wf(),
        ensures
            old(self).key_live(key) ==> r == Some(old(self).value_of(key)) && final(self).wf()
                && GenericSparseArena::removed(
                old(self).arena_of(),
                final(self).arena_of(),
                key,
            ) && final(self).len_spec() == old(self).len_spec() - 1,
            !old(self).key_live(key) ==> r is None && *final(self) == *old(self),
    {
        let r = self.arena.try_remove(key);
        if r.is_some() {
            proof {
                self.arena.lemma_wf_facts();
            }
            self.len = self.len - 1;
        }
        r
    }

    /// Remove the value associated with the key, which must be live.
    #[inline]
    pub fn remove(&mut self, key: ArenaKey) -> (r: T)
        requires
            old(self).wf(),
            old(self).key_live(key),
        ensures
            final(self).wf(),
            r == old(self).value_of(key),
            GenericSparseArena::removed(old(self).arena_of(), final(self).arena_of(), key),
            final(self).len_spec() == old(self).len_spec() - 1,
    {
        let r = self.try_remove(key);
        r.unwrap()
    }

    /// Get a reference to the value associated with the key, which must be
    /// live.
    #[inline]
    pub fn index(&self, key: ArenaKey) -> (r: &T)
        requires
            self.wf(),
            self.key_live(key),
        ensures
            *r == self.value_of(key),
    {
        self.arena.index(key)
    }

    /// Get a mutable reference to the value associated with the key, which
    /// must be live.
    #[inline]
    pub fn index_mut(&mut self, key: ArenaKey) -> (r: &mut T)
        requires
            old(self).wf(),
            old(self).key_live(key),
        ensures
            *r == old(self).value_of(key),
            GenericSparseArena::value_written(
                old(self).arena_of(),
                final(self).arena_of(),
                crate::key::ArenaIndex::<(), gw32>::index_spec(key),
                *final(r),
            ),
    {
        self.arena.index_mut(key)
    }

    /// Get an iterator over references to the values of this slot map.
    pub fn values(&self) -> (r: generic_sparse::Values<'_, T, (), gw32, u32>)
        ensures
            r.arena_spec() == self.arena_of(),
            r.pos_spec() == 0,
    {
        self.arena.values()
    }

    /// Get an iterator over the keys of this slot map.
    pub fn keys(&self) -> (r: generic_sparse::Keys<'_, ArenaKey, T, (), gw32, u32>)
        ensures
            r.arena_spec() == self.arena_of(),
            r.pos_spec() == 0,
    {
        self.arena.keys()
    }

    /// Get an iterator over the keys and references to the values of this
    /// slot map.
    pub fn iter(&self) -> (r: generic_sparse::Iter<'_, ArenaKey, T, (), gw32, u32>)
        ensures
            r.arena_spec() == self.arena_of(),
            r.pos_spec() == 0,
    {
        self.arena.iter()
    }
}

impl VacantSlot {
    /// The sparse reservation behind this one.
    pub closed spec fn slot_spec(&self) -> generic_sparse::VacantSlot<ArenaKey> {
        self.slot
    }

    /// Get the key that will be associated with this slot once it is
    /// filled.
    pub fn key(&self) -> (r: ArenaKey)
        ensures
            r == self.slot_spec().key_spec(),
    {
        self.slot.key()
    }

    /// Insert a value into the reserved slot. The slot map must not have
    /// been changed since the reservation was taken.
    pub fn insert<T>(self, map: &mut SlotMap<T>, value: T)
        requires
            old(map).wf(),
            old(map).can_insert(),
            self.slot_spec().is_vacant_for(old(map).arena_of()),
        ensures
            final(map).wf(),
            GenericSparseArena::inserted(
                old(map).arena_of(),
                final(map).arena_of(),
                self.slot_spec().key_spec(),
                value,
            ),
            final(map).len_spec() == old(map).len_spec() + 1,
    {
        proof {
            map.arena.lemma_wf_facts();
        }
        self.slot.insert(&mut map.arena, value);
        map.len = map.len + 1;
    }
}

/// An iterator over mutable references to the values of a [`SlotMap`],
/// created by [`SlotMap::values_mut`]. The slot map is handed to every
/// [`ValuesMut::next`] call.
pub struct ValuesMut {
    inner: generic_sparse::ValuesMut,
}

/// An iterator over keys and mutable references to the values of a
/// [`SlotMap`], created by [`SlotMap::iter_mut`]. The slot map is handed to
/// every [`IterMut::next`] call.
pub struct IterMut {
    inner: generic_sparse::IterMut,
}

impl ValuesMut {
    /// The next slot this iterator will look at.
    pub open spec fn pos_spec(&self) -> int {
        self.inner_spec().pos_spec()
    }

    /// The arena-level iterator behind this one.
    pub closed spec fn inner_spec(&self) -> generic_sparse::ValuesMut {
        self.inner
    }

    /// A mutable reference to the value of the first filled slot at or
    /// after the cursor, stepping the cursor past it; `None` once no
    /// filled slot is left.
    pub fn next<'a, T>(&mut self, map: &'a mut SlotMap<T>) -> (r: Option<&'a mut T>)
        requires
            old(map).wf(),
        ensures
            ({
                let a = old(map).arena_of();
                let j = a.next_filled_from(old(self).pos_spec());
                match r {
                    Some(v) => j < a.slot_count() && a.is_filled_at(j) && *v == a.value_at(j)
                        && final(self).pos_spec() == j + 1 && GenericSparseArena::value_written(
                        a,
                        final(map).arena_of(),
                        j,
                        *final(v),
                    ),
                    None => j == a.slot_count() && final(self).pos_spec() == a.slot_count()
                        && *final(map) == *old(map),
                }
            }),
    {
        self.inner.next(&mut map.arena)
    }
}

impl IterMut {
    /// The next slot this iterator will look at.
    pub open spec fn pos_spec(&self) -> int {
        self.inner_spec().pos_spec()
    }

    /// The arena-level iterator behind this one.
    pub closed spec fn inner_spec(&self) -> generic_sparse::IterMut {
        self.inner
    }

    /// The key and a mutable reference to the value of the first filled
    /// slot at or after the cursor, stepping the cursor past it; `None`
    /// once no filled slot is left.
    pub fn next<'a, T>(&mut self, map: &'a mut SlotMap<T>) -> (r: Option<(ArenaKey, &'a mut T)>)
        requires
            old(map).wf(),
        ensures
            ({
                let a = old(map).arena_of();
                let j = a.next_filled_from(old(self).pos_spec());
                match r {
                    Some(kv) => j < a.slot_count() && a.is_filled_at(j)
                        && crate::key::ArenaIndex::<(), gw32>::index_spec(kv.0) == j && a.key_live(
                        kv.0,
                    ) && *kv.1 == a.value_at(j) && final(self).pos_spec() == j + 1
                        && GenericSparseArena::value_written(
                        a,
                        final(map).arena_of(),
                        j,
                        *final(kv.1),
                    ),
                    None => j == a.slot_count() && final(self).pos_spec() == a.slot_count()
                        && *final(map) == *old(map),
                }
            }),
    {
        proof {
            map.arena.lemma_wf_facts();
        }
        self.inner.next(&mut map.arena)
    }
}

impl<T> SlotMap<T> {
    /// Get an iterator over mutable references to the values of this slot
    /// map; this slot map is handed to each of its steps.
    pub fn values_mut(&mut self) -> (r: ValuesMut)
        ensures
            *final(self) == *old(self),
            r.pos_spec() == 0,
    {
        ValuesMut { inner: self.arena.values_mut() }
    }

    /// Get an iterator over keys and mutable references to the values of
    /// this slot map; this slot map is handed to each of its steps.
    pub fn iter_mut(&mut self) -> (r: IterMut)
        ensures
            *final(self) == *old(self),
            r.pos_spec() == 0,
    {
        IterMut { inner: self.arena.iter_mut() }
    }
}

} // verus!
