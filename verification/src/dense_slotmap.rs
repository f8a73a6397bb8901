//! A dense arena addressed by plain `usize` keys over 32-bit wrapping
//! generations, whose key iterator yields generation-checked keys.
//!
//! see [`DenseSlotMap`] for details

use vstd::prelude::*;

use crate::dense_tracker;
use crate::generation::gw32;
use crate::generic_dense;
use crate::generic_dense::GenericDenseArena;

verus! {

/// The key type [`DenseSlotMap::keys`] yields.
pub type ArenaKey = crate::key::ArenaKey<u32, gw32>;

/// A [`DenseSlotMap`] is a [`GenericDenseArena`] fixed to 32-bit wrapping
/// generations and 32-bit slot metadata: packed values and fast
/// iteration. Its plain methods take `usize` keys; the generation-checked
/// [`ArenaKey`] from [`DenseSlotMap::keys`] works on the generic arena in
/// the `arena` field.
pub struct DenseSlotMap<T> {
    /// The underlying generic arena type.
    pub arena: GenericDenseArena<T, (), gw32, u32>,
}

/// A reserved place for one value in a [`DenseSlotMap`], created by
/// [`DenseSlotMap::vacant_slot`].
pub struct VacantSlot {
    /// The underlying generic reservation type.
    pub slot: generic_dense::VacantSlot<usize>,
}

/// An iterator over the keys of a [`DenseSlotMap`], in value order.
pub struct Keys<'a> {
    keys: dense_tracker::Keys<'a, ArenaKey, (), gw32, u32>,
}

impl<T> DenseSlotMap<T> {
    /// The number of values in the slot map.
    pub open spec fn len_spec(&self) -> int {
        self.arena.len_spec()
    }

    /// Whether `k` is a live key: naming a filled slot.
    pub open spec fn key_live(&self, k: usize) -> bool {
        self.arena.key_live(k)
    }

    /// The value the live key `k` refers to.
    pub open spec fn value_of(&self, k: usize) -> T
        recommends
            self.key_live(k),
    {
        self.arena.value_of(k)
    }

    /// Whether an insertion may proceed.
    pub open spec fn can_insert(&self) -> bool {
        self.arena.can_insert::<usize>()
    }

    /// The slot map's invariant.
    pub open spec fn wf(&self) -> bool {
        self.arena.wf()
    }

    /// Create a new, empty [`DenseSlotMap`].
    pub fn new() -> (r: Self)
        ensures
            r.wf(),
            r.len_spec() == 0,
            r.arena.tracker_of().slot_count() == 0,
    {
        DenseSlotMap { arena: GenericDenseArena::new() }
    }

    /// The number of values in the [`DenseSlotMap`].
    #[inline]
    pub fn len(&self) -> (r: usize)
        requires
            self.wf(),
        ensures
            r as int == self.len_spec(),
    {
        self.arena.tracker().len()
    }

    /// Returns true when the [`DenseSlotMap`] holds no value.
    #[inline]
    pub fn is_empty(&self) -> (r: bool)
        requires
            self.wf(),
        ensures
            r == (self.len_spec() == 0),
    {
        self.arena.tracker().is_empty()
    }

    /// Insert a new value and return its key.
    pub fn insert(&mut self, value: T) -> (r: usize)
        requires
            old(self).wf(),
            old(self).can_insert(),
        ensures
            final(self).wf(),
            GenericDenseArena::inserted(old(self).arena, final(self).arena, r, value),
            final(self).len_spec() == old(self).len_spec() + 1,
    {
        self.arena.insert(value)
    }

    /// Insert a value built from its own freshly minted key, and return
    /// that key.
    pub fn insert_with<F: FnOnce(usize) -> T>(&mut self, value: F) -> (r: usize)
        requires
            old(self).wf(),
            old(self).can_insert(),
            forall|k: usize| call_requires(value, (k,)),
        ensures
            final(self).wf(),
            exists|v: T|
                #[trigger] call_ensures(value, (r,), v) && GenericDenseArena::inserted(
                    old(self).arena,
                    final(self).arena,
                    r,
                    v,
                ),
    {
        self.arena.insert_with(value)
    }

    /// Reserve the slot the next insertion will fill, without changing the
    /// slot map.
    pub fn vacant_slot(&mut self) -> (r: VacantSlot)
        requires
            old(self).wf(),
            old(self).can_insert(),
        ensures
            *final(self) == *old(self),
            r.slot.is_vacant_for(old(self).arena),
    {
        VacantSlot { slot: self.arena.vacant_slot() }
    }

    /// Get a reference to the value associated with the key, or `None`
    /// when the key is dead.
    #[inline]
    pub fn get(&self, key: usize) -> (r: Option<&T>)
        requires
            self.wf(),
        ensures
            match r {
                Some(v) => self.key_live(key) && *v == self.value_of(key),
                None => !self.key_live(key),
            },
    {
        self.arena.get(key)
    }

    /// Get a mutable reference to the value associated with the key, or
    /// `None` when the key is dead.
    ///
    /// [`GenericDenseArena::lemma_value_written`] turns the returned update shape back
    /// into a well-formed state.
    #[inline]
    pub fn get_mut(&mut self, key: usize) -> (r: Option<&mut T>)
        requires
            old(self).wf(),
        ensures
            old(self).key_live(key) ==> r is Some && *r.unwrap() == old(self).value_of(key)
                && GenericDenseArena::value_written(
                old(self).arena,
                final(self).arena,
                old(self).arena.position_of(key),
                *final(r.unwrap()),
            ),
            !old(self).key_live(key) ==> r is None && *final(self) == *old(self),
    {
        self.arena.get_mut(key)
    }

    /// Try to remove the value associated with the key; `None` when the
    /// key is dead, with no effect.
    #[inline]
    pub fn try_remove(&mut self, key: usize) -> (r: Option<T>)
        requires
            old(self).wf(),
        ensures
            old(self).key_live(key) ==> r == Some(old(self).value_of(key))
                && GenericDenseArena::removed(old(self).arena, final(self).arena, key),
            !old(self).key_live(key) ==> r is None && *final(self) == *old(self),
    {
        self.arena.try_remove(key)
    }

    /// Remove the value associated with the key, which must be live.
    #[inline]
    pub fn remove(&mut self, key: usize) -> (r: T)
        requires
            old(self).wf(),
            old(self).key_live(key),
        ensures
            r == old(self).value_of(key),
            GenericDenseArena::removed(old(self).arena, final(self).arena, key),
    {
        self.arena.remove(key)
    }

    /// Get a reference to the value associated with the key, which must be
    /// live.
    #[inline]
    pub fn index(&self, key: usize) -> (r: &T)
        requires
            self.wf(),
            self.key_live(key),
        ensures
            *r == self.value_of(key),
    {
        self.arena.index(key)
    }

    /// Get a mutable reference to the value associated with the key, which
    /// must be live.
    #[inline]
    pub fn index_mut(&mut self, key: usize) -> (r: &mut T)
        requires
            old(self).wf(),
            old(self).key_live(key),
        ensures
            *r == old(self).value_of(key),
            GenericDenseArena::value_written(
                old(self).arena,
                final(self).arena,
                old(self).arena.position_of(key),
                *final(r),
            ),
    {
        self.arena.index_mut(key)
    }

    /// The packed slice of live values.
    #[inline]
    pub fn values(&self) -> (r: &[T])
        ensures
            r@ == self.arena.values_seq(),
    {
        self.arena.values()
    }

    /// The packed mutable slice of live values.
    #[inline]
    pub fn values_mut(&mut self) -> (r: &mut [T])
        ensures
            r@ == old(self).arena.values_seq(),
            final(self).arena.values_seq() == final(r)@,
            final(self).arena.tracker_of() == old(self).arena.tracker_of(),
            final(r)@.len() == old(self).len_spec() && old(self).wf() ==> final(self).wf(),
    {
        self.arena.values_mut()
    }

    /// Get an iterator over all the keys in the slot map, in value order.
    pub fn keys(&self) -> (r: Keys<'_>)
        ensures
            r.tracker_spec() == self.arena.tracker_of(),
            r.pos_spec() == 0,
    {
        Keys { keys: self.arena.tracker().keys() }
    }

    /// The iterator over all the keys together with the mutable slice of
    /// values, for callers that need both at once.
    pub fn keys_and_values_mut(&mut self) -> (r: (Keys<'_>, &mut [T]))
        ensures
            r.0.tracker_spec() == old(self).arena.tracker_of(),
            r.0.pos_spec() == 0,
            r.1@ == old(self).arena.values_seq(),
            final(self).arena.values_seq() == final(r.1)@,
            final(self).arena.tracker_of() == old(self).arena.tracker_of(),
            final(r.1)@.len() == old(self).len_spec() && old(self).wf() ==> final(self).wf(),
    {
        let (values, tracker) = self.arena.values_mut_and_tracker();
        (Keys { keys: tracker.keys() }, values)
    }
}

impl VacantSlot {
    /// Get the key that will be associated with this slot once it is
    /// filled.
    pub fn key(&self) -> (r: usize)
        ensures
            r == self.slot.key_spec(),
    {
        self.slot.key()
    }

    /// Insert a value into the reserved slot. The slot map must not have
    /// been changed since the reservation was taken.
    pub fn insert<T>(self, map: &mut DenseSlotMap<T>, value: T)
        requires
            old(map).wf(),
            old(map).can_insert(),
            self.slot.is_vacant_for(old(map).arena),
        ensures
            final(map).wf(),
            GenericDenseArena::inserted(
                old(map).arena,
                final(map).arena,
                self.slot.key_spec(),
                value,
            ),
    {
        self.slot.insert(&mut map.arena, value);
    }
}

impl<'a> Keys<'a> {
    /// The tracker this iterator walks.
    pub open spec fn tracker_spec(&self) -> dense_tracker::GenericDenseTracker<(), gw32, u32> {
        self.keys_spec().tracker_spec()
    }

    /// The tracker iterator behind this one.
    pub closed spec fn keys_spec(&self) -> dense_tracker::Keys<'a, ArenaKey, (), gw32, u32> {
        self.keys
    }

    /// The next position this iterator will yield the key of.
    pub open spec fn pos_spec(&self) -> int {
        self.keys_spec().pos_spec()
    }

    /// The key of the next position, stepping past it; `None` once every
    /// position has been yielded.
    pub fn next(&mut self) -> (r: Option<ArenaKey>)
        requires
            old(self).tracker_spec().wf(),
            old(self).tracker_spec().slot_count() <= u32::MAX as int,
        ensures
            final(self).tracker_spec() == old(self).tracker_spec(),
            ({
                let t = old(self).tracker_spec();
                let p = old(self).pos_spec();
                if p < t.len_spec() {
                    &&& r is Some
                    &&& t.key_live(r.unwrap())
                    &&& t.position_of(r.unwrap()) == p
                    &&& final(self).pos_spec() == p + 1
                } else {
                    &&& r is None
                    &&& final(self).pos_spec() == p
                }
            }),
    {
        proof {
            old(self).tracker_spec().forward().lemma_wf_facts();
        }
        self.keys.next()
    }
}

} // verus!
