//! A dense arena: packed values with generation-checked keys.
//!
//! see [`GenericDenseArena`] for details

use vstd::prelude::*;

use crate::dense_tracker;
use crate::dense_tracker::GenericDenseTracker;
use crate::generation::Generation;
use crate::internal_index::InternalIndex;
use crate::key::ArenaIndex;
use crate::key::ArenaKey;
use crate::key::lemma_key_exists;

verus! {

/// A [`GenericDenseArena`] pairs a [`GenericDenseTracker`] with a flat
/// value array kept in lockstep: the array always holds exactly the live
/// values, and `array[tracker.at(key)]` is the value of `key`.
///
/// Access pays one more indirection than in a sparse arena, but iteration
/// touches live values only, because removal compacts the array by a
/// swap-removal whose bookkeeping the tracker does.
pub struct GenericDenseArena<T, O = (), G = crate::generation::DefaultGeneration, I = usize> where G: Generation, I: InternalIndex {
    values: Vec<T>,
    tracker: GenericDenseTracker<O, G, I>,
}

impl<T, O, G: Generation, I: InternalIndex> GenericDenseArena<T, O, G, I> {
    /// The tracker translating keys to positions.
    pub closed spec fn tracker_of(&self) -> GenericDenseTracker<O, G, I> {
        self.tracker
    }

    /// The packed values, in position order.
    pub closed spec fn values_seq(&self) -> Seq<T> {
        self.values@
    }

    /// The number of live values.
    pub open spec fn len_spec(&self) -> int {
        self.values_seq().len() as int
    }

    /// Whether `k` is a live key of this arena.
    pub open spec fn key_live<K: ArenaIndex<O, G>>(&self, k: K) -> bool {
        self.tracker_of().key_live(k)
    }

    /// The position of the live key `k` in the value array.
    pub open spec fn position_of<K: ArenaIndex<O, G>>(&self, k: K) -> int
        recommends
            self.key_live(k),
    {
        self.tracker_of().position_of(k)
    }

    /// The value the live key `k` refers to.
    pub open spec fn value_of<K: ArenaIndex<O, G>>(&self, k: K) -> T
        recommends
            self.key_live(k),
    {
        self.values_seq()[self.position_of(k)]
    }

    /// Whether an insertion with keys of type `K` may proceed.
    pub open spec fn can_insert<K: ArenaIndex<O, G>>(&self) -> bool {
        self.tracker_of().can_insert::<K>()
    }

    /// The owner value this arena was created with.
    pub open spec fn owner_of(&self) -> O {
        self.tracker_of().owner_of()
    }

    /// The arena's invariant: the tracker is well formed and the value
    /// array has exactly one entry per live key.
    pub open spec fn wf(&self) -> bool {
        &&& self.tracker_of().wf()
        &&& self.len_spec() == self.tracker_of().len_spec()
    }

    /// How an insertion changes the arena: the value is appended at the
    /// position the minted key maps to; nothing else moves.
    pub open spec fn inserted<K: ArenaIndex<O, G>>(pre: Self, post: Self, k: K, v: T) -> bool {
        &&& post.wf()
        &&& GenericDenseTracker::inserted(pre.tracker_of(), post.tracker_of(), k, pre.len_spec())
        &&& post.values_seq() == pre.values_seq().push(v)
        &&& !pre.key_live(k)
        &&& post.key_live(k)
        &&& post.position_of(k) == pre.len_spec()
        &&& post.value_of(k) == v
    }

    /// How a removal through the live key `k` changes the arena: the
    /// key's value is swap-removed, so the last value moves to the vacated
    /// position and the tracker redirects its key there.
    pub open spec fn removed<K: ArenaIndex<O, G>>(pre: Self, post: Self, k: K) -> bool {
        let p = pre.position_of(k);
        &&& post.wf()
        &&& GenericDenseTracker::removed(pre.tracker_of(), post.tracker_of(), k)
        &&& post.values_seq() == pre.values_seq().update(p, pre.values_seq().last()).drop_last()
    }

    /// The direct shape of a value update at position `p`: only that entry
    /// of the value array moves.
    pub open spec fn value_written(pre: Self, post: Self, p: int, v: T) -> bool {
        &&& post.values_seq() == pre.values_seq().update(p, v)
        &&& post.tracker_of() == pre.tracker_of()
    }

    /// Writing a value at a position of a well-formed arena keeps it well
    /// formed and moves no other value.
    pub proof fn lemma_value_written(pre: Self, post: Self, p: int, v: T)
        requires
            pre.wf(),
            0 <= p < pre.len_spec(),
            Self::value_written(pre, post, p, v),
        ensures
            post.wf(),
            post.len_spec() == pre.len_spec(),
            post.values_seq()[p] == v,
            forall|q: int|
                0 <= q < pre.len_spec() && q != p ==> #[trigger] post.values_seq()[q]
                    == pre.values_seq()[q],
    {
    }

    /// Every key live before an insertion stays live, keeps its position
    /// and keeps its value: the new value is appended past every existing
    /// position.
    pub proof fn lemma_inserted_preserves_other_keys<K: ArenaIndex<O, G>, K2: ArenaIndex<O, G>>(
        pre: Self,
        post: Self,
        k: K,
        v: T,
        k2: K2,
    )
        requires
            pre.wf(),
            Self::inserted(pre, post, k, v),
            pre.key_live(k2),
        ensures
            post.key_live(k2),
            post.position_of(k2) == pre.position_of(k2),
            post.value_of(k2) == pre.value_of(k2),
    {
        let t = pre.tracker_of();
        let t2 = post.tracker_of();
        let i = t.forward().next_index();
        let j = k2.index_spec();
        t.forward().lemma_wf_facts();
        k2.lemma_key_matches_filled(t.forward().gen_at(j));
        assert(t.slot_filled(j));
        if j == i {
            assert(!t.forward().is_filled_at(i));
        }
        assert(t2.forward().gen_at(j) == t.forward().gen_at(j));
        assert(t2.forward().value_at(j) == t.forward().value_at(j));
        assert(0 <= t.slot_pos(j) < t.len_spec());
        assert(post.values_seq()[t.slot_pos(j)] == pre.values_seq()[t.slot_pos(j)]);
    }

    /// Every key live before a removal, other than the removed one, stays
    /// live and keeps its value: the swap-removal of the value array and
    /// the tracker's redirection cancel out.
    pub proof fn lemma_removed_preserves_other_keys<K: ArenaIndex<O, G>>(
        pre: Self,
        post: Self,
        k: K,
        k2: K,
    )
        requires
            pre.wf(),
            Self::removed(pre, post, k),
            pre.key_live(k),
            pre.key_live(k2),
            k2.index_spec() != k.index_spec(),
        ensures
            post.key_live(k2),
            post.value_of(k2) == pre.value_of(k2),
    {
        let t = pre.tracker_of();
        let t2 = post.tracker_of();
        let s = k.index_spec();
        let s2 = k2.index_spec();
        let p = t.position_of(k);
        let q = t.position_of(k2);
        let last = t.len_spec() - 1;
        k2.lemma_key_matches_filled(t.forward().gen_at(s2));
        k.lemma_key_matches_filled(t.forward().gen_at(s));
        t.forward().lemma_wf_facts();
        assert(t.slot_filled(s2));
        assert(t.slot_filled(s));
        assert(t.pos_slot(q) == s2);
        assert(t.pos_slot(p) == s);
        assert(t2.forward().gen_at(s2) == t.forward().gen_at(s2));
        assert(post.key_live(k2));
        assert(t2.slot_pos(s2) == if q == last {
            p
        } else {
            q
        });
        if q == last {
            if p == last {
                assert(s == s2);
                assert(false);
            }
            assert(post.values_seq()[p] == pre.values_seq()[last]);
        } else {
            if q == p {
                assert(s == s2);
                assert(false);
            }
            assert(post.values_seq()[q] == pre.values_seq()[q]);
        }
    }
}

impl<T, O, G: Generation, I: InternalIndex> GenericDenseArena<T, O, G, I> {
    /// Two distinct live keys occupy different slots and different
    /// positions, so the values they reach never alias.
    pub proof fn lemma_live_keys_distinct<K: ArenaIndex<O, G>>(&self, k1: K, k2: K)
        requires
            self.wf(),
            self.key_live(k1),
            self.key_live(k2),
            k1 != k2,
        ensures
            k1.index_spec() != k2.index_spec(),
            self.position_of(k1) != self.position_of(k2),
    {
        let t = self.tracker_of();
        let s1 = k1.index_spec();
        let s2 = k2.index_spec();
        if s1 == s2 {
            k1.lemma_key_matches_unique(k2, t.forward().gen_at(s1));
        }
        k1.lemma_key_matches_filled(t.forward().gen_at(s1));
        k2.lemma_key_matches_filled(t.forward().gen_at(s2));
        t.forward().lemma_wf_facts();
        assert(t.slot_filled(s1));
        assert(t.slot_filled(s2));
        if t.slot_pos(s1) == t.slot_pos(s2) {
            assert(t.pos_slot(t.slot_pos(s1)) == s1);
            assert(t.pos_slot(t.slot_pos(s2)) == s2);
        }
    }

    /// The value array lists exactly the live keys' values: it has one
    /// entry per live key, and every position belongs to some live key,
    /// whose value is what sits there.
    pub proof fn lemma_position_has_key(&self, p: int)
        requires
            self.wf(),
            0 <= p < self.len_spec(),
        ensures
            self.values_seq().len() == self.tracker_of().len_spec(),
            exists|k: ArenaKey<usize, G>|
                #![trigger k.index_of()]
                self.key_live(k) && self.position_of(k) == p && self.values_seq()[p]
                    == self.value_of(k),
    {
        let t = self.tracker_of();
        t.forward().lemma_wf_facts();
        let s = t.pos_slot(p);
        assert(t.slot_filled(s));
        let g = t.forward().gen_at(s);
        assert(g.filled_spec());
        assert(0 <= s < t.forward().slot_count());
        assert(t.forward().slot_count() <= usize::MAX as int);
        let su = s as usize;
        lemma_key_exists::<O, G>(su, g);
        let k = choose|k: ArenaKey<usize, G>|
            #![trigger k.index_of()]
            k.index_of() == su && <ArenaKey<usize, G> as ArenaIndex<O, G>>::key_matches(k, g)
                && <ArenaKey<usize, G> as ArenaIndex<O, G>>::index_spec(k) == su as int;
        assert(su as int == s);
        assert(self.key_live(k));
        assert(self.position_of(k) == p);
        assert(self.values_seq()[p] == self.value_of(k));
        assert(k.index_of() == su);
    }
}

impl<T, G: Generation, I: InternalIndex> GenericDenseArena<T, (), G, I> {
    /// Create a new, empty [`GenericDenseArena`].
    pub fn new() -> (r: Self)
        ensures
            r.wf(),
            r.len_spec() == 0,
            r.tracker_of().slot_count() == 0,
    {
        GenericDenseArena { values: Vec::new(), tracker: GenericDenseTracker::new() }
    }
}

impl<T, O, G: Generation, I: InternalIndex> GenericDenseArena<T, O, G, I> {
    /// Create a new, empty [`GenericDenseArena`] that carries `owner`.
    pub fn with_owner(owner: O) -> (r: Self)
        ensures
            r.wf(),
            r.len_spec() == 0,
            r.tracker_of().slot_count() == 0,
            r.owner_of() == owner,
    {
        GenericDenseArena { values: Vec::new(), tracker: GenericDenseTracker::with_owner(owner) }
    }

    /// Get the owner of this arena's keys.
    pub fn owner(&self) -> (r: &O)
        ensures
            *r == self.owner_of(),
    {
        self.tracker.owner()
    }
}

/// A reserved place for one value in a [`GenericDenseArena`], created by
/// [`GenericDenseArena::vacant_slot`]. It hands out the key the coming
/// insertion will be accounted under before the value has to exist.
pub struct VacantSlot<K> {
    slot: dense_tracker::VacantSlot<K>,
}

impl<K> VacantSlot<K> {
    /// The tracker reservation behind this one.
    pub closed spec fn slot_spec(&self) -> dense_tracker::VacantSlot<K> {
        self.slot
    }

    /// The key an insertion through this reservation is accounted under.
    pub open spec fn key_spec(&self) -> K {
        self.slot_spec().key_spec()
    }

    /// Whether this reservation was taken from `a` in its current state.
    pub open spec fn is_vacant_for<T, O, G: Generation, I: InternalIndex>(
        &self,
        a: GenericDenseArena<T, O, G, I>,
    ) -> bool where K: ArenaIndex<O, G> {
        self.slot_spec().is_vacant_for(a.tracker_of())
    }
}

impl<K: Copy> VacantSlot<K> {
    /// Get the key that will be associated with this slot once it is
    /// filled.
    pub fn key(&self) -> (r: K)
        ensures
            r == self.key_spec(),
    {
        self.slot.key()
    }
}

impl<K> VacantSlot<K> {
    /// Insert a value into the reserved slot. The arena must not have been
    /// changed since the reservation was taken.
    pub fn insert<T, O, G: Generation, I: InternalIndex>(
        self,
        arena: &mut GenericDenseArena<T, O, G, I>,
        value: T,
    ) where K: ArenaIndex<O, G>
        requires
            old(arena).wf(),
            old(arena).can_insert::<K>(),
            self.is_vacant_for(*old(arena)),
        ensures
            GenericDenseArena::inserted(*old(arena), *final(arena), self.key_spec(), value),
    {
        let ghost pre = *old(arena);
        arena.values.push(value);
        self.slot.insert(&mut arena.tracker);
        proof {
            let post = *arena;
            let k = self.key_spec();
            assert(GenericDenseTracker::inserted(
                pre.tracker_of(),
                post.tracker_of(),
                k,
                pre.len_spec(),
            ));
            assert(post.values_seq() == pre.values_seq().push(value));
            assert(post.value_of(k) == value);
        }
    }
}

impl<T, O, G: Generation, I: InternalIndex> GenericDenseArena<T, O, G, I> {
    /// Reserve the key and position the next insertion will use, without
    /// changing the arena.
    pub fn vacant_slot<K: ArenaIndex<O, G>>(&mut self) -> (r: VacantSlot<K>)
        requires
            old(self).wf(),
            old(self).can_insert::<K>(),
        ensures
            *final(self) == *old(self),
            r.is_vacant_for(*old(self)),
    {
        let len = self.values.len();
        let slot = self.tracker.vacant_slot(len);
        VacantSlot { slot }
    }

    /// Insert a new value and return its key.
    pub fn insert<K: ArenaIndex<O, G>>(&mut self, value: T) -> (r: K)
        requires
            old(self).wf(),
            old(self).can_insert::<K>(),
        ensures
            Self::inserted(*old(self), *final(self), r, value),
    {
        let slot: VacantSlot<K> = self.vacant_slot();
        let key = slot.key();
        slot.insert(self, value);
        key
    }

    /// Insert a value built from its own freshly minted key, and return
    /// that key.
    pub fn insert_with<K: ArenaIndex<O, G>, F: FnOnce(K) -> T>(&mut self, value: F) -> (r: K)
        requires
            old(self).wf(),
            old(self).can_insert::<K>(),
            forall|k: K| call_requires(value, (k,)),
        ensures
            exists|v: T|
                #[trigger] call_ensures(value, (r,), v) && Self::inserted(
                    *old(self),
                    *final(self),
                    r,
                    v,
                ),
    {
        let slot: VacantSlot<K> = self.vacant_slot();
        let key = slot.key();
        let v = value(key);
        slot.insert(self, v);
        key
    }

    /// Get a reference to the value associated with the key.
    ///
    /// Returns `None` exactly when the key is dead.
    #[inline]
    pub fn get<K: ArenaIndex<O, G>>(&self, key: K) -> (r: Option<&T>)
        requires
            self.wf(),
        ensures
            match r {
                Some(v) => self.key_live(key) && *v == self.value_of(key),
                None => !self.key_live(key),
            },
    {
        match self.tracker.get(key) {
            Some(p) => Some(&self.values[p]),
            None => None,
        }
    }

    /// Get a mutable reference to the value associated with the key.
    ///
    /// Returns `None` exactly when the key is dead, leaving the arena
    /// unchanged; otherwise the only change to the arena is what the
    /// caller writes through the returned reference, and
    /// [`Self::lemma_value_written`] recovers well-formedness from that shape.
    #[inline]
    pub fn get_mut<K: ArenaIndex<O, G>>(&mut self, key: K) -> (r: Option<&mut T>)
        requires
            old(self).wf(),
        ensures
            old(self).key_live(key) ==> r is Some && *r.unwrap() == old(self).value_of(key)
                && Self::value_written(
                *old(self),
                *final(self),
                old(self).position_of(key),
                *final(r.unwrap()),
            ),
            !old(self).key_live(key) ==> r is None && *final(self) == *old(self),
    {
        let p = match self.tracker.get(key) {
            Some(p) => p,
            None => {
                return None;
            },
        };
        Some(&mut self.values[p])
    }

    /// Try to remove the value associated with the key.
    ///
    /// Returns `None` and changes nothing exactly when the key is dead; a
    /// stale key can be presented any number of times without any effect.
    #[inline]
    pub fn try_remove<K: ArenaIndex<O, G>>(&mut self, key: K) -> (r: Option<T>)
        requires
            old(self).wf(),
        ensures
            old(self).key_live(key) ==> r == Some(old(self).value_of(key)) && Self::removed(
                *old(self),
                *final(self),
                key,
            ),
            !old(self).key_live(key) ==> r is None && *final(self) == *old(self),
    {
        let p = match self.tracker.try_remove(key) {
            Some(p) => p,
            None => {
                return None;
            },
        };
        let v = self.values.swap_remove(p);
        Some(v)
    }

    /// Remove the value associated with the key, which must be live.
    #[inline]
    pub fn remove<K: ArenaIndex<O, G>>(&mut self, key: K) -> (r: T)
        requires
            old(self).wf(),
            old(self).key_live(key),
        ensures
            r == old(self).value_of(key),
            Self::removed(*old(self), *final(self), key),
    {
        let r = self.try_remove(key);
        r.unwrap()
    }

    /// Get a reference to the value associated with the key, which must be
    /// live.
    #[inline]
    pub fn index<K: ArenaIndex<O, G>>(&self, key: K) -> (r: &T)
        requires
            self.wf(),
            self.key_live(key),
        ensures
            *r == self.value_of(key),
    {
        let p = self.tracker.at(key);
        &self.values[p]
    }

    /// Get a mutable reference to the value associated with the key, which
    /// must be live.
    #[inline]
    pub fn index_mut<K: ArenaIndex<O, G>>(&mut self, key: K) -> (r: &mut T)
        requires
            old(self).wf(),
            old(self).key_live(key),
        ensures
            *r == old(self).value_of(key),
            Self::value_written(
                *old(self),
                *final(self),
                old(self).position_of(key),
                *final(r),
            ),
    {
        let p = self.tracker.at(key);
        &mut self.values[p]
    }

    /// The packed slice of live values.
    #[inline]
    pub fn values(&self) -> (r: &[T])
        ensures
            r@ == self.values_seq(),
    {
        self.values.as_slice()
    }

    /// The packed mutable slice of live values. Writing through it moves
    /// values, never keys: every key keeps its position.
    #[inline]
    pub fn values_mut(&mut self) -> (r: &mut [T])
        ensures
            r@ == old(self).values_seq(),
            final(self).values_seq() == final(r)@,
            final(self).tracker_of() == old(self).tracker_of(),
            final(r)@.len() == old(self).len_spec() && old(self).wf() ==> final(self).wf(),
    {
        self.values.as_mut_slice()
    }

    /// The tracker this arena translates keys with.
    #[inline]
    pub fn tracker(&self) -> (r: &GenericDenseTracker<O, G, I>)
        ensures
            *r == self.tracker_of(),
    {
        &self.tracker
    }

    /// The mutable slice of values together with the tracker, for callers
    /// that need to look keys up while holding the slice.
    #[inline]
    pub fn values_mut_and_tracker(&mut self) -> (r: (&mut [T], &GenericDenseTracker<O, G, I>))
        ensures
            r.0@ == old(self).values_seq(),
            final(self).values_seq() == final(r.0)@,
            *r.1 == old(self).tracker_of(),
            final(self).tracker_of() == old(self).tracker_of(),
            final(r.0)@.len() == old(self).len_spec() && old(self).wf() ==> final(self).wf(),
    {
        (self.values.as_mut_slice(), &self.tracker)
    }
}

} // verus!
