//! The position-tracking half of a dense arena.
//!
//! A [`GenericDenseTracker`] pairs a sparse arena used as a forward map
//! (key to position in some caller-owned array) with a reverse table
//! (position to forward-map slot). It should be kept in lockstep with that
//! array: every [`VacantSlot::insert`] goes with a push, and every
//! successful removal with a swap-removal at the returned position. The
//! tracker then guarantees that every position it hands out is in bounds,
//! which is what [`crate::generic_dense::GenericDenseArena`] builds on.

use vstd::prelude::*;

use crate::generation::Generation;
use crate::generic_sparse;
use crate::generic_sparse::GenericSparseArena;
use crate::internal_index::InternalIndex;
use crate::key::ArenaIndex;

verus! {

/// A dense tracker keeps track of which keys point to which positions.
///
/// Its invariant is a bijection: the reverse table and the filled slots of
/// the forward map list each other exactly, so a swap-removal only has to
/// patch the single entry whose position moved.
pub struct GenericDenseTracker<O = (), G = crate::generation::DefaultGeneration, I = usize> where G: Generation, I: InternalIndex {
    keys: Vec<I>,
    index: GenericSparseArena<I, O, G, I>,
}

impl<O, G: Generation, I: InternalIndex> GenericDenseTracker<O, G, I> {
    /// The forward map: a sparse arena whose values are positions.
    pub closed spec fn forward(&self) -> GenericSparseArena<I, O, G, I> {
        self.index
    }

    /// The reverse table: for each position, the forward-map slot of the
    /// key that owns it.
    pub closed spec fn rev_seq(&self) -> Seq<int> {
        self.keys@.map_values(|v: I| v.as_int())
    }

    /// The number of live keys, which is the length the associated array
    /// must have.
    pub open spec fn len_spec(&self) -> int {
        self.rev_seq().len() as int
    }

    /// The number of slots of the forward map.
    pub open spec fn slot_count(&self) -> int {
        self.forward().slot_count()
    }

    /// Whether the forward-map slot `s` belongs to a live key.
    pub open spec fn slot_filled(&self, s: int) -> bool {
        self.forward().is_filled_at(s)
    }

    /// The position the forward-map slot `s` stores.
    pub open spec fn slot_pos(&self, s: int) -> int
        recommends
            self.slot_filled(s),
    {
        self.forward().value_at(s).as_int()
    }

    /// The forward-map slot recorded for position `p`.
    pub open spec fn pos_slot(&self, p: int) -> int
        recommends
            0 <= p < self.len_spec(),
    {
        self.rev_seq()[p]
    }

    /// Whether `k` is a live key of this tracker.
    pub open spec fn key_live<K: ArenaIndex<O, G>>(&self, k: K) -> bool {
        self.forward().key_live(k)
    }

    /// The position the live key `k` maps to.
    pub open spec fn position_of<K: ArenaIndex<O, G>>(&self, k: K) -> int
        recommends
            self.key_live(k),
    {
        self.slot_pos(k.index_spec())
    }

    /// Whether an insertion with keys of type `K` may proceed.
    pub open spec fn can_insert<K: ArenaIndex<O, G>>(&self) -> bool {
        &&& self.forward().can_insert::<K>()
        &&& self.len_spec() < I::max_value()
        &&& self.len_spec() < usize::MAX as int
    }

    /// The owner value this tracker was created with.
    pub open spec fn owner_of(&self) -> O {
        self.forward().owner_of()
    }

    /// The tracker's invariant: the forward map is well formed, and its
    /// filled slots and the reverse table form a bijection.
    pub open spec fn wf(&self) -> bool {
        &&& self.forward().wf()
        &&& self.len_spec() <= I::max_value()
        &&& self.len_spec() <= usize::MAX as int
        &&& forall|p: int|
            0 <= p < self.len_spec() ==> 0 <= #[trigger] self.pos_slot(p) < self.slot_count()
                && self.slot_filled(self.pos_slot(p)) && self.slot_pos(self.pos_slot(p)) == p
        &&& forall|s: int|
            0 <= s < self.slot_count() && #[trigger] self.slot_filled(s) ==> 0 <= self.slot_pos(s)
                < self.len_spec() && self.pos_slot(self.slot_pos(s)) == s
    }

    /// How an insertion changes the tracker: the minted key `k` becomes
    /// live at position `p`, which is the old length; the reverse table
    /// grows by `k`'s slot; nothing else moves.
    pub open spec fn inserted<K: ArenaIndex<O, G>>(pre: Self, post: Self, k: K, p: int) -> bool {
        &&& post.wf()
        &&& p == pre.len_spec()
        &&& GenericSparseArena::inserted(
            pre.forward(),
            post.forward(),
            k,
            post.forward().value_at(k.index_spec()),
        )
        &&& post.slot_pos(k.index_spec()) == p
        &&& post.rev_seq() == pre.rev_seq().push(k.index_spec())
        &&& post.len_spec() == pre.len_spec() + 1
        &&& !pre.key_live(k)
        &&& post.key_live(k)
        &&& post.position_of(k) == p
    }

    /// How a removal through the live key `k` changes the tracker: the
    /// key's slot is emptied as in the sparse arena, the reverse table
    /// swap-removes the key's position `p`, and the key whose position was
    /// last is redirected to `p`; every other key keeps its position.
    pub open spec fn removed<K: ArenaIndex<O, G>>(pre: Self, post: Self, k: K) -> bool {
        let p = pre.position_of(k);
        let last = pre.len_spec() - 1;
        &&& post.wf()
        &&& GenericSparseArena::removed_structure(pre.forward(), post.forward(), k)
        &&& 0 <= p < pre.len_spec()
        &&& post.rev_seq() == pre.rev_seq().update(p, pre.rev_seq().last()).drop_last()
        &&& post.len_spec() == pre.len_spec() - 1
        &&& forall|s: int|
            0 <= s < pre.slot_count() && s != k.index_spec() && pre.slot_filled(s)
                ==> #[trigger] post.slot_pos(s) == if pre.slot_pos(s) == last {
                p
            } else {
                pre.slot_pos(s)
            }
    }
}

impl<G: Generation, I: InternalIndex> GenericDenseTracker<(), G, I> {
    /// Create a new, empty [`GenericDenseTracker`].
    pub fn new() -> (r: Self)
        ensures
            r.wf(),
            r.len_spec() == 0,
            r.slot_count() == 0,
    {
        let r = GenericDenseTracker { keys: Vec::new(), index: GenericSparseArena::new() };
        proof {
            <I as InternalIndex>::lemma_max_value();
            assert(r.rev_seq() =~= Seq::<int>::empty());
        }
        r
    }
}

impl<O, G: Generation, I: InternalIndex> GenericDenseTracker<O, G, I> {
    /// Create a new, empty [`GenericDenseTracker`] that carries `owner`.
    pub fn with_owner(owner: O) -> (r: Self)
        ensures
            r.wf(),
            r.len_spec() == 0,
            r.slot_count() == 0,
            r.owner_of() == owner,
    {
        let r = GenericDenseTracker { keys: Vec::new(), index: GenericSparseArena::with_owner(owner) };
        proof {
            <I as InternalIndex>::lemma_max_value();
            assert(r.rev_seq() =~= Seq::<int>::empty());
        }
        r
    }

    /// Get the owner of this tracker's keys.
    pub fn owner(&self) -> (r: &O)
        ensures
            *r == self.owner_of(),
    {
        self.index.owner()
    }

    /// The number of live keys in the tracker.
    #[inline]
    pub fn len(&self) -> (r: usize)
        requires
            self.wf(),
        ensures
            r as int == self.len_spec(),
    {
        self.keys.len()
    }

    /// Returns true when the tracker holds no live key.
    #[inline]
    pub fn is_empty(&self) -> (r: bool)
        requires
            self.wf(),
        ensures
            r == (self.len_spec() == 0),
    {
        self.keys.len() == 0
    }

    /// Get the position associated with the key, or `None` when the key is
    /// dead.
    #[inline]
    pub fn get<K: ArenaIndex<O, G>>(&self, key: K) -> (r: Option<usize>)
        requires
            self.wf(),
        ensures
            match r {
                Some(p) => self.key_live(key) && p as int == self.position_of(key) && (p as int)
                    < self.len_spec(),
                None => !self.key_live(key),
            },
    {
        match self.index.get(key) {
            Some(pi) => {
                proof {
                    key.lemma_key_matches_filled(self.forward().gen_at(key.index_spec()));
                    self.forward().lemma_wf_facts();
                    assert(self.slot_filled(key.index_spec()));
                }
                Some(pi.to_usize())
            },
            None => None,
        }
    }

    /// Get the position associated with the key, which must be live.
    #[inline]
    pub fn at<K: ArenaIndex<O, G>>(&self, key: K) -> (r: usize)
        requires
            self.wf(),
            self.key_live(key),
        ensures
            r as int == self.position_of(key),
            (r as int) < self.len_spec(),
    {
        let r = self.get(key);
        r.unwrap()
    }

    /// Get the key of the filled forward-map slot at `index`, or `None`
    /// when `index` is out of bounds or the slot is empty.
    ///
    /// This index is a slot of the forward map, not a position in the
    /// associated array.
    #[inline]
    pub fn try_key_of<K: ArenaIndex<O, G>>(&self, index: usize) -> (r: Option<K>)
        requires
            self.wf(),
            index as int <= K::max_index(),
        ensures
            match r {
                Some(k) => (index as int) < self.slot_count() && self.slot_filled(index as int)
                    && k.index_spec() == index as int && self.key_live(k),
                None => !((index as int) < self.slot_count() && self.slot_filled(index as int)),
            },
    {
        self.index.try_key_of(index)
    }

    /// Get the key of the filled forward-map slot at `index`, which must
    /// name a filled slot.
    #[inline]
    pub fn key_of<K: ArenaIndex<O, G>>(&self, index: usize) -> (r: K)
        requires
            self.wf(),
            index as int <= K::max_index(),
            (index as int) < self.slot_count(),
            self.slot_filled(index as int),
        ensures
            r.index_spec() == index as int,
            self.key_live(r),
    {
        self.index.key_of(index)
    }
}

/// A reserved place for one key in a [`GenericDenseTracker`], created by
/// [`GenericDenseTracker::vacant_slot`]. It records the key the coming
/// insertion will be accounted under and the position the associated value
/// must be written to.
pub struct VacantSlot<K> {
    inner: generic_sparse::VacantSlot<K>,
    position: usize,
}

impl<K> VacantSlot<K> {
    /// The sparse reservation inside the forward map.
    pub closed spec fn inner_spec(&self) -> generic_sparse::VacantSlot<K> {
        self.inner
    }

    /// The key an insertion through this reservation is accounted under.
    pub open spec fn key_spec(&self) -> K {
        self.inner_spec().key_spec()
    }

    /// The position the associated value must be written to.
    pub closed spec fn position_spec(&self) -> int {
        self.position as int
    }

    /// Whether this reservation was taken from `t` in its current state.
    pub open spec fn is_vacant_for<O, G: Generation, I: InternalIndex>(
        &self,
        t: GenericDenseTracker<O, G, I>,
    ) -> bool where K: ArenaIndex<O, G> {
        &&& self.inner_spec().is_vacant_for(t.forward())
        &&& self.position_spec() == t.len_spec()
    }

    /// Get the position of the slot in the associated array once it is
    /// filled.
    pub fn position(&self) -> (r: usize)
        ensures
            r as int == self.position_spec(),
    {
        self.position
    }
}

impl<K: Copy> VacantSlot<K> {
    /// Get the key that will be associated with this slot once it is
    /// filled.
    pub fn key(&self) -> (r: K)
        ensures
            r == self.key_spec(),
    {
        self.inner.key()
    }
}

impl<K> VacantSlot<K> {
    /// Commit the reservation. This goes along with pushing the associated
    /// value at [`VacantSlot::position`], which is the tracker's length.
    pub fn insert<O, G: Generation, I: InternalIndex>(
        self,
        t: &mut GenericDenseTracker<O, G, I>,
    ) where K: ArenaIndex<O, G>
        requires
            old(t).wf(),
            old(t).can_insert::<K>(),
            self.is_vacant_for(*old(t)),
        ensures
            GenericDenseTracker::inserted(
                *old(t),
                *final(t),
                self.key_spec(),
                old(t).len_spec(),
            ),
    {
        let ghost pre = *old(t);
        let si = self.inner.slot_index();
        proof {
            pre.forward().lemma_wf_facts();
        }
        let len = t.keys.len();
        let pos_i = I::from_usize(len);
        t.keys.push(I::from_usize(si));
        self.inner.insert(&mut t.index, pos_i);
        proof {
            let post = *t;
            let k = self.key_spec();
            let s = k.index_spec();
            assert(s == pre.forward().next_index());
            assert(post.rev_seq() =~= pre.rev_seq().push(s));
            assert(post.slot_pos(s) == pre.len_spec());
            k.lemma_key_matches_filled(post.forward().gen_at(s));
            // the new position and slot point at each other; old entries
            // are untouched
            assert forall|p: int| 0 <= p < post.len_spec() implies 0 <= #[trigger] post.pos_slot(p)
                < post.slot_count() && post.slot_filled(post.pos_slot(p)) && post.slot_pos(
                post.pos_slot(p),
            ) == p by {
                if p == pre.len_spec() {
                    assert(post.pos_slot(p) == s);
                } else {
                    assert(post.pos_slot(p) == pre.pos_slot(p));
                    let s2 = pre.pos_slot(p);
                    assert(pre.slot_filled(s2));
                    if s2 == s {
                        assert(!pre.key_live(k));
                        assert(pre.forward().next_index() < pre.slot_count()
                            ==> !pre.forward().is_filled_at(pre.forward().next_index()));
                        assert(false);
                    }
                    assert(post.slot_filled(s2));
                    assert(post.slot_pos(s2) == pre.slot_pos(s2));
                }
            }
            assert forall|s2: int|
                0 <= s2 < post.slot_count() && #[trigger] post.slot_filled(s2) implies 0
                <= post.slot_pos(s2) < post.len_spec() && post.pos_slot(post.slot_pos(s2))
                == s2 by {
                if s2 == s {
                    assert(post.slot_pos(s2) == pre.len_spec());
                    assert(post.pos_slot(pre.len_spec()) == s);
                } else {
                    if s2 < pre.slot_count() {
                        assert(pre.slot_filled(s2));
                        assert(0 <= pre.slot_pos(s2) < pre.len_spec());
                        assert(post.slot_pos(s2) == pre.slot_pos(s2));
                        assert(post.pos_slot(pre.slot_pos(s2)) == pre.pos_slot(pre.slot_pos(s2)));
                    } else {
                        assert(post.slot_count() == pre.slot_count() + 1);
                        assert(s2 == pre.slot_count() && s == pre.slot_count());
                        assert(false);
                    }
                }
            }
            assert(post.wf());
            assert(GenericDenseTracker::inserted(pre, post, k, pre.len_spec()));
        }
    }
}

impl<O, G: Generation, I: InternalIndex> GenericDenseTracker<O, G, I> {
    /// Reserve the key and position the next insertion will use, without
    /// changing the tracker. `len` must be the current length of the
    /// associated array.
    pub fn vacant_slot<K: ArenaIndex<O, G>>(&mut self, len: usize) -> (r: VacantSlot<K>)
        requires
            old(self).wf(),
            old(self).can_insert::<K>(),
            len as int == old(self).len_spec(),
        ensures
            *final(self) == *old(self),
            r.is_vacant_for(*old(self)),
    {
        let inner: generic_sparse::VacantSlot<K> = self.index.vacant_slot();
        VacantSlot { inner, position: len }
    }

    /// Drop position `p` from the reverse table by a swap-removal and patch
    /// the forward entry of the key whose position moved. The forward map
    /// must already have dropped the key that owned `p`.
    fn remove_at(&mut self, p: usize) -> (r: usize)
        requires
            old(self).forward().wf(),
            old(self).len_spec() <= I::max_value(),
            old(self).len_spec() <= usize::MAX as int,
            (p as int) < old(self).len_spec(),
            forall|p2: int|
                0 <= p2 < old(self).len_spec() && p2 != p as int ==> 0 <= #[trigger] old(self).pos_slot(p2) < old(self).slot_count() && old(self).slot_filled(
                    old(self).pos_slot(p2),
                ) && old(self).slot_pos(old(self).pos_slot(p2)) == p2,
            forall|s: int|
                0 <= s < old(self).slot_count() && #[trigger] old(self).slot_filled(s) ==> 0 <= old(self).slot_pos(s) < old(self).len_spec() && old(self).slot_pos(s) != p as int && old(self).pos_slot(old(self).slot_pos(s)) == s,
        ensures
            r == p,
            final(self).wf(),
            final(self).len_spec() == old(self).len_spec() - 1,
            final(self).rev_seq() == old(self).rev_seq().update(
                p as int,
                old(self).rev_seq().last(),
            ).drop_last(),
            final(self).slot_count() == old(self).slot_count(),
            forall|s: int|
                0 <= s < old(self).slot_count() ==> #[trigger] final(self).forward().gen_at(s)
                    == old(self).forward().gen_at(s),
            forall|s: int|
                0 <= s < old(self).slot_count() ==> (#[trigger] final(self).slot_filled(s)
                    <==> old(self).slot_filled(s)),
            forall|s: int|
                0 <= s < old(self).slot_count() && !old(self).slot_filled(s) ==> #[trigger] final(self).forward().empty_next_at(s) == old(self).forward().empty_next_at(s),
            forall|s: int|
                #![trigger final(self).forward().in_free_list(s)]
                #![trigger old(self).forward().in_free_list(s)]
                final(self).forward().in_free_list(s) <==> old(self).forward().in_free_list(s),
            final(self).forward().free_head() == old(self).forward().free_head(),
            final(self).forward().live_count() == old(self).forward().live_count(),
            final(self).forward().owner_of() == old(self).forward().owner_of(),
            forall|s: int|
                0 <= s < old(self).slot_count() && old(self).slot_filled(s) ==> #[trigger] final(self).slot_pos(s) == if old(self).slot_pos(s) == old(self).len_spec() - 1 {
                    p as int
                } else {
                    old(self).slot_pos(s)
                },
    {
        let ghost pre = *self;
        let ghost last = pre.len_spec() - 1;
        proof {
            pre.forward().lemma_wf_facts();
        }
        let _moved = self.keys.swap_remove(p);
        let new_len = self.keys.len();
        if p < new_len {
            let s_end = self.keys[p];
            proof {
                assert(self.keys@[p as int] == pre.keys@[last]);
                assert(s_end.as_int() == pre.pos_slot(last));
                assert(pre.slot_filled(pre.pos_slot(last)));
                s_end.lemma_bounds();
            }
            let s_end_u = s_end.to_usize();
            let newpos = I::from_usize(p);
            self.index.set_value_at_index(s_end_u, newpos);
        }
        proof {
            let post = *self;
            let p_ = p as int;
            assert(post.rev_seq() =~= pre.rev_seq().update(p_, pre.rev_seq().last()).drop_last());
            if p_ < last {
                let s_end = pre.pos_slot(last);
                assert(GenericSparseArena::mutated(
                    pre.forward(),
                    post.forward(),
                    s_end,
                    post.forward().value_at(s_end),
                ));
                assert(post.slot_pos(s_end) == p_);
                assert forall|s: int|
                    0 <= s < pre.slot_count() && pre.slot_filled(s) implies #[trigger] post
                    .slot_pos(s) == if pre.slot_pos(s) == last {
                    p_
                } else {
                    pre.slot_pos(s)
                } by {
                    if pre.slot_pos(s) == last {
                        assert(pre.pos_slot(last) == s);
                    } else {
                        assert(s != s_end);
                    }
                }
            } else {
                assert(post.forward() == pre.forward());
            }
            // the bijection holds of the shortened table
            assert forall|p2: int| 0 <= p2 < post.len_spec() implies 0 <= #[trigger] post.pos_slot(
                p2,
            ) < post.slot_count() && post.slot_filled(post.pos_slot(p2)) && post.slot_pos(
                post.pos_slot(p2),
            ) == p2 by {
                if p2 == p_ {
                    let s_end = pre.pos_slot(last);
                    assert(post.pos_slot(p2) == s_end);
                    assert(pre.slot_filled(s_end));
                    assert(post.slot_pos(s_end) == p_);
                } else {
                    assert(post.pos_slot(p2) == pre.pos_slot(p2));
                    let s = pre.pos_slot(p2);
                    assert(pre.slot_filled(s));
                    assert(pre.slot_pos(s) == p2);
                    if p_ < last {
                        assert(s != pre.pos_slot(last));
                        assert(post.slot_pos(s) == p2);
                    }
                }
            }
            assert forall|s: int|
                0 <= s < post.slot_count() && #[trigger] post.slot_filled(s) implies 0
                <= post.slot_pos(s) < post.len_spec() && post.pos_slot(post.slot_pos(s))
                == s by {
                assert(pre.slot_filled(s));
                let q = pre.slot_pos(s);
                assert(0 <= q < pre.len_spec() && q != p_);
                assert(pre.pos_slot(q) == s);
                if q == last {
                    assert(post.slot_pos(s) == p_);
                    assert(post.pos_slot(p_) == pre.pos_slot(last));
                } else {
                    assert(post.slot_pos(s) == q);
                    assert(post.pos_slot(q) == pre.pos_slot(q));
                }
            }
            assert(post.wf());
        }
        p
    }

    /// Try to remove the key and return the position its value held.
    ///
    /// Returns `None` and changes nothing exactly when the key is dead. On
    /// success the caller must swap-remove the returned position from the
    /// associated array.
    #[inline]
    pub fn try_remove<K: ArenaIndex<O, G>>(&mut self, key: K) -> (r: Option<usize>)
        requires
            old(self).wf(),
        ensures
            old(self).key_live(key) ==> r is Some && r.unwrap() as int == old(self).position_of(
                key,
            ) && Self::removed(*old(self), *final(self), key),
            !old(self).key_live(key) ==> r is None && *final(self) == *old(self),
    {
        let ghost pre = *self;
        let removed_pos = self.index.try_remove(key);
        let pi = match removed_pos {
            Some(pi) => pi,
            None => {
                return None;
            },
        };
        let ghost mid = *self;
        let ghost s0 = key.index_spec();
        proof {
            pre.forward().lemma_wf_facts();
            key.lemma_key_matches_filled(pre.forward().gen_at(s0));
            assert(pre.slot_filled(s0));
            assert(pi.as_int() == pre.slot_pos(s0));
            assert(0 <= pi.as_int() < pre.len_spec());
        }
        let p = pi.to_usize();
        proof {
            // the forward map lost exactly the key's slot; every other pair
            // of the bijection is intact
            assert(mid.rev_seq() == pre.rev_seq());
            assert forall|p2: int|
                0 <= p2 < mid.len_spec() && p2 != p as int implies 0 <= #[trigger] mid.pos_slot(p2)
                < mid.slot_count() && mid.slot_filled(mid.pos_slot(p2)) && mid.slot_pos(
                mid.pos_slot(p2),
            ) == p2 by {
                let s = pre.pos_slot(p2);
                assert(pre.slot_filled(s));
                assert(pre.slot_pos(s) == p2);
                if s == s0 {
                    assert(pre.slot_pos(s0) == p as int);
                    assert(false);
                }
                assert(mid.slot_filled(s));
                assert(mid.slot_pos(s) == pre.slot_pos(s));
            }
            assert forall|s: int|
                0 <= s < mid.slot_count() && #[trigger] mid.slot_filled(s) implies 0 <= mid
                .slot_pos(s) < mid.len_spec() && mid.slot_pos(s) != p as int && mid.pos_slot(
                mid.slot_pos(s),
            ) == s by {
                assert(s != s0);
                assert(pre.slot_filled(s));
                assert(mid.slot_pos(s) == pre.slot_pos(s));
                let q = pre.slot_pos(s);
                if q == p as int {
                    assert(pre.pos_slot(q) == s);
                    assert(pre.pos_slot(p as int) == s0);
                    assert(false);
                }
            }
        }
        let r = self.remove_at(p);
        proof {
            let post = *self;
            assert(post.rev_seq() == pre.rev_seq().update(p as int, pre.rev_seq().last()).drop_last());
            assert(GenericSparseArena::removed_structure(pre.forward(), mid.forward(), key));
            assert forall|s: int|
                0 <= s < pre.slot_count() && s != s0 implies {
                &&& #[trigger] post.forward().gen_at(s) == pre.forward().gen_at(s)
                &&& (post.slot_filled(s) <==> pre.slot_filled(s))
            } by {
                assert(mid.forward().gen_at(s) == pre.forward().gen_at(s));
                assert(mid.slot_filled(s) <==> pre.slot_filled(s));
            }
            assert forall|s: int|
                0 <= s < pre.slot_count() && s != s0 implies (#[trigger] post.forward()
                .is_filled_at(s) <==> pre.forward().is_filled_at(s)) by {
                assert(mid.slot_filled(s) <==> pre.slot_filled(s));
                assert(post.slot_filled(s) <==> mid.slot_filled(s));
            }
            assert(post.forward().gen_at(s0) == mid.forward().gen_at(s0));
            assert(!post.slot_filled(s0));
            key.lemma_key_matches_filled(post.forward().gen_at(s0));
            assert(post.forward().empty_next_at(s0) == mid.forward().empty_next_at(s0));
            assert forall|s: int|
                0 <= s < pre.slot_count() && s != s0 && !pre.slot_filled(s) implies #[trigger] post
                .forward().empty_next_at(s) == pre.forward().empty_next_at(s) by {
                assert(!mid.slot_filled(s));
                assert(mid.forward().empty_next_at(s) == pre.forward().empty_next_at(s));
                assert(post.forward().empty_next_at(s) == mid.forward().empty_next_at(s));
            }
            assert forall|s: int|
                #![trigger post.forward().in_free_list(s)]
                #![trigger pre.forward().in_free_list(s)]
                post.forward().in_free_list(s) <==> (pre.forward().in_free_list(s) || (
                pre.forward().gen_at(s0).try_empty_ok() && s == s0)) by {
                assert(post.forward().in_free_list(s) <==> mid.forward().in_free_list(s));
                assert(mid.forward().in_free_list(s) <==> (pre.forward().in_free_list(s) || (
                pre.forward().gen_at(s0).try_empty_ok() && s == s0)));
            }
            assert(GenericSparseArena::removed_structure(pre.forward(), post.forward(), key));
            assert forall|s: int|
                0 <= s < pre.slot_count() && s != s0 && pre.slot_filled(s) implies #[trigger] post
                .slot_pos(s) == if pre.slot_pos(s) == pre.len_spec() - 1 {
                p as int
            } else {
                pre.slot_pos(s)
            } by {
                assert(mid.slot_filled(s));
                assert(mid.slot_pos(s) == pre.slot_pos(s));
            }
            assert(Self::removed(pre, post, key));
        }
        Some(r)
    }

    /// Remove the key, which must be live, and return the position its
    /// value held. The caller must swap-remove that position from the
    /// associated array.
    #[inline]
    pub fn remove<K: ArenaIndex<O, G>>(&mut self, key: K) -> (r: usize)
        requires
            old(self).wf(),
            old(self).key_live(key),
        ensures
            r as int == old(self).position_of(key),
            Self::removed(*old(self), *final(self), key),
    {
        let r = self.try_remove(key);
        r.unwrap()
    }
}

/// An iterator over the keys of a [`GenericDenseTracker`], created by
/// [`GenericDenseTracker::keys`]. It walks the reverse table, so it yields
/// exactly one key per live value, in position order.
pub struct Keys<'a, K, O, G: Generation, I: InternalIndex> {
    tracker: &'a GenericDenseTracker<O, G, I>,
    pos: usize,
    marker: core::marker::PhantomData<K>,
}

impl<'a, K: ArenaIndex<O, G>, O, G: Generation, I: InternalIndex> Keys<'a, K, O, G, I> {
    /// The tracker this iterator walks.
    pub closed spec fn tracker_spec(&self) -> GenericDenseTracker<O, G, I> {
        *self.tracker
    }

    /// The next position this iterator will yield the key of.
    pub closed spec fn pos_spec(&self) -> int {
        self.pos as int
    }

    /// The key of the next position, stepping past it; `None` once every
    /// position has been yielded.
    pub fn next(&mut self) -> (r: Option<K>)
        requires
            old(self).tracker_spec().wf(),
            old(self).tracker_spec().slot_count() <= K::max_index() + 1,
        ensures
            final(self).tracker_spec() == old(self).tracker_spec(),
            ({
                let t = old(self).tracker_spec();
                let p = old(self).pos_spec();
                if p < t.len_spec() {
                    &&& r is Some
                    &&& t.key_live(r.unwrap())
                    &&& t.position_of(r.unwrap()) == p
                    &&& final(self).pos_spec() == p + 1
                } else {
                    &&& r is None
                    &&& final(self).pos_spec() == p
                }
            }),
    {
        let n = self.tracker.keys.len();
        if self.pos >= n {
            return None;
        }
        let p = self.pos;
        let si = self.tracker.keys[p];
        proof {
            assert(self.tracker_spec().pos_slot(p as int) == si.as_int());
            assert(self.tracker_spec().slot_filled(si.as_int()));
            self.tracker_spec().forward().lemma_wf_facts();
            si.lemma_bounds();
        }
        let su = si.to_usize();
        let k: K = self.tracker.index.key_of(su);
        self.pos = p + 1;
        proof {
            assert(self.tracker_spec().position_of(k) == p as int);
        }
        Some(k)
    }
}

impl<O, G: Generation, I: InternalIndex> GenericDenseTracker<O, G, I> {
    /// Get an iterator over all the keys in the tracker, in position
    /// order. It yields exactly [`GenericDenseTracker::len`] keys.
    pub fn keys<K: ArenaIndex<O, G>>(&self) -> (r: Keys<'_, K, O, G, I>)
        ensures
            r.tracker_spec() == *self,
            r.pos_spec() == 0,
    {
        Keys { tracker: self, pos: 0, marker: core::marker::PhantomData }
    }
}

} // verus!
