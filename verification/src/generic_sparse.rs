//! A sparse arena with tweakable generation policy, slot metadata width and
//! key type.
//!
//! see [`GenericSparseArena`] for details

use vstd::prelude::*;

use crate::generation::Generation;
use crate::generation::OrderedGeneration;
use crate::internal_index::InternalIndex;
use crate::key::ArenaIndex;

verus! {

/// One storage cell of a [`GenericSparseArena`].
///
/// Either it holds a value, or it is a link of the free list and holds the
/// index of the next empty slot. Both variants carry the slot's generation,
/// and the arena keeps the variant in step with what the generation says.
enum Slot<T, G, I> {
    /// The slot holds a value.
    Filled { generation: G, value: T },
    /// The slot is empty and links to the next empty slot, or one past the
    /// end of the slot array when no further empty slot exists.
    Empty { generation: G, next_empty_slot: I },
}

/// A [`GenericSparseArena`] is a growable array of slots threaded by a free
/// list.
///
/// `free_list_head` points at the first empty slot of the free list, or one
/// past the end of the array when the list is empty. Insertion fills the
/// head slot of the free list (growing the array by one slot when the list
/// is empty), stamps the slot's generation, and mints a key holding the
/// index and the new generation's snapshot. Access checks the key's index
/// and snapshot against the slot; removal additionally pushes the slot back
/// onto the front of the free list, so the most recently freed slot is
/// reused first. When a saturating generation is exhausted by a removal, the
/// slot is not relinked: it is retired and never handed out again.
///
/// Every operation is O(1); iteration walks all slots, filled or not.
pub struct GenericSparseArena<T, O = (), G = crate::generation::DefaultGeneration, I = usize> where G: Generation, I: InternalIndex {
    free_list_head: usize,
    slots: Vec<Slot<T, G, I>>,
    owner: O,
    free: Ghost<Seq<int>>,
}

impl<T, O, G: Generation, I: InternalIndex> GenericSparseArena<T, O, G, I> {
    /// The number of slots, filled and empty together.
    pub closed spec fn slot_count(&self) -> int {
        self.slots@.len() as int
    }

    /// Whether the slot at `i` holds a value.
    pub closed spec fn is_filled_at(&self, i: int) -> bool {
        self.slots@[i] is Filled
    }

    /// The generation the slot at `i` carries.
    pub closed spec fn gen_at(&self, i: int) -> G {
        match self.slots@[i] {
            Slot::Filled { generation, .. } => generation,
            Slot::Empty { generation, .. } => generation,
        }
    }

    /// The value the slot at `i` holds.
    pub closed spec fn value_at(&self, i: int) -> T
        recommends
            0 <= i < self.slot_count(),
            self.is_filled_at(i),
    {
        match self.slots@[i] {
            Slot::Filled { value, .. } => value,
            Slot::Empty { .. } => vstd::pervasive::arbitrary(),
        }
    }

    /// The free-list link the empty slot at `i` stores.
    pub closed spec fn empty_next_at(&self, i: int) -> int
        recommends
            0 <= i < self.slot_count(),
            !self.is_filled_at(i),
    {
        match self.slots@[i] {
            Slot::Empty { next_empty_slot, .. } => next_empty_slot.as_int(),
            Slot::Filled { .. } => vstd::pervasive::arbitrary(),
        }
    }

    /// The head of the free list; equal to [`Self::slot_count`] when the
    /// free list is empty.
    pub closed spec fn free_head(&self) -> int {
        self.free_list_head as int
    }

    /// Whether the slot at `i` is a link of the free list. Empty slots that
    /// are not are retired: they are never filled again.
    pub closed spec fn in_free_list(&self, i: int) -> bool {
        self.free@.contains(i)
    }

    /// The owner value this arena was created with.
    pub closed spec fn owner_of(&self) -> O {
        self.owner
    }

    /// The free list as a sequence of slot indices, head first.
    spec fn free_seq(&self) -> Seq<int> {
        self.free@
    }

    /// The number of filled slots.
    pub closed spec fn live_count(&self) -> int {
        Self::count_filled(self.slots@)
    }

    /// How many slots of `s` are filled.
    spec fn count_filled(s: Seq<Slot<T, G, I>>) -> int
        decreases s.len(),
    {
        if s.len() == 0 {
            0
        } else {
            Self::count_filled(s.drop_last()) + if s.last() is Filled {
                1int
            } else {
                0int
            }
        }
    }

    /// The slot the next insertion will fill: the head of the free list, or
    /// the fresh slot appended when the free list is empty.
    pub open spec fn next_index(&self) -> int {
        if self.free_head() < self.slot_count() {
            self.free_head()
        } else {
            self.slot_count()
        }
    }

    /// The generation the next inserted slot will carry.
    pub open spec fn next_gen(&self) -> G {
        (if self.next_index() < self.slot_count() {
            self.gen_at(self.next_index())
        } else {
            G::empty_spec()
        }).fill_spec()
    }

    /// The first filled slot at or after `p`, or the slot count when every
    /// slot from `p` on is empty. This is the order iteration yields slots
    /// in.
    pub open spec fn next_filled_from(&self, p: int) -> int
        decreases self.slot_count() - p,
    {
        if p < 0 || p >= self.slot_count() {
            self.slot_count()
        } else if self.is_filled_at(p) {
            p
        } else {
            self.next_filled_from(p + 1)
        }
    }

    /// Whether `k` is a live key of this arena: its index is in bounds and
    /// its snapshot matches the generation its slot currently carries.
    pub open spec fn key_live<K: ArenaIndex<O, G>>(&self, k: K) -> bool {
        &&& 0 <= k.index_spec() < self.slot_count()
        &&& k.key_matches(self.gen_at(k.index_spec()))
    }

    /// The value a live key `k` refers to.
    pub open spec fn value_of<K: ArenaIndex<O, G>>(&self, k: K) -> T
        recommends
            self.key_live(k),
    {
        self.value_at(k.index_spec())
    }

    /// Whether an insertion with keys of type `K` may proceed: one more slot
    /// index must be representable in the metadata type `I` and in `K`.
    pub open spec fn can_insert<K: ArenaIndex<O, G>>(&self) -> bool {
        &&& self.slot_count() < I::max_value()
        &&& self.slot_count() < usize::MAX as int
        &&& self.slot_count() <= K::max_index()
    }

    /// The arena's invariant.
    ///
    /// The free list indices name pairwise distinct empty slots in bounds;
    /// each link stores the index of the next one, the last link stores the
    /// slot count, and the head field holds the first link (or the slot
    /// count when the list is empty). Every slot's variant agrees with its
    /// generation, and the slot count fits the metadata type `I`.
    pub closed spec fn wf(&self) -> bool {
        let n = self.slots@.len() as int;
        let fl = self.free@;
        &&& n <= I::max_value()
        &&& n <= usize::MAX as int
        &&& self.free_list_head as int <= n
        &&& if fl.len() == 0 {
            self.free_list_head as int == n
        } else {
            fl[0] == self.free_list_head as int
        }
        &&& forall|j: int| 0 <= j < fl.len() ==> 0 <= #[trigger] fl[j] < n
        &&& forall|j: int| 0 <= j < fl.len() ==> !self.is_filled_at(#[trigger] fl[j])
        &&& forall|j: int|
            0 <= j < fl.len() ==> #[trigger] self.empty_next_at(fl[j]) == if j + 1 < fl.len() {
                fl[j + 1]
            } else {
                n
            }
        &&& forall|j: int, k: int| 0 <= j < k < fl.len() ==> #[trigger] fl[j] != #[trigger] fl[k]
        &&& forall|i: int|
            0 <= i < n ==> (#[trigger] self.is_filled_at(i) <==> self.gen_at(i).filled_spec())
    }

    /// Facts every well-formed arena satisfies, for use outside this
    /// module, where [`Self::wf`] is opaque.
    pub proof fn lemma_wf_facts(&self)
        requires
            self.wf(),
        ensures
            self.slot_count() <= I::max_value(),
            self.slot_count() <= usize::MAX as int,
            0 <= self.free_head() <= self.slot_count(),
            forall|i: int|
                0 <= i < self.slot_count() ==> (#[trigger] self.is_filled_at(i) <==> self.gen_at(
                    i,
                ).filled_spec()),
            self.next_index() < self.slot_count() ==> !self.is_filled_at(self.next_index()),
            forall|i: int|
                #[trigger] self.in_free_list(i) ==> 0 <= i < self.slot_count()
                    && !self.is_filled_at(i),
            self.next_index() < self.slot_count() ==> self.in_free_list(self.next_index()),
            0 <= self.live_count() <= self.slot_count(),
    {
        Self::lemma_count_bounds(self.slots@);
        if self.free_head() < self.slot_count() {
            assert(self.free@.len() > 0);
            assert(self.free@[0] == self.free_head());
            assert(!self.is_filled_at(self.free@[0]));
            assert(self.free@.contains(self.free@[0]));
        }
        assert forall|i: int| #[trigger] self.in_free_list(i) implies 0 <= i < self.slot_count()
            && !self.is_filled_at(i) by {
            let m = choose|m: int| 0 <= m < self.free@.len() && self.free@[m] == i;
            assert(0 <= self.free@[m] < self.slot_count());
            assert(!self.is_filled_at(self.free@[m]));
        }
    }

    /// A filled count never exceeds the length.
    proof fn lemma_count_bounds(s: Seq<Slot<T, G, I>>)
        ensures
            0 <= Self::count_filled(s) <= s.len(),
        decreases s.len(),
    {
        if s.len() > 0 {
            Self::lemma_count_bounds(s.drop_last());
        }
    }

    /// Appending a slot adds its own contribution to the filled count.
    proof fn lemma_count_push(s: Seq<Slot<T, G, I>>, x: Slot<T, G, I>)
        ensures
            Self::count_filled(s.push(x)) == Self::count_filled(s) + if x is Filled {
                1int
            } else {
                0int
            },
    {
        assert(s.push(x).drop_last() =~= s);
        assert(s.push(x).last() == x);
    }

    /// Replacing one slot changes the filled count by the difference of the
    /// two contributions.
    proof fn lemma_count_update(s: Seq<Slot<T, G, I>>, i: int, x: Slot<T, G, I>)
        requires
            0 <= i < s.len(),
        ensures
            Self::count_filled(s.update(i, x)) == Self::count_filled(s) + (if x is Filled {
                1int
            } else {
                0int
            }) - (if s[i] is Filled {
                1int
            } else {
                0int
            }),
        decreases s.len(),
    {
        let t = s.update(i, x);
        if i == s.len() - 1 {
            assert(t.drop_last() =~= s.drop_last());
            assert(t.last() == x);
        } else {
            assert(t.drop_last() =~= s.drop_last().update(i, x));
            assert(t.last() == s.last());
            Self::lemma_count_update(s.drop_last(), i, x);
        }
    }
}

impl<T, G: Generation, I: InternalIndex> GenericSparseArena<T, (), G, I> {
    /// Create a new, empty [`GenericSparseArena`].
    pub fn new() -> (r: Self)
        ensures
            r.wf(),
            r.slot_count() == 0,
            r.live_count() == 0,
            r.free_head() == 0,
    {
        proof {
            <I as InternalIndex>::lemma_max_value();
        }
        GenericSparseArena { free_list_head: 0, slots: Vec::new(), owner: (), free: Ghost(Seq::empty()) }
    }
}

impl<T, O, G: Generation, I: InternalIndex> GenericSparseArena<T, O, G, I> {
    /// Create a new, empty [`GenericSparseArena`] that carries `owner`, the
    /// witness value its keys belong to.
    pub fn with_owner(owner: O) -> (r: Self)
        ensures
            r.wf(),
            r.slot_count() == 0,
            r.live_count() == 0,
            r.free_head() == 0,
            r.owner_of() == owner,
    {
        proof {
            <I as InternalIndex>::lemma_max_value();
        }
        GenericSparseArena { free_list_head: 0, slots: Vec::new(), owner, free: Ghost(Seq::empty()) }
    }

    /// Get the owner of this arena's keys.
    pub fn owner(&self) -> (r: &O)
        ensures
            *r == self.owner_of(),
    {
        &self.owner
    }
}

impl<T, O, G: Generation, I: InternalIndex> GenericSparseArena<T, O, G, I> {
    /// How an insertion changes the arena: the slot at [`Self::next_index`]
    /// is filled with `v` (appended when the free list was empty), its
    /// generation advances by one fill, the minted key `k` was dead before
    /// and is live now, every other slot is untouched, and the free list
    /// loses exactly the filled slot.
    pub open spec fn inserted<K: ArenaIndex<O, G>>(pre: Self, post: Self, k: K, v: T) -> bool {
        let i = pre.next_index();
        &&& post.wf()
        &&& k.index_spec() == i
        &&& !pre.key_live(k)
        &&& post.key_live(k)
        &&& post.value_of(k) == v
        &&& post.slot_count() == if i == pre.slot_count() {
            pre.slot_count() + 1
        } else {
            pre.slot_count()
        }
        &&& post.is_filled_at(i)
        &&& post.value_at(i) == v
        &&& post.gen_at(i) == pre.next_gen()
        &&& forall|j: int|
            0 <= j < pre.slot_count() && j != i ==> #[trigger] post.gen_at(j) == pre.gen_at(j)
        &&& forall|j: int|
            0 <= j < pre.slot_count() && j != i ==> (#[trigger] post.is_filled_at(j)
                <==> pre.is_filled_at(j))
        &&& forall|j: int|
            0 <= j < pre.slot_count() && j != i && pre.is_filled_at(j)
                ==> #[trigger] post.value_at(j) == pre.value_at(j)
        &&& forall|j: int|
            0 <= j < pre.slot_count() && j != i && !pre.is_filled_at(j)
                ==> #[trigger] post.empty_next_at(j) == pre.empty_next_at(j)
        &&& forall|j: int|
            #![trigger post.in_free_list(j)]
            #![trigger pre.in_free_list(j)]
            post.in_free_list(j) <==> pre.in_free_list(j) && j != i
        &&& post.free_head() == if i < pre.slot_count() {
            pre.empty_next_at(i)
        } else {
            i + 1
        }
        &&& post.live_count() == pre.live_count() + 1
        &&& post.owner_of() == pre.owner_of()
    }

    /// The structural part of [`Self::removed`]: everything a removal
    /// changes apart from where the other slots' values go. The dense
    /// tracker guarantees only this much of its inner arena, because it
    /// patches one remaining value after the removal.
    pub open spec fn removed_structure<K: ArenaIndex<O, G>>(pre: Self, post: Self, k: K) -> bool {
        let i = k.index_spec();
        let g = pre.gen_at(i);
        &&& post.wf()
        &&& pre.key_live(k)
        &&& !post.key_live(k)
        &&& post.slot_count() == pre.slot_count()
        &&& !post.is_filled_at(i)
        &&& post.gen_at(i) == if g.try_empty_ok() {
            g.try_empty_spec()
        } else {
            G::empty_spec()
        }
        &&& post.free_head() == if g.try_empty_ok() {
            i
        } else {
            pre.free_head()
        }
        &&& (g.try_empty_ok() ==> post.empty_next_at(i) == pre.free_head())
        &&& forall|j: int|
            0 <= j < pre.slot_count() && j != i ==> #[trigger] post.gen_at(j) == pre.gen_at(j)
        &&& forall|j: int|
            0 <= j < pre.slot_count() && j != i ==> (#[trigger] post.is_filled_at(j)
                <==> pre.is_filled_at(j))
        &&& forall|j: int|
            0 <= j < pre.slot_count() && j != i && !pre.is_filled_at(j)
                ==> #[trigger] post.empty_next_at(j) == pre.empty_next_at(j)
        &&& forall|j: int|
            #![trigger post.in_free_list(j)]
            #![trigger pre.in_free_list(j)]
            post.in_free_list(j) <==> pre.in_free_list(j) || (g.try_empty_ok() && j == i)
        &&& post.live_count() == pre.live_count() - 1
        &&& post.owner_of() == pre.owner_of()
    }

    /// How a removal through the live key `k` changes the arena: the key's
    /// slot becomes empty, its generation advances by one emptying (or is
    /// reset and the slot retired when the policy is exhausted), the key is
    /// dead afterwards, every other slot is untouched, and the slot joins
    /// the front of the free list unless it was retired.
    pub open spec fn removed<K: ArenaIndex<O, G>>(pre: Self, post: Self, k: K) -> bool {
        &&& Self::removed_structure(pre, post, k)
        &&& forall|j: int|
            0 <= j < pre.slot_count() && j != k.index_spec() && pre.is_filled_at(j)
                ==> #[trigger] post.value_at(j) == pre.value_at(j)
    }

    /// How writing `v` into the filled slot at `i` changes the arena:
    /// nothing but that slot's value moves.
    pub open spec fn mutated(pre: Self, post: Self, i: int, v: T) -> bool {
        &&& post.wf()
        &&& post.slot_count() == pre.slot_count()
        &&& post.free_head() == pre.free_head()
        &&& post.is_filled_at(i)
        &&& post.value_at(i) == v
        &&& forall|j: int|
            0 <= j < pre.slot_count() ==> #[trigger] post.gen_at(j) == pre.gen_at(j)
        &&& forall|j: int|
            0 <= j < pre.slot_count() ==> (#[trigger] post.is_filled_at(j) <==> pre.is_filled_at(
                j,
            ))
        &&& forall|j: int|
            0 <= j < pre.slot_count() && j != i && pre.is_filled_at(j)
                ==> #[trigger] post.value_at(j) == pre.value_at(j)
        &&& forall|j: int|
            0 <= j < pre.slot_count() && !pre.is_filled_at(j) ==> #[trigger] post.empty_next_at(j)
                == pre.empty_next_at(j)
        &&& forall|j: int|
            #![trigger post.in_free_list(j)]
            #![trigger pre.in_free_list(j)]
            post.in_free_list(j) <==> pre.in_free_list(j)
        &&& post.live_count() == pre.live_count()
        &&& post.owner_of() == pre.owner_of()
    }

    /// The direct shape of a value update: the slot array is the old one
    /// with the value at `i` replaced, everything else is untouched. This is
    /// what [`Self::get_mut`] and [`Self::index_mut`] guarantee;
    /// [`Self::lemma_value_written`] turns it into [`Self::mutated`].
    pub closed spec fn value_written(pre: Self, post: Self, i: int, v: T) -> bool {
        &&& post.slots@ == pre.slots@.update(
            i,
            Slot::Filled { generation: pre.gen_at(i), value: v },
        )
        &&& post.free_list_head == pre.free_list_head
        &&& post.free == pre.free
        &&& post.owner == pre.owner
    }

    /// Writing a value into a filled slot of a well-formed arena changes
    /// nothing but that slot's value.
    pub proof fn lemma_value_written(pre: Self, post: Self, i: int, v: T)
        requires
            pre.wf(),
            0 <= i < pre.slot_count(),
            pre.is_filled_at(i),
            Self::value_written(pre, post, i, v),
        ensures
            Self::mutated(pre, post, i, v),
    {
        let fl = pre.free_seq();
        assert(post.free_seq() == fl);
        assert(post.slot_count() == pre.slot_count());
        assert forall|j: int| 0 <= j < pre.slot_count() implies #[trigger] post.gen_at(j)
            == pre.gen_at(j) by {
            if j != i {
                assert(post.slots@[j] == pre.slots@[j]);
            }
        }
        assert forall|j: int| 0 <= j < pre.slot_count() implies (#[trigger] post.is_filled_at(j)
            <==> pre.is_filled_at(j)) by {
            if j != i {
                assert(post.slots@[j] == pre.slots@[j]);
            }
        }
        assert forall|j: int|
            0 <= j < pre.slot_count() && j != i && pre.is_filled_at(j) implies #[trigger] post
            .value_at(j) == pre.value_at(j) by {
            assert(post.slots@[j] == pre.slots@[j]);
        }
        assert forall|j: int|
            0 <= j < pre.slot_count() && !pre.is_filled_at(j) implies #[trigger] post
            .empty_next_at(j) == pre.empty_next_at(j) by {
            assert(post.slots@[j] == pre.slots@[j]);
        }
        assert forall|j: int| 0 <= j < fl.len() implies {
            &&& !post.is_filled_at(#[trigger] fl[j])
            &&& post.empty_next_at(fl[j]) == if j + 1 < fl.len() {
                fl[j + 1]
            } else {
                post.slot_count()
            }
        } by {
            assert(!pre.is_filled_at(fl[j]));
            assert(post.slots@[fl[j]] == pre.slots@[fl[j]]);
            assert(pre.empty_next_at(fl[j]) == if j + 1 < fl.len() {
                fl[j + 1]
            } else {
                pre.slot_count()
            });
        }
        Self::lemma_count_update(
            pre.slots@,
            i,
            Slot::Filled { generation: pre.gen_at(i), value: v },
        );
        assert(post.wf());
        assert(Self::mutated(pre, post, i, v));
    }

    /// Dropping the head of a duplicate-free sequence keeps exactly the
    /// other elements.
    proof fn lemma_skip_head_contains(fl: Seq<int>)
        requires
            fl.len() > 0,
            forall|j: int, k: int| 0 <= j < k < fl.len() ==> #[trigger] fl[j] != #[trigger] fl[k],
        ensures
            forall|y: int| #[trigger]
                fl.skip(1).contains(y) <==> (fl.contains(y) && y != fl[0]),
    {
        assert forall|y: int| #[trigger] fl.skip(1).contains(y) implies fl.contains(y) && y
            != fl[0] by {
            let m = choose|m: int| 0 <= m < fl.skip(1).len() && fl.skip(1)[m] == y;
            assert(fl[m + 1] == y);
            assert(fl[0] != fl[m + 1]);
        }
        assert forall|y: int| fl.contains(y) && y != fl[0] implies #[trigger] fl.skip(1).contains(
            y,
        ) by {
            let m = choose|m: int| 0 <= m < fl.len() && fl[m] == y;
            assert(m >= 1);
            assert(fl.skip(1)[m - 1] == y);
        }
    }

    /// Append one empty slot linked after the end of the array, so that the
    /// free list is no longer empty.
    #[inline(never)]
    fn reserve_vacant_slot_slow(&mut self)
        requires
            old(self).wf(),
            old(self).free_head() == old(self).slot_count(),
            old(self).slot_count() < I::max_value(),
            old(self).slot_count() < usize::MAX as int,
        ensures
            final(self).wf(),
            final(self).slot_count() == old(self).slot_count() + 1,
            final(self).free_head() == old(self).free_head(),
            final(self).free_seq() =~= seq![old(self).slot_count()],
            final(self).gen_at(old(self).slot_count()) == G::empty_spec(),
            !final(self).is_filled_at(old(self).slot_count()),
            final(self).empty_next_at(old(self).slot_count()) == old(self).slot_count() + 1,
            forall|j: int|
                0 <= j < old(self).slot_count() ==> #[trigger] final(self).gen_at(j) == old(self).gen_at(j),
            forall|j: int|
                0 <= j < old(self).slot_count() ==> (#[trigger] final(self).is_filled_at(j)
                    <==> old(self).is_filled_at(j)),
            forall|j: int|
                0 <= j < old(self).slot_count() && old(self).is_filled_at(j) ==> #[trigger] final(self).value_at(j) == old(self).value_at(j),
            forall|j: int|
                0 <= j < old(self).slot_count() && !old(self).is_filled_at(j) ==> #[trigger] final(self).empty_next_at(j) == old(self).empty_next_at(j),
            final(self).live_count() == old(self).live_count(),
            final(self).owner_of() == old(self).owner_of(),
    {
        let ghost pre = *self;
        let next = I::from_usize(self.free_list_head + 1);
        proof {
            G::lemma_empty();
        }
        let new_slot = Slot::Empty { generation: G::empty(), next_empty_slot: next };
        proof {
            Self::lemma_count_push(pre.slots@, new_slot);
        }
        self.slots.push(new_slot);
        proof {
            self.free@ = seq![pre.slot_count()];
            let post = *self;
            let n = pre.slot_count();
            assert(post.slots@ == pre.slots@.push(new_slot));
            assert(post.free_seq() =~= seq![n]);
            assert(post.free_seq()[0] == n);
            assert(post.slots@[n] == new_slot);
            assert(!post.is_filled_at(n));
            assert(post.gen_at(n) == G::empty_spec());
            assert(post.empty_next_at(n) == n + 1);
            assert(forall|j: int| 0 <= j < n ==> post.slots@[j] == pre.slots@[j]);
            assert forall|j: int| 0 <= j < n implies {
                &&& #[trigger] post.gen_at(j) == pre.gen_at(j)
                &&& (post.is_filled_at(j) <==> pre.is_filled_at(j))
                &&& (pre.is_filled_at(j) ==> post.value_at(j) == pre.value_at(j))
                &&& (!pre.is_filled_at(j) ==> post.empty_next_at(j) == pre.empty_next_at(j))
            } by {
                assert(post.slots@[j] == pre.slots@[j]);
            }
            assert(post.wf());
        }
    }

    /// Insert a new value and return its key.
    #[inline]
    pub fn insert<K: ArenaIndex<O, G>>(&mut self, value: T) -> (r: K)
        requires
            old(self).wf(),
            old(self).can_insert::<K>(),
        ensures
            Self::inserted(*old(self), *final(self), r, value),
    {
        if self.free_list_head == self.slots.len() {
            self.reserve_vacant_slot_slow();
        }
        let ghost mid = *self;
        let i = self.free_list_head;
        let (g, next): (G, I) = match &self.slots[i] {
            Slot::Empty { generation, next_empty_slot } => (*generation, *next_empty_slot),
            Slot::Filled { .. } => {
                proof {
                    assert(mid.free_seq().len() > 0);
                    assert(!mid.is_filled_at(mid.free_seq()[0]));
                    assert(false);
                }
                (G::empty(), I::from_usize(0))
            },
        };
        proof {
            assert(!mid.is_filled_at(i as int));
            g.lemma_fill();
        }
        let gf = g.fill();
        let snap = gf.to_filled();
        let key: K = K::new(i, &self.owner, snap);
        proof {
            Self::lemma_count_update(
                mid.slots@,
                i as int,
                Slot::Filled { generation: gf, value: value },
            );
        }
        let slot = &mut self.slots[i];
        *slot = Slot::Filled { generation: gf, value };
        proof {
            next.lemma_bounds();
            if mid.free_seq().len() == 0 {
                assert(mid.free_head() == mid.slot_count());
                assert(false);
            }
            assert(mid.free_seq()[0] == i as int);
            assert(mid.empty_next_at(i as int) == if 1 < mid.free_seq().len() {
                mid.free_seq()[1]
            } else {
                mid.slot_count()
            });
            if 1 < mid.free_seq().len() {
                assert(0 <= mid.free_seq()[1] < mid.slot_count());
            }
            assert(next.as_int() <= mid.slot_count());
        }
        self.free_list_head = next.to_usize();
        proof {
            self.free@ = mid.free_seq().skip(1);
        }
        proof {
            let pre = *old(self);
            let post = *self;
            let fl = mid.free_seq();
            let i_ = i as int;
            assert(post.slots@ == mid.slots@.update(i_, Slot::Filled { generation: gf, value: value }));
            assert(post.free_seq() == fl.skip(1));
            Self::lemma_skip_head_contains(fl);
            assert(fl[0] == i_);
            assert(mid.empty_next_at(fl[0]) == if 1 < fl.len() {
                fl[1]
            } else {
                mid.slot_count()
            });
            // the state after a possible growth relates to the start state
            if pre.free_head() == pre.slot_count() {
                assert(i_ == pre.slot_count());
                if pre.free_seq().len() > 0 {
                    assert(0 <= pre.free_seq()[0] < pre.slot_count());
                }
                assert(pre.free_seq().len() == 0);
            } else {
                assert(mid == pre);
                assert(i_ == pre.next_index());
            }
            // the minted key was dead before and is live now
            key.lemma_key_matches_filled(pre.next_gen());
            if pre.next_index() < pre.slot_count() {
                key.lemma_key_matches_filled(pre.gen_at(pre.next_index()));
            }
            assert(post.gen_at(i_) == pre.next_gen());
            assert(key.key_matches(post.gen_at(i_)));
            // the remaining free list is still a well-formed chain
            assert forall|j: int| 0 <= j < fl.skip(1).len() implies {
                &&& 0 <= #[trigger] fl.skip(1)[j] < post.slot_count()
                &&& !post.is_filled_at(fl.skip(1)[j])
                &&& post.empty_next_at(fl.skip(1)[j]) == if j + 1 < fl.skip(1).len() {
                    fl.skip(1)[j + 1]
                } else {
                    post.slot_count()
                }
            } by {
                assert(fl.skip(1)[j] == fl[j + 1]);
                assert(0 <= fl[j + 1] < mid.slot_count());
                assert(!mid.is_filled_at(fl[j + 1]));
                assert(fl[0] != fl[j + 1]);
                assert(post.slots@[fl[j + 1]] == mid.slots@[fl[j + 1]]);
                assert(mid.empty_next_at(fl[j + 1]) == if j + 2 < fl.len() {
                    fl[j + 2]
                } else {
                    mid.slot_count()
                });
                if j + 1 < fl.skip(1).len() {
                    assert(fl.skip(1)[j + 1] == fl[j + 2]);
                }
            }
            assert forall|j: int, k2: int| 0 <= j < k2 < fl.skip(1).len() implies #[trigger] fl.skip(
                1,
            )[j] != #[trigger] fl.skip(1)[k2] by {
                assert(fl.skip(1)[j] == fl[j + 1]);
                assert(fl.skip(1)[k2] == fl[k2 + 1]);
            }
            if fl.skip(1).len() == 0 {
                assert(post.free_head() == post.slot_count());
            } else {
                assert(fl.skip(1)[0] == fl[1]);
            }
            assert forall|j: int| 0 <= j < post.slot_count() implies (#[trigger] post.is_filled_at(
                j,
            ) <==> post.gen_at(j).filled_spec()) by {
                if j == i_ {
                    assert(post.is_filled_at(j));
                } else {
                    assert(post.slots@[j] == mid.slots@[j]);
                    assert(mid.is_filled_at(j) <==> mid.gen_at(j).filled_spec());
                }
            }
            assert(post.wf());
            Self::lemma_count_bounds(mid.slots@);
            assert(key.index_spec() == pre.next_index());
            assert(!pre.key_live(key));
            assert(post.key_live(key));
            assert(post.value_of(key) == value);
            assert(post.gen_at(pre.next_index()) == pre.next_gen());
            assert forall|j: int|
                #![trigger post.in_free_list(j)]
                #![trigger pre.in_free_list(j)]
                post.in_free_list(j) <==> (pre.in_free_list(j) && j != i_) by {
                assert(post.in_free_list(j) == fl.skip(1).contains(j));
                assert(fl.skip(1).contains(j) <==> (fl.contains(j) && j != fl[0]));
                if pre.free_head() == pre.slot_count() {
                    assert(pre.free_seq().len() == 0);
                    assert(!pre.in_free_list(j));
                    if fl.contains(j) {
                        let m = choose|m: int| 0 <= m < fl.len() && fl[m] == j;
                        assert(m == 0);
                    }
                } else {
                    assert(pre.free_seq() == fl);
                }
            }
            assert(post.free_head() == if i_ < pre.slot_count() {
                pre.empty_next_at(i_)
            } else {
                i_ + 1
            });
            assert(post.live_count() == pre.live_count() + 1);
            assert(post.slot_count() == if i_ == pre.slot_count() {
                pre.slot_count() + 1
            } else {
                pre.slot_count()
            });
            assert(post.is_filled_at(i_) && post.value_at(i_) == value);
            assert forall|j: int| 0 <= j < pre.slot_count() && j != i_ implies {
                &&& #[trigger] post.gen_at(j) == pre.gen_at(j)
                &&& (post.is_filled_at(j) <==> pre.is_filled_at(j))
                &&& (pre.is_filled_at(j) ==> post.value_at(j) == pre.value_at(j))
                &&& (!pre.is_filled_at(j) ==> post.empty_next_at(j) == pre.empty_next_at(j))
            } by {
                assert(post.slots@[j] == mid.slots@[j]);
                assert(mid.gen_at(j) == pre.gen_at(j));
                assert(mid.is_filled_at(j) <==> pre.is_filled_at(j));
                if pre.is_filled_at(j) {
                    assert(mid.value_at(j) == pre.value_at(j));
                } else {
                    assert(mid.empty_next_at(j) == pre.empty_next_at(j));
                }
            }
            assert forall|j: int|
                0 <= j < pre.slot_count() && j != i_ && !pre.is_filled_at(j) implies #[trigger] post
                .empty_next_at(j) == pre.empty_next_at(j) by {
                assert(post.gen_at(j) == pre.gen_at(j));
            }
            assert forall|j: int|
                0 <= j < pre.slot_count() && j != i_ && pre.is_filled_at(j) implies #[trigger] post
                .value_at(j) == pre.value_at(j) by {
                assert(post.gen_at(j) == pre.gen_at(j));
            }
            assert forall|j: int| 0 <= j < pre.slot_count() && j != i_ implies (#[trigger] post
                .is_filled_at(j) <==> pre.is_filled_at(j)) by {
                assert(post.gen_at(j) == pre.gen_at(j));
            }
            assert(Self::inserted(pre, post, key, value));
        }
        key
    }
}

/// A reserved place for one value in a [`GenericSparseArena`], created by
/// [`GenericSparseArena::vacant_slot`]. It records the slot the next
/// insertion will fill together with the key that insertion will be
/// accounted under, so that the key can be read before the value is built.
pub struct VacantSlot<K> {
    index: usize,
    key: K,
}

impl<K> VacantSlot<K> {
    /// The index of the slot this reservation is for.
    pub closed spec fn index_spec(&self) -> int {
        self.index as int
    }

    /// The key an insertion through this reservation is accounted under.
    pub closed spec fn key_spec(&self) -> K {
        self.key
    }
}

impl<K: Copy> VacantSlot<K> {
    /// Get the key that will be associated with this slot once it is filled.
    pub fn key(&self) -> (r: K)
        ensures
            r == self.key_spec(),
    {
        self.key
    }
}

impl<K> VacantSlot<K> {
    /// The raw index of the reserved slot; the dense tracker records it in
    /// its position table.
    pub(crate) fn slot_index(&self) -> (r: usize)
        ensures
            r as int == self.index_spec(),
    {
        self.index
    }
}

impl<K> VacantSlot<K> {
    /// Whether this reservation was taken from `a` in its current state:
    /// it names the slot the next insertion fills, and its key is valid for
    /// the generation that insertion will stamp.
    pub open spec fn is_vacant_for<T, O, G: Generation, I: InternalIndex>(
        &self,
        a: GenericSparseArena<T, O, G, I>,
    ) -> bool where K: ArenaIndex<O, G> {
        &&& self.index_spec() == a.next_index()
        &&& self.key_spec().index_spec() == a.next_index()
        &&& forall|g2: G|
            g2.matches_spec(a.next_gen().to_filled_spec()) ==> #[trigger] self.key_spec()
                .key_matches(g2)
    }

    /// Insert a value into the reserved slot. The arena must not have been
    /// changed since the reservation was taken.
    pub fn insert<T, O, G: Generation, I: InternalIndex>(
        self,
        arena: &mut GenericSparseArena<T, O, G, I>,
        value: T,
    ) where K: ArenaIndex<O, G>
        requires
            old(arena).wf(),
            old(arena).can_insert::<K>(),
            self.is_vacant_for(*old(arena)),
        ensures
            GenericSparseArena::inserted(*old(arena), *final(arena), self.key_spec(), value),
    {
        let ghost pre = *old(arena);
        let _: K = arena.insert(value);
        proof {
            let post = *arena;
            let k = self.key_spec();
            let i = pre.next_index();
            if i < pre.slot_count() {
                assert(pre.free_seq().len() > 0);
                assert(pre.free_seq()[0] == i);
                assert(!pre.is_filled_at(i));
                k.lemma_key_matches_filled(pre.gen_at(i));
            } else {
                G::lemma_empty();
            }
            let g0 = if i < pre.slot_count() {
                pre.gen_at(i)
            } else {
                G::empty_spec()
            };
            g0.lemma_fill();
            assert(pre.next_gen() == g0.fill_spec());
            assert(g0.fill_spec().matches_spec(pre.next_gen().to_filled_spec()));
            assert(k.key_matches(pre.next_gen()));
            assert(GenericSparseArena::inserted(pre, post, k, value));
        }
    }
}

impl<T, O, G: Generation, I: InternalIndex> GenericSparseArena<T, O, G, I> {
    /// Reserve the slot the next insertion will fill, without changing the
    /// arena. The reservation records the key of the coming insertion, so a
    /// value that must know its own key can be built before it is inserted.
    #[inline]
    pub fn vacant_slot<K: ArenaIndex<O, G>>(&mut self) -> (r: VacantSlot<K>)
        requires
            old(self).wf(),
            old(self).can_insert::<K>(),
        ensures
            *final(self) == *old(self),
            r.is_vacant_for(*old(self)),
    {
        let i = self.free_list_head;
        let n = self.slots.len();
        let g: G = if i < n {
            match &self.slots[i] {
                Slot::Empty { generation, .. } => *generation,
                Slot::Filled { .. } => {
                    proof {
                        assert(self.free_seq().len() > 0);
                        assert(!self.is_filled_at(self.free_seq()[0]));
                        assert(false);
                    }
                    G::empty()
                },
            }
        } else {
            proof {
                G::lemma_empty();
            }
            G::empty()
        };
        proof {
            assert(i < n ==> !self.is_filled_at(i as int));
            g.lemma_fill();
        }
        let gf = g.fill();
        let snap = gf.to_filled();
        let key: K = K::new(i, &self.owner, snap);
        VacantSlot { index: i, key }
    }

    /// Get a reference to the value associated with the key.
    ///
    /// Returns `None` exactly when the key is dead: out of bounds, or its
    /// snapshot no longer matches the slot's generation.
    #[inline]
    pub fn get<K: ArenaIndex<O, G>>(&self, key: K) -> (r: Option<&T>)
        requires
            self.wf(),
        ensures
            match r {
                Some(v) => self.key_live(key) && *v == self.value_of(key),
                None => !self.key_live(key),
            },
    {
        let i = key.to_index();
        if i >= self.slots.len() {
            return None;
        }
        match &self.slots[i] {
            Slot::Filled { generation, value } => {
                if key.matches_generation(*generation) {
                    Some(value)
                } else {
                    None
                }
            },
            Slot::Empty { generation, .. } => {
                proof {
                    key.lemma_key_matches_filled(*generation);
                    assert(!self.is_filled_at(i as int));
                }
                None
            },
        }
    }

    /// Get a mutable reference to the value associated with the key.
    ///
    /// Returns `None` exactly when the key is dead, leaving the arena
    /// unchanged; otherwise the only change to the arena is what the caller
    /// writes through the returned reference, and
    /// [`Self::lemma_value_written`] recovers well-formedness from that shape.
    #[inline]
    pub fn get_mut<K: ArenaIndex<O, G>>(&mut self, key: K) -> (r: Option<&mut T>)
        requires
            old(self).wf(),
        ensures
            old(self).key_live(key) ==> r is Some && *r.unwrap() == old(self).value_of(key)
                && Self::value_written(
                *old(self),
                *final(self),
                key.index_spec(),
                *final(r.unwrap()),
            ),
            !old(self).key_live(key) ==> r is None && *final(self) == *old(self),
    {
        let ghost pre = *old(self);
        let i = key.to_index();
        if i >= self.slots.len() {
            return None;
        }
        let live = match &self.slots[i] {
            Slot::Filled { generation, .. } => key.matches_generation(*generation),
            Slot::Empty { generation, .. } => {
                proof {
                    key.lemma_key_matches_filled(*generation);
                    assert(!self.is_filled_at(i as int));
                }
                false
            },
        };
        if !live {
            return None;
        }
        proof {
            key.lemma_key_matches_filled(pre.gen_at(i as int));
        }
        match &mut self.slots[i] {
            Slot::Filled { value, .. } => {
                proof {
                    Self::lemma_count_update(
                        pre.slots@,
                        i as int,
                        Slot::Filled { generation: pre.gen_at(i as int), value: *value },
                    );
                }
                Some(value)
            },
            Slot::Empty { .. } => {
                proof {
                    assert(false);
                }
                None
            },
        }
    }

    /// Replace the value in the filled slot at `i`. This is the positional
    /// update that the dense tracker uses to patch a forward entry after a
    /// swap-removal.
    pub(crate) fn set_value_at_index(&mut self, i: usize, v: T)
        requires
            old(self).wf(),
            (i as int) < old(self).slot_count(),
            old(self).is_filled_at(i as int),
        ensures
            Self::mutated(*old(self), *final(self), i as int, v),
    {
        let ghost pre = *old(self);
        let g: G = match &self.slots[i] {
            Slot::Filled { generation, .. } => *generation,
            Slot::Empty { generation, .. } => {
                proof {
                    assert(false);
                }
                *generation
            },
        };
        proof {
            Self::lemma_count_update(pre.slots@, i as int, Slot::Filled { generation: g, value: v });
        }
        let slot = &mut self.slots[i];
        *slot = Slot::Filled { generation: g, value: v };
        proof {
            let post = *self;
            assert(Self::value_written(pre, post, i as int, v));
            Self::lemma_value_written(pre, post, i as int, v);
        }
    }

    /// Two sequences joined by prepending one element contain that element
    /// and everything the rest contains.
    proof fn lemma_cons_contains(fl: Seq<int>, x: int)
        ensures
            forall|y: int| #[trigger]
                (seq![x] + fl).contains(y) <==> (y == x || fl.contains(y)),
    {
        let joined = seq![x] + fl;
        assert forall|y: int| #[trigger] joined.contains(y) implies (y == x || fl.contains(y)) by {
            let m = choose|m: int| 0 <= m < joined.len() && joined[m] == y;
            if m > 0 {
                assert(fl[m - 1] == y);
            }
        }
        assert forall|y: int| (y == x || fl.contains(y)) implies #[trigger] joined.contains(y) by {
            if y == x {
                assert(joined[0] == y);
            } else {
                let m = choose|m: int| 0 <= m < fl.len() && fl[m] == y;
                assert(joined[m + 1] == y);
            }
        }
    }

    /// Try to remove the value associated with the key.
    ///
    /// Returns `None` and leaves the arena untouched exactly when the key is
    /// dead; a stale key can be presented any number of times without any
    /// effect. On success the slot is emptied and pushed onto the front of
    /// the free list, or retired when its generation is exhausted.
    #[inline]
    pub fn try_remove<K: ArenaIndex<O, G>>(&mut self, key: K) -> (r: Option<T>)
        requires
            old(self).wf(),
        ensures
            old(self).key_live(key) ==> r == Some(old(self).value_of(key)) && Self::removed(
                *old(self),
                *final(self),
                key,
            ),
            !old(self).key_live(key) ==> r is None && *final(self) == *old(self),
    {
        let ghost pre = *old(self);
        let i = key.to_index();
        if i >= self.slots.len() {
            return None;
        }
        let g: G = match &self.slots[i] {
            Slot::Filled { generation, .. } => *generation,
            Slot::Empty { generation, .. } => *generation,
        };
        let live = key.matches_generation(g);
        if !live {
            return None;
        }
        proof {
            key.lemma_key_matches_filled(g);
            assert(self.is_filled_at(i as int));
        }
        let g2opt = g.try_empty();
        let (newgen, newnext): (G, I) = match g2opt {
            Some(g2) => (g2, I::from_usize(self.free_list_head)),
            None => {
                proof {
                    G::lemma_empty();
                }
                (G::empty(), I::from_usize(i))
            },
        };
        proof {
            if g.try_empty_ok() {
                g.lemma_try_empty();
            }
        }
        let mut taken = Slot::Empty { generation: newgen, next_empty_slot: newnext };
        proof {
            Self::lemma_count_update(pre.slots@, i as int, taken);
        }
        let slot = &mut self.slots[i];
        core::mem::swap(slot, &mut taken);
        let relink = match &g2opt {
            Some(_) => true,
            None => false,
        };
        if relink {
            self.free_list_head = i;
            proof {
                self.free@ = seq![i as int] + pre.free_seq();
            }
        }
        proof {
            let post = *self;
            let fl = pre.free_seq();
            let i_ = i as int;
            assert(post.slots@ == pre.slots@.update(i_, Slot::Empty { generation: newgen, next_empty_slot: newnext }));
            key.lemma_key_matches_filled(post.gen_at(i_));
            // every slot in the old free list is not the removed slot
            assert forall|j: int| 0 <= j < fl.len() implies #[trigger] fl[j] != i_ by {
                assert(!pre.is_filled_at(fl[j]));
            }
            assert forall|j: int| 0 <= j < fl.len() implies {
                &&& 0 <= #[trigger] fl[j] < post.slot_count()
                &&& !post.is_filled_at(fl[j])
                &&& post.empty_next_at(fl[j]) == pre.empty_next_at(fl[j])
            } by {
                assert(post.slots@[fl[j]] == pre.slots@[fl[j]]);
            }
            assert forall|j: int| 0 <= j < pre.slot_count() && j != i_ implies {
                &&& #[trigger] post.gen_at(j) == pre.gen_at(j)
                &&& (post.is_filled_at(j) <==> pre.is_filled_at(j))
                &&& (pre.is_filled_at(j) ==> post.value_at(j) == pre.value_at(j))
                &&& (!pre.is_filled_at(j) ==> post.empty_next_at(j) == pre.empty_next_at(j))
            } by {
                assert(post.slots@[j] == pre.slots@[j]);
            }
            if relink {
                let fl2 = seq![i_] + fl;
                assert(post.free_seq() == fl2);
                Self::lemma_cons_contains(fl, i_);
                assert(fl2[0] == i_);
                assert(post.empty_next_at(i_) == pre.free_head());
                assert forall|j: int| 0 <= j < fl2.len() implies {
                    &&& 0 <= #[trigger] fl2[j] < post.slot_count()
                    &&& !post.is_filled_at(fl2[j])
                    &&& post.empty_next_at(fl2[j]) == if j + 1 < fl2.len() {
                        fl2[j + 1]
                    } else {
                        post.slot_count()
                    }
                } by {
                    if j == 0 {
                        if fl.len() > 0 {
                            assert(fl2[1] == fl[0]);
                            assert(fl[0] == pre.free_head());
                        } else {
                            assert(pre.free_head() == pre.slot_count());
                        }
                    } else {
                        assert(fl2[j] == fl[j - 1]);
                        assert(pre.empty_next_at(fl[j - 1]) == if j < fl.len() {
                            fl[j]
                        } else {
                            pre.slot_count()
                        });
                        if j + 1 < fl2.len() {
                            assert(fl2[j + 1] == fl[j]);
                        }
                    }
                }
                assert forall|j: int, k2: int| 0 <= j < k2 < fl2.len() implies #[trigger] fl2[j]
                    != #[trigger] fl2[k2] by {
                    if j == 0 {
                        assert(fl2[k2] == fl[k2 - 1]);
                        assert(!pre.is_filled_at(fl[k2 - 1]));
                    } else {
                        assert(fl2[j] == fl[j - 1]);
                        assert(fl2[k2] == fl[k2 - 1]);
                    }
                }
                assert forall|j: int|
                    #![trigger post.in_free_list(j)]
                    #![trigger pre.in_free_list(j)]
                    post.in_free_list(j) <==> (pre.in_free_list(j) || j == i_) by {
                    assert(post.in_free_list(j) == fl2.contains(j));
                }
            } else {
                assert(post.free_seq() == fl);
                if fl.len() == 0 {
                    assert(post.free_head() == post.slot_count());
                }
            }
            assert forall|j: int| 0 <= j < post.slot_count() implies (#[trigger] post.is_filled_at(
                j,
            ) <==> post.gen_at(j).filled_spec()) by {
                if j != i_ {
                    assert(post.slots@[j] == pre.slots@[j]);
                    assert(pre.is_filled_at(j) <==> pre.gen_at(j).filled_spec());
                }
            }
            assert(post.wf());
            assert(Self::removed(pre, post, key));
        }
        match taken {
            Slot::Filled { value, .. } => Some(value),
            Slot::Empty { .. } => {
                proof {
                    assert(false);
                }
                None
            },
        }
    }

    /// Remove the value associated with the key, which must be live.
    #[inline]
    pub fn remove<K: ArenaIndex<O, G>>(&mut self, key: K) -> (r: T)
        requires
            old(self).wf(),
            old(self).key_live(key),
        ensures
            r == old(self).value_of(key),
            Self::removed(*old(self), *final(self), key),
    {
        let r = self.try_remove(key);
        r.unwrap()
    }

    /// Get a reference to the value associated with the key, which must be
    /// live.
    #[inline]
    pub fn index<K: ArenaIndex<O, G>>(&self, key: K) -> (r: &T)
        requires
            self.wf(),
            self.key_live(key),
        ensures
            *r == self.value_of(key),
    {
        let r = self.get(key);
        r.unwrap()
    }

    /// Get a mutable reference to the value associated with the key, which
    /// must be live.
    #[inline]
    pub fn index_mut<K: ArenaIndex<O, G>>(&mut self, key: K) -> (r: &mut T)
        requires
            old(self).wf(),
            old(self).key_live(key),
        ensures
            *r == old(self).value_of(key),
            Self::value_written(*old(self), *final(self), key.index_spec(), *final(r)),
    {
        let ghost pre = *old(self);
        let i = key.to_index();
        proof {
            key.lemma_key_matches_filled(pre.gen_at(i as int));
        }
        match &mut self.slots[i] {
            Slot::Filled { value, .. } => {
                proof {
                    Self::lemma_count_update(
                        pre.slots@,
                        i as int,
                        Slot::Filled { generation: pre.gen_at(i as int), value: *value },
                    );
                }
                value
            },
            Slot::Empty { .. } => {
                proof {
                    assert(!pre.is_filled_at(i as int));
                    assert(false);
                }
                vstd::pervasive::unreached()
            },
        }
    }

    /// Get the key of the filled slot at `index`, or `None` when `index` is
    /// out of bounds or the slot is empty.
    #[inline]
    pub fn try_key_of<K: ArenaIndex<O, G>>(&self, index: usize) -> (r: Option<K>)
        requires
            self.wf(),
            index as int <= K::max_index(),
        ensures
            match r {
                Some(k) => (index as int) < self.slot_count() && self.is_filled_at(index as int)
                    && k.index_spec() == index as int && self.key_live(k),
                None => !((index as int) < self.slot_count() && self.is_filled_at(index as int)),
            },
    {
        if index >= self.slots.len() {
            return None;
        }
        match &self.slots[index] {
            Slot::Filled { generation, .. } => {
                let g = *generation;
                proof {
                    assert(self.is_filled_at(index as int));
                    assert(self.gen_at(index as int).filled_spec());
                    g.lemma_to_filled_matches();
                }
                let snap = g.to_filled();
                let k: K = K::new(index, &self.owner, snap);
                Some(k)
            },
            Slot::Empty { .. } => None,
        }
    }

    /// Get the key of the filled slot at `index`, which must name a filled
    /// slot.
    #[inline]
    pub fn key_of<K: ArenaIndex<O, G>>(&self, index: usize) -> (r: K)
        requires
            self.wf(),
            index as int <= K::max_index(),
            (index as int) < self.slot_count(),
            self.is_filled_at(index as int),
        ensures
            r.index_spec() == index as int,
            self.key_live(r),
    {
        let r = self.try_key_of(index);
        r.unwrap()
    }

    /// Insert a value built from its own freshly minted key, and return
    /// that key.
    #[inline]
    pub fn insert_with<K: ArenaIndex<O, G>, F: FnOnce(K) -> T>(&mut self, value: F) -> (r: K)
        requires
            old(self).wf(),
            old(self).can_insert::<K>(),
            forall|k: K| call_requires(value, (k,)),
        ensures
            exists|v: T|
                #[trigger] call_ensures(value, (r,), v) && Self::inserted(
                    *old(self),
                    *final(self),
                    r,
                    v,
                ),
    {
        let slot: VacantSlot<K> = self.vacant_slot();
        let key = slot.key();
        let v = value(key);
        slot.insert(self, v);
        key
    }
}

impl<T, O, G: Generation, I: InternalIndex> GenericSparseArena<T, O, G, I> {
    /// Two distinct live keys never share a slot, so the values they reach
    /// never alias.
    pub proof fn lemma_live_keys_distinct<K: ArenaIndex<O, G>>(&self, k1: K, k2: K)
        requires
            self.wf(),
            self.key_live(k1),
            self.key_live(k2),
            k1 != k2,
        ensures
            k1.index_spec() != k2.index_spec(),
    {
        if k1.index_spec() == k2.index_spec() {
            k1.lemma_key_matches_unique(k2, self.gen_at(k1.index_spec()));
        }
    }

    /// Every key live before an insertion stays live and keeps its value:
    /// an insertion only touches a slot no live key occupies.
    pub proof fn lemma_inserted_preserves_other_keys<K: ArenaIndex<O, G>, K2: ArenaIndex<O, G>>(
        pre: Self,
        post: Self,
        k: K,
        v: T,
        k2: K2,
    )
        requires
            pre.wf(),
            Self::inserted(pre, post, k, v),
            pre.key_live(k2),
        ensures
            post.key_live(k2),
            post.value_of(k2) == pre.value_of(k2),
    {
        let i = pre.next_index();
        let j = k2.index_spec();
        pre.lemma_wf_facts();
        k2.lemma_key_matches_filled(pre.gen_at(j));
        if j == i {
            assert(i < pre.slot_count());
            assert(!pre.is_filled_at(i));
        }
        assert(post.gen_at(j) == pre.gen_at(j));
        assert(post.value_at(j) == pre.value_at(j));
    }

    /// Freeing slot S, then slot T, makes the next insertion reuse T's
    /// slot, and leaves S's slot next in line: slots come back
    /// most-recently-freed first.
    pub proof fn lemma_free_list_lifo<K: ArenaIndex<O, G>, K2: ArenaIndex<O, G>>(
        s0: Self,
        s1: Self,
        s2: Self,
        s3: Self,
        ks: K,
        kt: K,
        k3: K2,
        v: T,
    )
        requires
            s0.wf(),
            Self::removed_structure(s0, s1, ks),
            s0.gen_at(ks.index_spec()).try_empty_ok(),
            Self::removed_structure(s1, s2, kt),
            s1.gen_at(kt.index_spec()).try_empty_ok(),
            Self::inserted(s2, s3, k3, v),
        ensures
            k3.index_spec() == kt.index_spec(),
            s3.next_index() == ks.index_spec(),
    {
        s1.lemma_wf_facts();
        s2.lemma_wf_facts();
        s3.lemma_wf_facts();
        kt.lemma_key_matches_filled(s1.gen_at(kt.index_spec()));
        ks.lemma_key_matches_filled(s0.gen_at(ks.index_spec()));
        assert(s2.free_head() == kt.index_spec());
        assert(s2.next_index() == kt.index_spec());
        assert(s2.empty_next_at(kt.index_spec()) == s1.free_head());
        assert(s1.free_head() == ks.index_spec());
        assert(s3.free_head() == ks.index_spec());
        assert(0 <= ks.index_spec() < s3.slot_count());
    }
}

impl<T, O, G: OrderedGeneration, I: InternalIndex> GenericSparseArena<T, O, G, I> {
    /// Whether the snapshot-carrying key `k` is stale: the generation of
    /// its slot has moved past the key's snapshot, or the slot has been
    /// retired. Under an [`OrderedGeneration`] policy a stale key stays
    /// stale for the remainder of the arena's life
    /// ([`Self::lemma_insert_preserves_stale`],
    /// [`Self::lemma_remove_preserves_stale`],
    /// [`Self::lemma_mutate_preserves_stale`]) and never reaches a value
    /// ([`Self::lemma_stale_is_dead`]).
    pub open spec fn key_stale<K: ArenaIndex<O, G>>(&self, k: K) -> bool {
        &&& k.generation_snapshot() is Some
        &&& 0 <= k.index_spec() < self.slot_count()
        &&& {
            let g = self.gen_at(k.index_spec());
            ||| G::snap_count(k.generation_snapshot()->0) < g.gen_count()
            ||| (!g.filled_spec() && !self.in_free_list(k.index_spec()))
        }
    }

    /// A stale key is dead: every checked accessor rejects it.
    pub proof fn lemma_stale_is_dead<K: ArenaIndex<O, G>>(&self, k: K)
        requires
            self.wf(),
            self.key_stale(k),
        ensures
            !self.key_live(k),
    {
        let g = self.gen_at(k.index_spec());
        k.lemma_snapshot_matches(g);
        k.lemma_key_matches_filled(g);
        if self.key_live(k) {
            g.lemma_matches_count(k.generation_snapshot()->0);
        }
    }

    /// A successful removal leaves the removed key stale.
    pub proof fn lemma_removed_key_stale<K: ArenaIndex<O, G>>(pre: Self, post: Self, k: K)
        requires
            pre.wf(),
            Self::removed_structure(pre, post, k),
            k.generation_snapshot() is Some,
        ensures
            post.key_stale(k),
    {
        let i = k.index_spec();
        let g = pre.gen_at(i);
        pre.lemma_wf_facts();
        k.lemma_snapshot_matches(g);
        g.lemma_matches_count(k.generation_snapshot()->0);
        k.lemma_key_matches_filled(g);
        if g.try_empty_ok() {
            g.lemma_try_empty_count();
        } else {
            G::lemma_empty();
            assert(!pre.in_free_list(i));
            assert(!post.in_free_list(i));
        }
    }

    /// An insertion cannot revive a stale key.
    pub proof fn lemma_insert_preserves_stale<K: ArenaIndex<O, G>, K2: ArenaIndex<O, G>>(
        pre: Self,
        post: Self,
        k: K,
        v: T,
        k2: K2,
    )
        requires
            pre.wf(),
            Self::inserted(pre, post, k, v),
            pre.key_stale(k2),
        ensures
            post.key_stale(k2),
    {
        let i = pre.next_index();
        let j = k2.index_spec();
        pre.lemma_wf_facts();
        if j == i {
            let g = pre.gen_at(i);
            assert(pre.in_free_list(i));
            assert(G::snap_count(k2.generation_snapshot()->0) < g.gen_count());
            assert(!pre.is_filled_at(i));
            assert(!g.filled_spec());
            g.lemma_fill_count();
            assert(post.gen_at(i) == g.fill_spec());
        } else {
            assert(post.gen_at(j) == pre.gen_at(j));
            assert(!post.in_free_list(j) || pre.in_free_list(j));
        }
    }

    /// A removal cannot revive a stale key.
    pub proof fn lemma_remove_preserves_stale<K: ArenaIndex<O, G>, K2: ArenaIndex<O, G>>(
        pre: Self,
        post: Self,
        k: K,
        k2: K2,
    )
        requires
            pre.wf(),
            Self::removed_structure(pre, post, k),
            pre.key_stale(k2),
        ensures
            post.key_stale(k2),
    {
        let i = k.index_spec();
        let j = k2.index_spec();
        let g = pre.gen_at(i);
        pre.lemma_wf_facts();
        k.lemma_key_matches_filled(g);
        if j == i {
            assert(pre.is_filled_at(i));
            assert(G::snap_count(k2.generation_snapshot()->0) < g.gen_count());
            if g.try_empty_ok() {
                g.lemma_try_empty_count();
            } else {
                G::lemma_empty();
                assert(!pre.in_free_list(i));
                assert(!post.in_free_list(i));
            }
        } else {
            assert(post.gen_at(j) == pre.gen_at(j));
        }
    }

    /// Writing a value through a live key cannot revive a stale key.
    pub proof fn lemma_mutate_preserves_stale<K: ArenaIndex<O, G>>(
        pre: Self,
        post: Self,
        i: int,
        v: T,
        k2: K,
    )
        requires
            pre.wf(),
            Self::mutated(pre, post, i, v),
            pre.key_stale(k2),
        ensures
            post.key_stale(k2),
    {
    }
}

/// An iterator over references to the values of a [`GenericSparseArena`],
/// created by [`GenericSparseArena::values`]. It scans every slot, so one
/// pass costs time proportional to the slot count, not the live count.
pub struct Values<'a, T, O, G: Generation, I: InternalIndex> {
    arena: &'a GenericSparseArena<T, O, G, I>,
    pos: usize,
}

/// An iterator over keys and references to the values of a
/// [`GenericSparseArena`], created by [`GenericSparseArena::iter`].
pub struct Iter<'a, K, T, O, G: Generation, I: InternalIndex> {
    arena: &'a GenericSparseArena<T, O, G, I>,
    pos: usize,
    marker: core::marker::PhantomData<K>,
}

/// An iterator over the keys of a [`GenericSparseArena`], created by
/// [`GenericSparseArena::keys`].
pub struct Keys<'a, K, T, O, G: Generation, I: InternalIndex> {
    iter: Iter<'a, K, T, O, G, I>,
}

impl<'a, T, O, G: Generation, I: InternalIndex> Values<'a, T, O, G, I> {
    /// The arena this iterator walks.
    pub closed spec fn arena_spec(&self) -> GenericSparseArena<T, O, G, I> {
        *self.arena
    }

    /// The next slot this iterator will look at.
    pub closed spec fn pos_spec(&self) -> int {
        self.pos as int
    }

    /// A reference to the value of the first filled slot at or after the
    /// cursor, stepping the cursor past it; `None` once no filled slot is
    /// left.
    pub fn next(&mut self) -> (r: Option<&'a T>)
        requires
            old(self).arena_spec().wf(),
        ensures
            final(self).arena_spec() == old(self).arena_spec(),
            ({
                let a = old(self).arena_spec();
                let j = a.next_filled_from(old(self).pos_spec());
                match r {
                    Some(v) => j < a.slot_count() && a.is_filled_at(j) && *v == a.value_at(j)
                        && final(self).pos_spec() == j + 1,
                    None => j == a.slot_count() && final(self).pos_spec() == a.slot_count(),
                }
            }),
    {
        let ghost self0 = *self;
        let n = self.arena.slots.len();
        let mut i = self.pos;
        if i > n {
            i = n;
        }
        let mut found = false;
        while i < n && !found
            invariant
                *self == self0,
                self0.arena_spec().wf(),
                n as int == self0.arena_spec().slot_count(),
                i as int <= n as int,
                !found ==> self0.arena_spec().next_filled_from(self0.pos_spec())
                    == self0.arena_spec().next_filled_from(i as int),
                found ==> (i as int) < n as int && self0.arena_spec().is_filled_at(i as int)
                    && self0.arena_spec().next_filled_from(self0.pos_spec()) == i as int,
            decreases n - i, (if found { 0int } else { 1int }),
        {
            match &self.arena.slots[i] {
                Slot::Filled { .. } => {
                    found = true;
                },
                Slot::Empty { .. } => {
                    i = i + 1;
                },
            }
        }
        if !found {
            self.pos = n;
            return None;
        }
        self.pos = i + 1;
        match &self.arena.slots[i] {
            Slot::Filled { value, .. } => Some(value),
            Slot::Empty { .. } => {
                proof {
                    assert(false);
                }
                None
            },
        }
    }
}

impl<'a, K: ArenaIndex<O, G>, T, O, G: Generation, I: InternalIndex> Iter<'a, K, T, O, G, I> {
    /// The arena this iterator walks.
    pub closed spec fn arena_spec(&self) -> GenericSparseArena<T, O, G, I> {
        *self.arena
    }

    /// The next slot this iterator will look at.
    pub closed spec fn pos_spec(&self) -> int {
        self.pos as int
    }

    /// The key and value of the first filled slot at or after the cursor,
    /// stepping the cursor past it; `None` once no filled slot is left.
    pub fn next(&mut self) -> (r: Option<(K, &'a T)>)
        requires
            old(self).arena_spec().wf(),
            old(self).arena_spec().slot_count() <= K::max_index() + 1,
        ensures
            final(self).arena_spec() == old(self).arena_spec(),
            ({
                let a = old(self).arena_spec();
                let j = a.next_filled_from(old(self).pos_spec());
                match r {
                    Some(kv) => j < a.slot_count() && a.is_filled_at(j) && kv.0.index_spec() == j
                        && a.key_live(kv.0) && *kv.1 == a.value_at(j) && final(self).pos_spec() == j
                        + 1,
                    None => j == a.slot_count() && final(self).pos_spec() == a.slot_count(),
                }
            }),
    {
        let ghost self0 = *self;
        let n = self.arena.slots.len();
        let mut i = self.pos;
        if i > n {
            i = n;
        }
        let mut found = false;
        while i < n && !found
            invariant
                *self == self0,
                self0.arena_spec().wf(),
                self0.arena_spec().slot_count() <= K::max_index() + 1,
                n as int == self0.arena_spec().slot_count(),
                i as int <= n as int,
                !found ==> self0.arena_spec().next_filled_from(self0.pos_spec())
                    == self0.arena_spec().next_filled_from(i as int),
                found ==> (i as int) < n as int && self0.arena_spec().is_filled_at(i as int)
                    && self0.arena_spec().next_filled_from(self0.pos_spec()) == i as int,
            decreases n - i, (if found { 0int } else { 1int }),
        {
            match &self.arena.slots[i] {
                Slot::Filled { .. } => {
                    found = true;
                },
                Slot::Empty { .. } => {
                    i = i + 1;
                },
            }
        }
        if !found {
            self.pos = n;
            return None;
        }
        self.pos = i + 1;
        match &self.arena.slots[i] {
            Slot::Filled { generation, value } => {
                let g = *generation;
                proof {
                    assert(self0.arena_spec().gen_at(i as int).filled_spec());
                    g.lemma_to_filled_matches();
                }
                let snap = g.to_filled();
                let key: K = K::new(i, &self.arena.owner, snap);
                Some((key, value))
            },
            Slot::Empty { .. } => {
                proof {
                    assert(false);
                }
                None
            },
        }
    }
}

impl<'a, K: ArenaIndex<O, G>, T, O, G: Generation, I: InternalIndex> Keys<'a, K, T, O, G, I> {
    /// The arena this iterator walks.
    pub open spec fn arena_spec(&self) -> GenericSparseArena<T, O, G, I> {
        self.iter_spec().arena_spec()
    }

    /// The iterator behind this one.
    pub closed spec fn iter_spec(&self) -> Iter<'a, K, T, O, G, I> {
        self.iter
    }

    /// The next slot this iterator will look at.
    pub open spec fn pos_spec(&self) -> int {
        self.iter_spec().pos_spec()
    }

    /// The key of the first filled slot at or after the cursor, stepping
    /// the cursor past it; `None` once no filled slot is left.
    pub fn next(&mut self) -> (r: Option<K>)
        requires
            old(self).arena_spec().wf(),
            old(self).arena_spec().slot_count() <= K::max_index() + 1,
        ensures
            final(self).arena_spec() == old(self).arena_spec(),
            ({
                let a = old(self).arena_spec();
                let j = a.next_filled_from(old(self).pos_spec());
                match r {
                    Some(k) => j < a.slot_count() && a.is_filled_at(j) && k.index_spec() == j
                        && a.key_live(k) && final(self).pos_spec() == j + 1,
                    None => j == a.slot_count() && final(self).pos_spec() == a.slot_count(),
                }
            }),
    {
        match self.iter.next() {
            Some(kv) => Some(kv.0),
            None => None,
        }
    }
}

/// An iterator over mutable references to the values of a
/// [`GenericSparseArena`], created by [`GenericSparseArena::values_mut`].
/// It holds no borrow itself: the arena is handed to every
/// [`ValuesMut::next`] call.
pub struct ValuesMut {
    pos: usize,
}

impl ValuesMut {
    /// The next slot this iterator will look at.
    pub closed spec fn pos_spec(&self) -> int {
        self.pos as int
    }

    /// A mutable reference to the value of the first filled slot at or
    /// after the cursor, stepping the cursor past it; `None` once no
    /// filled slot is left. The only change to the arena is what the
    /// caller writes through the returned reference.
    pub fn next<'a, T, O, G: Generation, I: InternalIndex>(
        &mut self,
        arena: &'a mut GenericSparseArena<T, O, G, I>,
    ) -> (r: Option<&'a mut T>)
        requires
            old(arena).wf(),
        ensures
            ({
                let a = *old(arena);
                let j = a.next_filled_from(old(self).pos_spec());
                match r {
                    Some(v) => j < a.slot_count() && a.is_filled_at(j) && *v == a.value_at(j)
                        && final(self).pos_spec() == j + 1
                        && GenericSparseArena::value_written(a, *final(arena), j, *final(v)),
                    None => j == a.slot_count() && final(self).pos_spec() == a.slot_count()
                        && *final(arena) == a,
                }
            }),
    {
        let ghost p0 = self.pos as int;
        let ghost a0 = *arena;
        let n = arena.slots.len();
        let mut i = self.pos;
        if i > n {
            i = n;
        }
        let mut found = false;
        while i < n && !found
            invariant
                a0.wf(),
                *arena == a0,
                n as int == a0.slot_count(),
                i as int <= n as int,
                !found ==> a0.next_filled_from(p0) == a0.next_filled_from(i as int),
                found ==> (i as int) < n as int && a0.is_filled_at(i as int)
                    && a0.next_filled_from(p0) == i as int,
            decreases n - i, (if found { 0int } else { 1int }),
        {
            match &arena.slots[i] {
                Slot::Filled { .. } => {
                    found = true;
                },
                Slot::Empty { .. } => {
                    i = i + 1;
                },
            }
        }
        if !found {
            self.pos = n;
            return None;
        }
        self.pos = i + 1;
        match &mut arena.slots[i] {
            Slot::Filled { value, .. } => Some(value),
            Slot::Empty { .. } => {
                proof {
                    assert(false);
                }
                None
            },
        }
    }
}

/// An iterator over keys and mutable references to the values of a
/// [`GenericSparseArena`], created by [`GenericSparseArena::iter_mut`]. It
/// holds no borrow itself: the arena is handed to every [`IterMut::next`]
/// call.
pub struct IterMut {
    pos: usize,
}

impl IterMut {
    /// The next slot this iterator will look at.
    pub closed spec fn pos_spec(&self) -> int {
        self.pos as int
    }

    /// The key and a mutable reference to the value of the first filled
    /// slot at or after the cursor, stepping the cursor past it; `None`
    /// once no filled slot is left. The only change to the arena is what
    /// the caller writes through the returned reference.
    pub fn next<'a, K: ArenaIndex<O, G>, T, O, G: Generation, I: InternalIndex>(
        &mut self,
        arena: &'a mut GenericSparseArena<T, O, G, I>,
    ) -> (r: Option<(K, &'a mut T)>)
        requires
            old(arena).wf(),
            old(arena).slot_count() <= K::max_index() + 1,
        ensures
            ({
                let a = *old(arena);
                let j = a.next_filled_from(old(self).pos_spec());
                match r {
                    Some(kv) => j < a.slot_count() && a.is_filled_at(j) && kv.0.index_spec() == j
                        && a.key_live(kv.0) && *kv.1 == a.value_at(j) && final(self).pos_spec() == j
                        + 1 && GenericSparseArena::value_written(a, *final(arena), j, *final(kv.1)),
                    None => j == a.slot_count() && final(self).pos_spec() == a.slot_count()
                        && *final(arena) == a,
                }
            }),
    {
        let ghost p0 = self.pos as int;
        let ghost a0 = *arena;
        let n = arena.slots.len();
        let mut i = self.pos;
        if i > n {
            i = n;
        }
        let mut found = false;
        while i < n && !found
            invariant
                a0.wf(),
                *arena == a0,
                n as int == a0.slot_count(),
                i as int <= n as int,
                !found ==> a0.next_filled_from(p0) == a0.next_filled_from(i as int),
                found ==> (i as int) < n as int && a0.is_filled_at(i as int)
                    && a0.next_filled_from(p0) == i as int,
            decreases n - i, (if found { 0int } else { 1int }),
        {
            match &arena.slots[i] {
                Slot::Filled { .. } => {
                    found = true;
                },
                Slot::Empty { .. } => {
                    i = i + 1;
                },
            }
        }
        if !found {
            self.pos = n;
            return None;
        }
        let g: G = match &arena.slots[i] {
            Slot::Filled { generation, .. } => *generation,
            Slot::Empty { .. } => {
                proof {
                    assert(false);
                }
                G::empty()
            },
        };
        proof {
            assert(a0.gen_at(i as int).filled_spec());
            g.lemma_to_filled_matches();
        }
        let snap = g.to_filled();
        let key: K = K::new(i, &arena.owner, snap);
        self.pos = i + 1;
        match &mut arena.slots[i] {
            Slot::Filled { value, .. } => Some((key, value)),
            Slot::Empty { .. } => {
                proof {
                    assert(false);
                }
                None
            },
        }
    }
}

impl<T, O, G: Generation, I: InternalIndex> GenericSparseArena<T, O, G, I> {
    /// Get an iterator over references to the values of this arena.
    pub fn values(&self) -> (r: Values<'_, T, O, G, I>)
        ensures
            r.arena_spec() == *self,
            r.pos_spec() == 0,
    {
        Values { arena: self, pos: 0 }
    }

    /// Get an iterator over the keys and references to the values of this
    /// arena.
    pub fn iter<K: ArenaIndex<O, G>>(&self) -> (r: Iter<'_, K, T, O, G, I>)
        ensures
            r.arena_spec() == *self,
            r.pos_spec() == 0,
    {
        Iter { arena: self, pos: 0, marker: core::marker::PhantomData }
    }

    /// Get an iterator over the keys of this arena.
    pub fn keys<K: ArenaIndex<O, G>>(&self) -> (r: Keys<'_, K, T, O, G, I>)
        ensures
            r.arena_spec() == *self,
            r.pos_spec() == 0,
    {
        Keys { iter: Iter { arena: self, pos: 0, marker: core::marker::PhantomData } }
    }

    /// Get an iterator over mutable references to the values of this
    /// arena; this arena is handed to each of its steps.
    pub fn values_mut(&mut self) -> (r: ValuesMut)
        ensures
            *final(self) == *old(self),
            r.pos_spec() == 0,
    {
        ValuesMut { pos: 0 }
    }

    /// Get an iterator over keys and mutable references to the values of
    /// this arena; this arena is handed to each of its steps.
    pub fn iter_mut(&mut self) -> (r: IterMut)
        ensures
            *final(self) == *old(self),
            r.pos_spec() == 0,
    {
        IterMut { pos: 0 }
    }
}

} // verus!
