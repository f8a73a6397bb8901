use ut_arena::dense_slab::DenseSlab;
use ut_arena::dense_slotmap::DenseSlotMap;
use ut_arena::generation::g8;
use ut_arena::generation::Generation;
use ut_arena::generation::NoGeneration;
use ut_arena::generation::gw8;
use ut_arena::generic_dense::GenericDenseArena;
use ut_arena::generic_sparse::GenericSparseArena;
use ut_arena::slab::Slab;
use ut_arena::slotmap::SlotMap;

type ArenaKey = ut_arena::key::ArenaKey<usize, g8>;

#[test]
fn basic() {
    let mut arena = GenericDenseArena::<u32, (), g8>::new();

    let a: ArenaKey = arena.insert(0);

    assert_eq!(*arena.index(a), 0);

    arena.remove(a);

    let b: ArenaKey = arena.insert(10);

    assert_eq!(a.index(), b.index());
    assert_eq!(*arena.index(b), 10);
    assert_eq!(arena.get(a), None);

    arena.remove(b);

    for _ in 0..126 {
        let a: ArenaKey = arena.insert(0);
        assert_eq!(a.index(), b.index());

        assert_eq!(*arena.index(a), 0);

        arena.remove(a);
    }

    // at this point we have exhausted the first slot, so it will never be
    // used again

    let a: ArenaKey = arena.insert(0);
    assert_ne!(a.index(), b.index());
}

#[test]
fn slab_test_basic() {
    let mut s = Slab::new();
    s.insert(10);
    s.insert(20);
    assert_eq!(*s.index(0), 10);
    assert_eq!(*s.index(1), 20);
    s.remove(0);
    assert_eq!(*s.index(1), 20);
}

#[test]
fn slotmap_test_basic() {
    let mut s = SlotMap::new();
    let a = s.insert(10);
    let b = s.insert(20);
    assert_eq!(*s.index(a), 10);
    assert_eq!(*s.index(b), 20);
    s.remove(a);
    assert_eq!(*s.index(b), 20);
}

#[test]
fn dense_slab_test_basic() {
    let mut s = DenseSlab::new();
    s.insert(10);
    s.insert(20);
    assert_eq!(*s.index(0), 10);
    assert_eq!(*s.index(1), 20);
    s.remove(0);
    assert_eq!(*s.index(1), 20);
}

#[test]
fn dense_slotmap_basic() {
    let mut s = DenseSlotMap::new();
    let a = s.insert(10);
    let b = s.insert(20);
    assert_eq!(*s.index(a), 10);
    assert_eq!(*s.index(b), 20);
    s.remove(a);
    assert_eq!(*s.index(b), 20);
}

#[test]
fn sparse_two_inserts_distinct_slots() {
    let mut arena = GenericSparseArena::<char, (), g8>::new();
    let ka: ArenaKey = arena.insert('a');
    let kb: ArenaKey = arena.insert('b');
    assert_eq!(ka.index(), 0);
    assert_eq!(kb.index(), 1);
    assert_eq!(*arena.index(ka), 'a');
    assert_eq!(*arena.index(kb), 'b');
}

#[test]
fn sparse_reuse_rejects_stale_key() {
    let mut arena = GenericSparseArena::<char, (), g8>::new();
    let ka: ArenaKey = arena.insert('a');
    let _kb: ArenaKey = arena.insert('b');
    assert_eq!(arena.remove(ka), 'a');
    assert_eq!(arena.try_remove(ka), None);
    // the slot of 'a' is reused, but under a fresh generation
    let kc: ArenaKey = arena.insert('c');
    assert_eq!(kc.index(), ka.index());
    assert_ne!(kc, ka);
    assert_eq!(arena.get(ka), None);
    assert_eq!(arena.try_remove(ka), None);
    assert_eq!(*arena.index(kc), 'c');
}

#[test]
fn stale_key_absent_twice() {
    let mut arena = GenericSparseArena::<u64, (), g8>::new();
    let k: ArenaKey = arena.insert(5);
    assert_eq!(arena.remove(k), 5);
    assert_eq!(arena.try_remove(k), None);
    assert_eq!(arena.try_remove(k), None);
    assert_eq!(arena.get(k), None);
    assert_eq!(arena.get_mut(k), None);
}

#[test]
fn free_list_is_lifo() {
    let mut arena = GenericSparseArena::<u8, (), g8>::new();
    let k0: ArenaKey = arena.insert(0);
    let k1: ArenaKey = arena.insert(1);
    let k2: ArenaKey = arena.insert(2);
    // free slot 0 (S), then slot 2 (T): the next insertions reuse T, then S
    arena.remove(k0);
    arena.remove(k2);
    let k3: ArenaKey = arena.insert(3);
    assert_eq!(k3.index(), k2.index());
    let k4: ArenaKey = arena.insert(4);
    assert_eq!(k4.index(), k0.index());
    assert_eq!(*arena.index(k1), 1);
}

#[test]
fn dense_swap_remove_redirects_last_key() {
    let mut arena = GenericDenseArena::<char, (), g8>::new();
    let ka: ArenaKey = arena.insert('a');
    let kb: ArenaKey = arena.insert('b');
    let kc: ArenaKey = arena.insert('c');
    assert_eq!(arena.remove(kb), 'b');
    let values = arena.values();
    assert_eq!(values.len(), 2);
    assert!(values.contains(&'a'));
    assert!(values.contains(&'c'));
    // the formerly last key now lives at the vacated position
    assert_eq!(*arena.index(kc), 'c');
    assert_eq!(*arena.index(ka), 'a');
    assert_eq!(arena.get(kb), None);
}

#[test]
fn dense_len_tracks_inserts_and_removes() {
    let mut arena = GenericDenseArena::<u32, (), g8>::new();
    let tracker = arena.tracker();
    assert_eq!(tracker.len(), 0);
    assert!(tracker.is_empty());
    let k1: ArenaKey = arena.insert(1);
    let k2: ArenaKey = arena.insert(2);
    assert_eq!(arena.tracker().len(), 2);
    arena.remove(k1);
    assert_eq!(arena.tracker().len(), 1);
    assert_eq!(arena.try_remove(k1), None);
    assert_eq!(arena.tracker().len(), 1);
    arena.remove(k2);
    assert_eq!(arena.tracker().len(), 0);
    assert!(arena.tracker().is_empty());
}

#[test]
fn sparse_get_mut_writes_value() {
    let mut arena = GenericSparseArena::<u32, (), g8>::new();
    let k: ArenaKey = arena.insert(1);
    *arena.get_mut(k).unwrap() = 9;
    assert_eq!(*arena.index(k), 9);
    *arena.index_mut(k) = 11;
    assert_eq!(arena.get(k), Some(&11));
}

#[test]
fn vacant_slot_hands_out_key_first() {
    let mut arena = GenericSparseArena::<(usize, char), (), g8>::new();
    let slot = arena.vacant_slot::<ArenaKey>();
    let key = slot.key();
    slot.insert(&mut arena, (key.index(), 'x'));
    assert_eq!(*arena.index(key), (key.index(), 'x'));

    let mut dense = GenericDenseArena::<(usize, char), (), g8>::new();
    let slot = dense.vacant_slot::<ArenaKey>();
    let key = slot.key();
    slot.insert(&mut dense, (key.index(), 'y'));
    assert_eq!(*dense.index(key), (key.index(), 'y'));
}

#[test]
fn insert_with_sees_own_key() {
    let mut arena = GenericSparseArena::<usize, (), g8>::new();
    let k: ArenaKey = arena.insert_with(|k: ArenaKey| k.index() + 100);
    assert_eq!(*arena.index(k), k.index() + 100);

    let mut slab = Slab::new();
    let k = slab.insert_with(|k| k * 2 + 7);
    assert_eq!(*slab.index(k), k * 2 + 7);
}

#[test]
fn slab_len_and_vacant_slot() {
    let mut s = Slab::new();
    assert!(s.is_empty());
    let a = s.insert('a');
    let b = s.insert('b');
    assert_eq!(s.len(), 2);
    let slot = s.vacant_slot();
    let c = slot.key();
    slot.insert(&mut s, 'c');
    assert_eq!(s.len(), 3);
    assert_eq!(*s.index(c), 'c');
    assert_eq!(s.try_remove(a), Some('a'));
    assert_eq!(s.len(), 2);
    // no generations: a stale key to an empty slot reports absence only
    assert_eq!(s.get(a), None);
    assert_eq!(s.try_remove(a), None);
    assert_eq!(s.len(), 2);
    assert_eq!(s.remove(b), 'b');
    assert_eq!(s.len(), 1);
}

#[test]
fn slotmap_detects_stale_keys() {
    let mut s = SlotMap::new();
    let a = s.insert('a');
    assert_eq!(s.len(), 1);
    assert_eq!(s.remove(a), 'a');
    assert_eq!(s.len(), 0);
    let b = s.insert('b');
    // same slot, fresh generation
    assert_ne!(a, b);
    assert_eq!(s.get(a), None);
    assert_eq!(s.try_remove(a), None);
    assert_eq!(*s.index(b), 'b');
}

#[test]
fn sparse_iterators_skip_empty_slots() {
    let mut arena = GenericSparseArena::<char, (), g8>::new();
    let ka: ArenaKey = arena.insert('a');
    let kb: ArenaKey = arena.insert('b');
    let kc: ArenaKey = arena.insert('c');
    arena.remove(kb);

    let mut values = arena.values();
    assert_eq!(values.next(), Some(&'a'));
    assert_eq!(values.next(), Some(&'c'));
    assert_eq!(values.next(), None);
    assert_eq!(values.next(), None);

    let mut keys = arena.keys::<ArenaKey>();
    assert_eq!(keys.next(), Some(ka));
    assert_eq!(keys.next(), Some(kc));
    assert_eq!(keys.next(), None);

    let mut iter = arena.iter::<ArenaKey>();
    assert_eq!(iter.next(), Some((ka, &'a')));
    assert_eq!(iter.next(), Some((kc, &'c')));
    assert_eq!(iter.next(), None);
}

#[test]
fn sparse_mut_iterators_visit_live_values() {
    let mut arena = GenericSparseArena::<u32, (), g8>::new();
    let k0: ArenaKey = arena.insert(1);
    let k1: ArenaKey = arena.insert(2);
    let k2: ArenaKey = arena.insert(3);
    arena.remove(k1);

    let mut values_mut = arena.values_mut();
    while let Some(v) = values_mut.next(&mut arena) {
        *v += 10;
    }
    assert_eq!(*arena.index(k0), 11);
    assert_eq!(*arena.index(k2), 13);

    let mut iter_mut = arena.iter_mut();
    while let Some((k, v)) = iter_mut.next::<ArenaKey, _, _, _, _>(&mut arena) {
        *v += k.index() as u32;
    }
    assert_eq!(*arena.index(k0), 11);
    assert_eq!(*arena.index(k2), 15);
}

#[test]
fn dense_keys_iterate_in_value_order() {
    let mut s = DenseSlab::new();
    let a = s.insert('a');
    let b = s.insert('b');
    let c = s.insert('c');
    s.remove(b);

    let mut keys = s.keys();
    let first = keys.next().unwrap();
    let second = keys.next().unwrap();
    assert_eq!(keys.next(), None);
    assert_eq!(first, a);
    assert_eq!(second, c);

    let (mut keys, values) = s.keys_and_values_mut();
    let mut seen = Vec::new();
    while let Some(k) = keys.next() {
        seen.push(k);
    }
    assert_eq!(seen.len(), values.len());
}

#[test]
fn try_key_of_and_key_of_reconstruct_keys() {
    let mut arena = GenericSparseArena::<char, (), g8>::new();
    let ka: ArenaKey = arena.insert('a');
    let kb: ArenaKey = arena.insert('b');
    arena.remove(ka);

    assert_eq!(arena.try_key_of::<ArenaKey>(0), None);
    assert_eq!(arena.try_key_of::<ArenaKey>(1), Some(kb));
    assert_eq!(arena.try_key_of::<ArenaKey>(7), None);
    let k: ArenaKey = arena.key_of(1);
    assert_eq!(k, kb);
}

#[test]
fn generation_sequences() {
    // a saturating 8-bit generation goes empty, filled, empty, ... and
    // refuses the final removal
    let g = g8::empty();
    assert!(g.is_empty());
    assert!(!g.is_filled());
    let g = g.fill();
    assert!(g.is_filled());
    let snap = g.to_filled();
    assert!(g.matches(snap));
    let g2 = g.try_empty().unwrap();
    assert!(g2.is_empty());
    assert!(!g2.matches(snap));
    let g3 = g2.fill();
    assert!(!g3.matches(snap));
    assert!(g3.matches(g3.to_filled()));

    // a wrapping 8-bit generation wraps instead of failing
    let mut w = gw8::empty();
    for _ in 0..128 {
        let filled = w.fill();
        w = filled.try_empty().unwrap();
    }
    assert!(w.is_empty());

    // the no-protection policy only tells empty from filled
    let n = NoGeneration::empty();
    assert!(n.is_empty());
    let n = n.fill();
    let snap = n.to_filled();
    assert!(n.matches(snap));
    let n = n.try_empty().unwrap();
    assert!(!n.matches(snap));
    // after a refill, the stale snapshot is indistinguishable from fresh
    let n = n.fill();
    assert!(n.matches(snap));
}

#[test]
fn saturating_generation_exhausts() {
    // walk an 8-bit saturating generation through 127 fill/empty cycles;
    // the 128th removal must report exhaustion
    let mut g = g8::empty();
    for _ in 0..127 {
        let filled = g.fill();
        g = filled.try_empty().unwrap();
    }
    assert!(g.is_empty());
    let filled = g.fill();
    assert!(filled.try_empty().is_none());
}

#[test]
fn owner_is_carried() {
    let arena = GenericSparseArena::<u8, u64, g8, usize>::with_owner(42u64);
    assert_eq!(*arena.owner(), 42);
    let dense = GenericDenseArena::<u8, u64, g8, usize>::with_owner(7u64);
    assert_eq!(*dense.owner(), 7);
}

#[test]
fn test_new() {
    // every container starts out empty
    let sparse = GenericSparseArena::<u8, (), g8>::new();
    assert_eq!(sparse.get(0usize), None);

    let dense = GenericDenseArena::<u8, (), g8>::new();
    assert_eq!(dense.tracker().len(), 0);
    assert_eq!(dense.values().len(), 0);

    let tracker = ut_arena::dense_tracker::GenericDenseTracker::<(), g8, usize>::new();
    assert_eq!(tracker.len(), 0);
    assert!(tracker.is_empty());

    let slab = Slab::<u8>::new();
    assert_eq!(slab.len(), 0);
    assert!(slab.is_empty());

    let slotmap = SlotMap::<u8>::new();
    assert_eq!(slotmap.len(), 0);
    assert!(slotmap.is_empty());

    let dense_slab = DenseSlab::<u8>::new();
    assert_eq!(dense_slab.len(), 0);
    assert!(dense_slab.is_empty());

    let dense_slotmap = DenseSlotMap::<u8>::new();
    assert_eq!(dense_slotmap.len(), 0);
    assert!(dense_slotmap.is_empty());
}

#[test]
fn test1() {
    // a small tree kept in a slot map: nodes refer to each other by key
    struct Node {
        value: i64,
        parent: Option<ut_arena::slotmap::ArenaKey>,
        children: Vec<ut_arena::slotmap::ArenaKey>,
    }

    let mut tree = SlotMap::new();
    let root = tree.insert(Node { value: 0, parent: None, children: Vec::new() });
    assert!(tree.index(root).parent.is_none());

    let left = tree.insert(Node { value: 1, parent: Some(root), children: Vec::new() });
    tree.index_mut(root).children.push(left);
    let right = tree.insert(Node { value: 2, parent: Some(root), children: Vec::new() });
    tree.index_mut(root).children.push(right);

    assert_eq!(tree.index(root).children.len(), 2);
    assert_eq!(tree.index(left).parent, Some(root));
    assert_eq!(tree.index(right).parent, Some(root));
    assert_eq!(tree.index(left).value + tree.index(right).value, 3);
}

#[test]
fn no_protection_key_is_absent_until_reuse() {
    // with no generations, a stale key reports absence only until its slot
    // is reused; afterwards it is indistinguishable from the new occupant
    let mut s = Slab::new();
    let a = s.insert('a');
    let _b = s.insert('b');
    assert_eq!(s.remove(a), 'a');
    assert_eq!(s.get(a), None);
    let c = s.insert('c');
    assert_eq!(c, a);
    assert_eq!(s.get(a), Some(&'c'));
}

#[test]
fn wrapping_key_collides_after_wraparound() {
    type WrapKey = ut_arena::key::ArenaKey<usize, gw8>;
    let mut arena = GenericSparseArena::<char, (), gw8>::new();
    let k0: WrapKey = arena.insert('a');
    assert_eq!(arena.remove(k0), 'a');
    assert_eq!(arena.get(k0), None);
    // an 8-bit wrapping counter repeats after 128 reuses of the slot
    for _ in 0..127 {
        let k: WrapKey = arena.insert('x');
        assert_eq!(k.index(), k0.index());
        assert_eq!(arena.get(k0), None);
        arena.remove(k);
    }
    let kz: WrapKey = arena.insert('z');
    assert_eq!(kz.index(), k0.index());
    assert_eq!(kz, k0);
    assert_eq!(arena.get(k0), Some(&'z'));
}

#[test]
fn wrapper_mut_iterators_visit_live_values() {
    let mut s = Slab::new();
    let a = s.insert(1u32);
    let b = s.insert(2u32);
    let c = s.insert(3u32);
    s.remove(b);
    let mut values_mut = s.values_mut();
    while let Some(v) = values_mut.next(&mut s) {
        *v *= 10;
    }
    assert_eq!(*s.index(a), 10);
    assert_eq!(*s.index(c), 30);
    let mut iter_mut = s.iter_mut();
    while let Some((k, v)) = iter_mut.next(&mut s) {
        *v += k as u32;
    }
    assert_eq!(*s.index(a), 10);
    assert_eq!(*s.index(c), 32);

    let mut m = SlotMap::new();
    let a = m.insert(1u32);
    let b = m.insert(2u32);
    m.remove(a);
    let mut values_mut = m.values_mut();
    while let Some(v) = values_mut.next(&mut m) {
        *v += 5;
    }
    assert_eq!(*m.index(b), 7);
    let mut iter_mut = m.iter_mut();
    let (k, v) = iter_mut.next(&mut m).unwrap();
    assert_eq!(k, b);
    *v = 100;
    assert!(iter_mut.next(&mut m).is_none());
    assert_eq!(*m.index(b), 100);
}

#[test]
fn wrapper_iterators_yield_live_entries() {
    let mut s = Slab::new();
    let a = s.insert('a');
    let b = s.insert('b');
    s.remove(a);
    let mut keys = s.keys();
    assert_eq!(keys.next(), Some(b));
    assert_eq!(keys.next(), None);
    let mut values = s.values();
    assert_eq!(values.next(), Some(&'b'));
    assert_eq!(values.next(), None);
    let mut iter = s.iter();
    assert_eq!(iter.next(), Some((b, &'b')));
    assert_eq!(iter.next(), None);

    let mut m = SlotMap::new();
    let a = m.insert('a');
    let b = m.insert('b');
    m.remove(a);
    let mut keys = m.keys();
    assert_eq!(keys.next(), Some(b));
    assert_eq!(keys.next(), None);

    let mut d = DenseSlotMap::new();
    let a = d.insert('a');
    let b = d.insert('b');
    d.remove(a);
    assert_eq!(d.values(), &['b']);
    let mut keys = d.keys();
    let kb = keys.next().unwrap();
    assert_eq!(keys.next(), None);
    assert_eq!(d.arena.get(kb), Some(&'b'));
    assert_eq!(b, kb.index() as usize);
}
