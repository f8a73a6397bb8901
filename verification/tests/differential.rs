use std::collections::HashMap;

use ut_arena::generation::g8;
use ut_arena::generic_dense::GenericDenseArena;
use ut_arena::generic_sparse::GenericSparseArena;

type ArenaKey = ut_arena::key::ArenaKey<usize, g8>;

/// A small deterministic pseudo-random sequence, so the differential runs
/// reproduce exactly.
struct Lcg(u64);

impl Lcg {
    fn next(&mut self) -> u64 {
        self.0 = self
            .0
            .wrapping_mul(6364136223846793005)
            .wrapping_add(1442695040888963407);
        self.0 >> 33
    }

    fn below(&mut self, n: usize) -> usize {
        (self.next() % n as u64) as usize
    }
}

fn test_sparse_arena_against_map(seed: u64, steps: usize) {
    let mut arena = GenericSparseArena::<char, (), g8>::new();
    let mut map: HashMap<ArenaKey, char> = HashMap::new();
    let mut live: Vec<ArenaKey> = Vec::new();
    let mut dead_keys: Vec<ArenaKey> = Vec::new();
    let mut rng = Lcg(seed);

    for _ in 0..steps {
        match rng.next() % 5 {
            0 => {
                let x = (b'a' + (rng.next() % 26) as u8) as char;
                let key: ArenaKey = arena.insert(x);
                assert!(!map.contains_key(&key));
                map.insert(key, x);
                live.push(key);
            }
            1 => {
                if live.is_empty() {
                    continue;
                }
                let key = live[rng.below(live.len())];
                let val = map[&key];
                assert_eq!(*arena.index(key), val);
            }
            2 => {
                if live.is_empty() {
                    continue;
                }
                let key = live[rng.below(live.len())];
                let val = map[&key];
                assert_eq!(*arena.index(key), val);
                let new_val = (b'a' + (rng.next() % 26) as u8) as char;
                map.insert(key, new_val);
                *arena.index_mut(key) = new_val;
            }
            3 => {
                if live.is_empty() {
                    continue;
                }
                let at = rng.below(live.len());
                let key = live.swap_remove(at);
                let val = map.remove(&key).unwrap();
                assert_eq!(arena.remove(key), val);
                dead_keys.push(key);
            }
            4 => {
                if dead_keys.is_empty() {
                    continue;
                }
                let key = dead_keys[rng.below(dead_keys.len())];
                assert!(arena.get(key).is_none());
                assert!(arena.get_mut(key).is_none());
                assert!(arena.try_remove(key).is_none());
            }
            _ => unreachable!(),
        }
    }

    for key in dead_keys {
        assert!(arena.get(key).is_none());
        assert!(arena.get_mut(key).is_none());
        assert!(arena.try_remove(key).is_none());
    }
    for key in live {
        assert_eq!(*arena.index(key), map[&key]);
    }
}

fn test_dense_arena_against_map(seed: u64, steps: usize) {
    let mut arena = GenericDenseArena::<char, (), g8>::new();
    let mut map: HashMap<ArenaKey, char> = HashMap::new();
    let mut live: Vec<ArenaKey> = Vec::new();
    let mut dead_keys: Vec<ArenaKey> = Vec::new();
    let mut rng = Lcg(seed);

    for _ in 0..steps {
        match rng.next() % 5 {
            0 => {
                let x = (b'a' + (rng.next() % 26) as u8) as char;
                let key: ArenaKey = arena.insert(x);
                assert!(!map.contains_key(&key));
                map.insert(key, x);
                live.push(key);
            }
            1 => {
                if live.is_empty() {
                    continue;
                }
                let key = live[rng.below(live.len())];
                let val = map[&key];
                assert_eq!(*arena.index(key), val);
            }
            2 => {
                if live.is_empty() {
                    continue;
                }
                let key = live[rng.below(live.len())];
                let val = map[&key];
                assert_eq!(*arena.index(key), val);
                let new_val = (b'a' + (rng.next() % 26) as u8) as char;
                map.insert(key, new_val);
                *arena.index_mut(key) = new_val;
            }
            3 => {
                if live.is_empty() {
                    continue;
                }
                let at = rng.below(live.len());
                let key = live.swap_remove(at);
                let val = map.remove(&key).unwrap();
                assert_eq!(arena.remove(key), val);
                dead_keys.push(key);
            }
            4 => {
                if dead_keys.is_empty() {
                    continue;
                }
                let key = dead_keys[rng.below(dead_keys.len())];
                assert!(arena.get(key).is_none());
                assert!(arena.get_mut(key).is_none());
                assert!(arena.try_remove(key).is_none());
            }
            _ => unreachable!(),
        }
    }

    assert_eq!(arena.values().len(), map.len());
    for key in dead_keys {
        assert!(arena.get(key).is_none());
        assert!(arena.get_mut(key).is_none());
        assert!(arena.try_remove(key).is_none());
    }
    for key in live {
        assert_eq!(*arena.index(key), map[&key]);
    }
}

#[test]
fn proptest_test_sparse_arena() {
    test_sparse_arena_against_map(0x5eed_0001, 1024 * 16);
}

#[test]
fn proptest_test_dense_arena() {
    test_dense_arena_against_map(0x5eed_0002, 1024 * 16);
}

#[test]
fn sparse_arena_test_sparse_arena() {
    test_sparse_arena_against_map(0x5eed_0003, 1024 * 16);
}

#[test]
fn sparse_arena_test_dense_arena() {
    test_dense_arena_against_map(0x5eed_0004, 1024 * 16);
}
