//! Generation-hardened slot arenas.
//!
//! The types here hand out stable, checkable keys for inserted values. A key
//! remembers the generation of the slot it was minted for; once the slot is
//! emptied, the key is stale and every checked accessor rejects it. Two
//! arena families are provided:
//!
//! * [`generic_sparse::GenericSparseArena`] keeps each value inside its slot.
//!   Insertion, access and removal are O(1); iteration walks every slot.
//! * [`generic_dense::GenericDenseArena`] keeps values packed in one array and
//!   uses a [`dense_tracker::GenericDenseTracker`] to translate keys to
//!   positions, so iteration touches live values only.
//!
//! The ABA-hardening policy is chosen through the [`generation::Generation`]
//! trait: saturating counters retire an exhausted slot forever, wrapping
//! counters reuse it endlessly, and [`generation::NoGeneration`] only tells
//! empty slots from filled ones.
//!
//! [`slab::Slab`], [`slotmap::SlotMap`], [`dense_slab::DenseSlab`] and
//! [`dense_slotmap::DenseSlotMap`] fix the generic knobs to common policies.

pub mod seal;

pub mod internal_index;

pub mod generation;

pub mod key;

pub mod generic_sparse;

pub mod dense_tracker;

pub mod generic_dense;

pub mod slab;

pub mod slotmap;

pub mod dense_slab;

pub mod dense_slotmap;
