//! The sealing trait that keeps [`crate::internal_index::InternalIndex`]
//! closed to outside implementations.

use vstd::prelude::*;

verus! {

/// A marker supertrait: only types of this crate implement it, so traits
/// that list it as a supertrait cannot be implemented elsewhere.
pub trait Seal {

}

} // verus!
