//! Marks that say when an entity is swept away with something else.

use vstd::prelude::*;

verus! {

/// Marks an entity to be removed when the entity with the given ID is deleted.
#[derive(PartialEq, Eq, Structural, Copy, Clone, Debug)]
pub struct TiedToEntity(pub u64);

/// Marks an entity to be removed when the current region is unloaded.
#[derive(PartialEq, Eq, Structural, Copy, Clone, Debug)]
pub struct TiedToRegion;

} // verus!
