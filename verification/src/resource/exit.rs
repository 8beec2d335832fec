use vstd::prelude::*;

use crate::component::position::TileCoords;

verus! {

/// An exit from one region to another.
#[derive(PartialEq, Eq, Clone, Debug)]
pub struct Exit {
    pub location: TileCoords,
    pub target_region: String,
    pub target_entrance_idx: usize,
}

} // verus!
