use vstd::prelude::*;

use crate::component::direction::Direction;
use crate::component::position::TileCoords;

verus! {

/// An entrance to a region.
#[derive(PartialEq, Eq, Structural, Copy, Clone, Debug)]
pub struct Entrance {
    pub location: TileCoords,
    pub direction: Direction,
}

} // verus!
