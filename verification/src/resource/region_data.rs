use vstd::prelude::*;

use crate::component::position::TileCoords;
use crate::component::terrain::Terrain;
use crate::resource::entrance::Entrance;
use crate::resource::exit::Exit;

verus! {

/// The description of a region, as it is read from a file.
#[derive(PartialEq, Eq, Clone, Debug)]
pub struct RegionData {
    pub col_count: usize,
    pub terrain: Vec<Terrain>,
    pub entrances: Vec<Entrance>,
    pub exits: Vec<Exit>,
    pub enemies: Vec<EnemyData>,
    pub heart_locations: Vec<TileCoords>,
}

/// The description of an enemy, as it is read from a file.
#[derive(PartialEq, Eq, Structural, Copy, Clone, Debug)]
pub struct EnemyData {
    pub location: TileCoords,
}

} // verus!
