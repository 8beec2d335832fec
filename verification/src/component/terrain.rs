use vstd::prelude::*;

verus! {

/// The kind of ground that covers one tile.
#[derive(PartialEq, Eq, Structural, Copy, Clone, Debug)]
pub enum Terrain {
    Floor,
    Wall,
    Grass,
    Forest,
    Stone,
    Mountain,
    Snow,
    Glacier,
    Sand,
    Ocean,
}

impl Terrain {
    /// Whether a tile of this kind stops a moving collider.
    pub open spec fn spec_blocks_movement(&self) -> bool {
        *self == Terrain::Wall || *self == Terrain::Forest || *self == Terrain::Mountain || *self
            == Terrain::Glacier || *self == Terrain::Ocean
    }

    /// Whether a tile of this kind stops a moving collider.
    #[verifier::when_used_as_spec(spec_blocks_movement)]
    pub fn blocks_movement(&self) -> (blocks: bool)
        ensures
            blocks == self.spec_blocks_movement(),
    {
        match self {
            Terrain::Floor | Terrain::Grass | Terrain::Stone | Terrain::Snow | Terrain::Sand => {
                false
            },
            Terrain::Wall
            | Terrain::Forest
            | Terrain::Mountain
            | Terrain::Glacier
            | Terrain::Ocean => true,
        }
    }
}

} // verus!
