use vstd::prelude::*;

use crate::component::position::{Position, TileCoords};
use crate::resource::exit::Exit;
use crate::resource::region::{has_exit_at, is_first_exit_at, Region};
use crate::world::{EntityView, World};

verus! {

/// Finds the hero that leaves the region.
pub struct Travel;

/// A hero that has stepped on an exit.
#[derive(PartialEq, Eq, Structural, Copy, Clone, Debug)]
pub struct Departure {
    /// The identifier of the hero.
    pub hero_id: u64,
    /// The place of the exit in the list of exits of the region.
    pub exit_index: usize,
}

/// Whether the entity is a hero that stands on a tile with an exit.
pub open spec fn stands_on_exit(exits: Seq<Exit>, entity: EntityView) -> bool {
    &&& entity.hero.is_some()
    &&& entity.position.is_some()
    &&& entity.position.unwrap().tile().is_some()
    &&& has_exit_at(exits, entity.position.unwrap().tile().unwrap())
}

/// Whether `departure` tells of the first hero of the table that stands on
/// an exit, and of the first exit on the tile of that hero.
pub open spec fn is_first_departure(
    exits: Seq<Exit>,
    entities: Seq<EntityView>,
    departure: Departure,
) -> bool {
    exists|hero: int|
        {
            &&& 0 <= hero < entities.len()
            &&& (#[trigger] entities[hero]).id == departure.hero_id
            &&& stands_on_exit(exits, entities[hero])
            &&& is_first_exit_at(
                exits,
                entities[hero].position.unwrap().tile().unwrap(),
                departure.exit_index as int,
            )
            &&& forall|earlier: int|
                0 <= earlier < hero ==> !stands_on_exit(exits, #[trigger] entities[earlier])
        }
}

impl Travel {
    /// Sees whether a hero is on an exit, and tells which hero and which
    /// exit.
    pub fn run(&self, world: &World, region: &Region) -> (leaving: Option<Departure>)
        ensures
            match leaving {
                Some(departure) => is_first_departure(region.spec_exits(), world@, departure),
                None => forall|index: int|
                    0 <= index < world@.len() ==> !stands_on_exit(
                        region.spec_exits(),
                        #[trigger] world@[index],
                    ),
            },
    {
        let mut index: usize = 0;
        while index < world.len()
            invariant
                index <= world@.len(),
                forall|earlier: int|
                    0 <= earlier < index ==> !stands_on_exit(
                        region.spec_exits(),
                        #[trigger] world@[earlier],
                    ),
            decreases world@.len() - index,
        {
            let entity = world.entity(index);
            if entity.hero.is_some() && entity.position.is_some() {
                let position: Position = entity.position.unwrap();
                let tile_coords: Option<TileCoords> = Option::from(position);
                match tile_coords {
                    Some(tile_coords) => {
                        match region.exit_at(tile_coords) {
                            Some(exit_index) => {
                                return Some(Departure { hero_id: entity.id, exit_index });
                            },
                            None => {},
                        }
                    },
                    None => {},
                }
            }
            index = index + 1;
        }
        None
    }
}

} // verus!
