//! Collision detection and response between bodies and the terrain.

use std::collections::HashSet;
use vstd::prelude::*;

use crate::component::collider::RectangleCollider;
use crate::component::position::Position;
use crate::constants::HALF_TILE;
use crate::resource::region::Region;
use crate::system::terrain_response::{
    fits_in_tile,
    overlaps_wall,
    push_out_of_terrain,
    resolved_position,
    touches_wall,
};
use crate::world::{survivors, EntityView, World};

verus! {

/// Pushes characters out of the terrain that blocks them, and destroys the
/// arrows that hit it.
pub struct StaticCollisionDetection;

/// Whether the entity is a character with a body.
pub open spec fn is_character_body(entity: EntityView) -> bool {
    entity.faction.is_some() && entity.has_body()
}

/// Which bodies a pass pushes out of the terrain.
#[derive(PartialEq, Eq, Structural, Copy, Clone, Debug)]
pub enum Pushed {
    /// The bodies of characters.
    Characters,
    /// Every body.
    Everything,
}

impl Pushed {
    /// Whether the entity is of the kind that is pushed.
    pub open spec fn admits(&self, entity: EntityView) -> bool {
        match *self {
            Pushed::Characters => is_character_body(entity),
            Pushed::Everything => entity.has_body(),
        }
    }
}

/// Whether the body of every entity of the kind that `pushed` tells is
/// small enough to be pushed out of the terrain.
pub open spec fn bodies_fit(entities: Seq<EntityView>, pushed: Pushed) -> bool {
    forall|index: int|
        0 <= index < entities.len() && pushed.admits(#[trigger] entities[index]) ==> fits_in_tile(
            entities[index].rectangle_collider.unwrap(),
        )
}

/// The entity where the terrain resolver leaves it.
pub open spec fn pushed_out(region: Region, entity: EntityView) -> EntityView {
    EntityView {
        position: Some(
            resolved_position(
                region,
                entity.rectangle_collider.unwrap(),
                entity.position.unwrap(),
            ),
        ),
        ..entity
    }
}

/// The entities after each of the first `count` of them that `pushed`
/// tells has been pushed out of the terrain.
pub open spec fn after_pushes(
    region: Region,
    entities: Seq<EntityView>,
    pushed: Pushed,
    count: int,
) -> Seq<EntityView> {
    Seq::new(
        entities.len(),
        |index: int|
            if index < count && pushed.admits(entities[index]) {
                pushed_out(region, entities[index])
            } else {
                entities[index]
            },
    )
}

/// Whether the entity is an arrow that touches a wall.
pub open spec fn is_arrow_in_wall(region: Region, entity: EntityView) -> bool {
    entity.arrow_attack.is_some() && entity.has_body() && touches_wall(
        region,
        entity.rectangle_collider.unwrap(),
        entity.position.unwrap(),
    )
}

/// The identifiers of the arrows among the first `count` entities that
/// touch a wall.
pub open spec fn broken_arrows(region: Region, entities: Seq<EntityView>, count: int) -> Set<u64> {
    Set::new(
        |id: u64|
            exists|index: int|
                0 <= index < count && index < entities.len() && (#[trigger] entities[index]).id
                    == id && is_arrow_in_wall(region, entities[index]),
    )
}

/// The entities that a pass over the terrain leaves behind: the characters
/// pushed out of the walls, and without the arrows that hit one.
pub open spec fn resolved_static(region: Region, entities: Seq<EntityView>) -> Seq<EntityView> {
    let pushed = after_pushes(region, entities, Pushed::Characters, entities.len() as int);
    survivors(pushed, broken_arrows(region, pushed, pushed.len() as int))
}

/// Tells whether the body of every entity of the given kind is small enough
/// to be pushed out of the terrain.
pub fn all_bodies_fit(world: &World, pushed: Pushed) -> (fit: bool)
    ensures
        fit == bodies_fit(world@, pushed),
{
    let mut index: usize = 0;
    while index < world.len()
        invariant
            index <= world@.len(),
            forall|earlier: int|
                0 <= earlier < index && pushed.admits(#[trigger] world@[earlier]) ==> fits_in_tile(
                    world@[earlier].rectangle_collider.unwrap(),
                ),
        decreases world@.len() - index,
    {
        let entity = world.entity(index);
        let of_kind: bool = match pushed {
            Pushed::Characters => entity.faction.is_some(),
            Pushed::Everything => true,
        };
        if of_kind && entity.rectangle_collider.is_some() && entity.position.is_some() {
            let collider: RectangleCollider = entity.rectangle_collider.unwrap();
            if collider.half_width > HALF_TILE || collider.half_height > HALF_TILE {
                assert(pushed.admits(world@[index as int]));
                return false;
            }
        }
        index = index + 1;
    }
    true
}

/// Pushes the bodies of the given kind out of the terrain that blocks them.
pub fn push_bodies(world: &mut World, region: &Region, pushed: Pushed)
    requires
        old(world).wf(),
        region.wf(),
        bodies_fit(old(world)@, pushed),
    ensures
        final(world).wf(),
        final(world).next_id() == old(world).next_id(),
        final(world)@ == after_pushes(*region, old(world)@, pushed, old(world)@.len() as int),
{
    let ghost before = world@;
    let count: usize = world.len();
    let mut index: usize = 0;
    assert(world@ =~= after_pushes(*region, before, pushed, 0));
    while index < count
        invariant
            index <= count,
            world.wf(),
            region.wf(),
            world.next_id() == old(world).next_id(),
            before.len() == count,
            bodies_fit(before, pushed),
            world@ == after_pushes(*region, before, pushed, index as int),
        decreases count - index,
    {
        let entity = world.entity(index);
        let of_kind: bool = match pushed {
            Pushed::Characters => entity.faction.is_some(),
            Pushed::Everything => true,
        };
        if of_kind && entity.rectangle_collider.is_some() && entity.position.is_some() {
            assert(pushed.admits(before[index as int]));
            let collider: RectangleCollider = entity.rectangle_collider.unwrap();
            let position: Position = entity.position.unwrap();
            let resolved: Position = push_out_of_terrain(region, &collider, position);
            let entity = world.entity_mut(index);
            entity.position = Some(resolved);
        }
        assert(world@ =~= after_pushes(*region, before, pushed, index + 1));
        index = index + 1;
    }
}

/// Removes the arrows that touch a wall.
pub fn break_arrows(world: &mut World, region: &Region)
    requires
        old(world).wf(),
        region.wf(),
    ensures
        final(world).wf(),
        final(world).next_id() == old(world).next_id(),
        final(world)@ == survivors(
            old(world)@,
            broken_arrows(*region, old(world)@, old(world)@.len() as int),
        ),
{
    broadcast use vstd::std_specs::hash::group_hash_axioms;

    let mut doomed: HashSet<u64> = HashSet::new();
    let count: usize = world.len();
    let mut index: usize = 0;
    assert(doomed@ =~= broken_arrows(*region, world@, 0));
    while index < count
        invariant
            index <= count,
            region.wf(),
            world@.len() == count,
            doomed@ == broken_arrows(*region, world@, index as int),
        decreases count - index,
    {
        let entity = world.entity(index);
        if entity.arrow_attack.is_some() && entity.rectangle_collider.is_some()
            && entity.position.is_some() {
            let collider: RectangleCollider = entity.rectangle_collider.unwrap();
            let position: Position = entity.position.unwrap();
            if overlaps_wall(region, &collider, position) {
                doomed.insert(entity.id);
            }
        }
        assert(doomed@ =~= broken_arrows(*region, world@, index + 1));
        index = index + 1;
    }
    world.remove_all(&doomed);
}

impl StaticCollisionDetection {
    /// Resolves the overlaps between the entities of the world and the
    /// terrain of the region for one tick.
    pub fn run(&self, world: &mut World, region: &Region)
        requires
            old(world).wf(),
            region.wf(),
            bodies_fit(old(world)@, Pushed::Characters),
        ensures
            final(world).wf(),
            final(world).next_id() == old(world).next_id(),
            final(world)@ == resolved_static(*region, old(world)@),
    {
        // Push characters out of obstacles.
        push_bodies(world, region, Pushed::Characters);
        // Destroy arrows that hit obstacles.
        break_arrows(world, region);
    }
}

} // verus!
