//! Which entity an attack or a body hits when it overlaps several.

use vstd::prelude::*;

use crate::component::collider::{overlap_area, rect_rect_intersection_area, RectangleCollider};
use crate::component::faction::Faction;
use crate::component::knocked_back::KnockedBack;
use crate::component::position::Position;
use crate::world::{EntityView, World};

verus! {

/// The entities that something can hit.
#[derive(PartialEq, Eq, Structural, Copy, Clone, Debug)]
pub enum Targets {
    /// Every enemy.
    Enemies,
    /// Every character that is not of the given faction.
    FoesOf(Faction),
}

impl Targets {
    /// Whether the entity can be hit: it is of the kind that is aimed at, it
    /// has a body, and it is not being knocked back.
    pub open spec fn admits(&self, entity: EntityView) -> bool {
        &&& entity.has_body()
        &&& entity.knocked_back.is_none()
        &&& match *self {
            Targets::Enemies => entity.enemy.is_some(),
            Targets::FoesOf(faction) => entity.faction.is_some() && entity.faction != Some(faction),
        }
    }
}

/// The area that the body of `entity` shares with the given rectangle.
pub open spec fn shared_area(
    entity: EntityView,
    collider: RectangleCollider,
    position: Position,
) -> int {
    overlap_area(collider, position, entity.rectangle_collider.unwrap(), entity.position.unwrap())
}

/// Whether the entity at `target` is the one that the given rectangle hits
/// among the first `count` entities: it can be hit and shares area with the
/// rectangle, none that can be hit shares more, and none before it shares
/// as much.
pub open spec fn is_best_target(
    entities: Seq<EntityView>,
    count: int,
    targets: Targets,
    collider: RectangleCollider,
    position: Position,
    target: int,
) -> bool {
    &&& 0 <= target < count <= entities.len()
    &&& targets.admits(entities[target])
    &&& shared_area(entities[target], collider, position) > 0
    &&& forall|other: int|
        0 <= other < count && targets.admits(#[trigger] entities[other]) ==> shared_area(
            entities[other],
            collider,
            position,
        ) <= shared_area(entities[target], collider, position)
    &&& forall|other: int|
        0 <= other < target && targets.admits(#[trigger] entities[other]) ==> shared_area(
            entities[other],
            collider,
            position,
        ) < shared_area(entities[target], collider, position)
}

/// Whether the given rectangle shares area with any of the first `count`
/// entities that can be hit.
pub open spec fn hits_something(
    entities: Seq<EntityView>,
    count: int,
    targets: Targets,
    collider: RectangleCollider,
    position: Position,
) -> bool {
    exists|target: int|
        0 <= target < count && targets.admits(#[trigger] entities[target]) && shared_area(
            entities[target],
            collider,
            position,
        ) > 0
}

/// The place of the entity that the given rectangle hits, if it hits any:
/// the one with which it shares the most area, and of several such the
/// first.
pub open spec fn best_target(
    entities: Seq<EntityView>,
    targets: Targets,
    collider: RectangleCollider,
    position: Position,
) -> Option<int> {
    if hits_something(entities, entities.len() as int, targets, collider, position) {
        Some(
            choose|target: int|
                is_best_target(entities, entities.len() as int, targets, collider, position, target),
        )
    } else {
        None
    }
}

/// At most one entity is the one that is hit.
pub proof fn lemma_best_target_is_unique(
    entities: Seq<EntityView>,
    count: int,
    targets: Targets,
    collider: RectangleCollider,
    position: Position,
    first: int,
    second: int,
)
    requires
        is_best_target(entities, count, targets, collider, position, first),
        is_best_target(entities, count, targets, collider, position, second),
    ensures
        first == second,
{
}

/// What `best_target` finds is an entity that can be hit and that shares
/// area with the rectangle; and where it finds none, there is none.
pub proof fn lemma_best_target_is_a_target(
    entities: Seq<EntityView>,
    targets: Targets,
    collider: RectangleCollider,
    position: Position,
    found: int,
)
    requires
        is_best_target(entities, entities.len() as int, targets, collider, position, found),
    ensures
        best_target(entities, targets, collider, position) == Some(found),
{
    assert(targets.admits(entities[found]));
    let chosen = choose|target: int|
        is_best_target(entities, entities.len() as int, targets, collider, position, target);
    lemma_best_target_is_unique(
        entities,
        entities.len() as int,
        targets,
        collider,
        position,
        found,
        chosen,
    );
}

/// Where the rectangle shares area with something that can be hit, one
/// entity is the one that is hit.
pub proof fn lemma_best_target_exists(
    entities: Seq<EntityView>,
    count: int,
    targets: Targets,
    collider: RectangleCollider,
    position: Position,
)
    requires
        0 <= count <= entities.len(),
        hits_something(entities, count, targets, collider, position),
    ensures
        exists|target: int| is_best_target(entities, count, targets, collider, position, target),
    decreases count,
{
    let last = count - 1;
    if hits_something(entities, last, targets, collider, position) {
        lemma_best_target_exists(entities, last, targets, collider, position);
        let before = choose|target: int|
            is_best_target(entities, last, targets, collider, position, target);
        if targets.admits(entities[last]) && shared_area(entities[last], collider, position)
            > shared_area(entities[before], collider, position) {
            assert(is_best_target(entities, count, targets, collider, position, last));
        } else {
            assert(is_best_target(entities, count, targets, collider, position, before));
        }
    } else {
        let witness = choose|target: int|
            0 <= target < count && targets.admits(#[trigger] entities[target]) && shared_area(
                entities[target],
                collider,
                position,
            ) > 0;
        assert(witness == last);
        assert forall|other: int|
            0 <= other < last && targets.admits(#[trigger] entities[other]) implies shared_area(
            entities[other],
            collider,
            position,
        ) <= 0 by {}
        assert(is_best_target(entities, count, targets, collider, position, last));
    }
}

/// What `best_target` finds can be hit and shares area with the rectangle,
/// and nothing that can be hit shares more; where it finds nothing, the
/// rectangle shares area with nothing that can be hit.
pub proof fn lemma_best_target_is_best(
    entities: Seq<EntityView>,
    targets: Targets,
    collider: RectangleCollider,
    position: Position,
)
    ensures
        match best_target(entities, targets, collider, position) {
            Some(target) => is_best_target(
                entities,
                entities.len() as int,
                targets,
                collider,
                position,
                target,
            ),
            None => !hits_something(entities, entities.len() as int, targets, collider, position),
        },
{
    if hits_something(entities, entities.len() as int, targets, collider, position) {
        lemma_best_target_exists(entities, entities.len() as int, targets, collider, position);
    }
}

/// Tells whether the entity can be hit by what aims at `targets`.
pub fn can_be_hit(world: &World, index: usize, targets: Targets) -> (admitted: bool)
    requires
        index < world@.len(),
    ensures
        admitted == targets.admits(world@[index as int]),
{
    let entity = world.entity(index);
    if entity.rectangle_collider.is_none() || entity.position.is_none()
        || entity.knocked_back.is_some() {
        return false;
    }
    match targets {
        Targets::Enemies => entity.enemy.is_some(),
        Targets::FoesOf(faction) => match entity.faction {
            Some(own) => own != faction,
            None => false,
        },
    }
}

/// Finds the entity that the given rectangle hits, if it hits any.
pub fn find_best_target(
    world: &World,
    targets: Targets,
    collider: &RectangleCollider,
    position: &Position,
) -> (found: Option<usize>)
    ensures
        found matches Some(target) ==> target < world@.len(),
        best_target(world@, targets, *collider, *position) == match found {
            Some(target) => Some(target as int),
            None => None,
        },
        found matches Some(target) ==> is_best_target(
            world@,
            world@.len() as int,
            targets,
            *collider,
            *position,
            target as int,
        ),
{
    let mut max_overlap_area: u64 = 0;
    let mut closest: Option<usize> = None;
    let mut index: usize = 0;
    while index < world.len()
        invariant
            index <= world@.len(),
            closest.is_none() ==> max_overlap_area == 0 && !hits_something(
                world@,
                index as int,
                targets,
                *collider,
                *position,
            ),
            closest matches Some(target) ==> max_overlap_area == shared_area(
                world@[target as int],
                *collider,
                *position,
            ) && is_best_target(
                world@,
                index as int,
                targets,
                *collider,
                *position,
                target as int,
            ),
        decreases world@.len() - index,
    {
        if can_be_hit(world, index, targets) {
            let entity = world.entity(index);
            let other_collider: RectangleCollider = entity.rectangle_collider.unwrap();
            let other_position: Position = entity.position.unwrap();
            let overlap: u64 = rect_rect_intersection_area(
                (collider, position),
                (&other_collider, &other_position),
            );
            if overlap > max_overlap_area {
                max_overlap_area = overlap;
                closest = Some(index);
            }
        }
        index = index + 1;
    }
    proof {
        match closest {
            Some(target) => {
                lemma_best_target_is_a_target(
                    world@,
                    targets,
                    *collider,
                    *position,
                    target as int,
                );
            },
            None => {},
        }
    }
    closest
}

/// An entity as a hit from `from` leaves it: knocked away from there, and
/// with one point of health less.
pub open spec fn struck(target: EntityView, from: Position) -> EntityView {
    EntityView {
        knocked_back: Some(KnockedBack::spec_from_positions(from, target.position.unwrap())),
        health: Some(target.health.unwrap().after_damage(1)),
        ..target
    }
}

/// Whether every entity that can be hit has health to lose.
pub open spec fn targets_have_health(entities: Seq<EntityView>) -> bool {
    forall|index: int|
        0 <= index < entities.len() && (#[trigger] entities[index]).has_body() && (
        entities[index].enemy.is_some() || entities[index].faction.is_some())
            ==> entities[index].health.is_some()
}

/// Tells whether every entity of the world that can be hit has health to
/// lose.
pub fn all_targets_have_health(world: &World) -> (ready: bool)
    ensures
        ready == targets_have_health(world@),
{
    let mut index: usize = 0;
    while index < world.len()
        invariant
            index <= world@.len(),
            forall|earlier: int|
                0 <= earlier < index && (#[trigger] world@[earlier]).has_body() && (
                world@[earlier].enemy.is_some() || world@[earlier].faction.is_some())
                    ==> world@[earlier].health.is_some(),
        decreases world@.len() - index,
    {
        let entity = world.entity(index);
        if entity.rectangle_collider.is_some() && entity.position.is_some() && (
        entity.enemy.is_some() || entity.faction.is_some()) && entity.health.is_none() {
            assert(world@[index as int].has_body());
            return false;
        }
        index = index + 1;
    }
    true
}

/// Knocks the entity at `target` away from `from` and takes one point of
/// its health.
pub fn strike(world: &mut World, target: usize, from: &Position)
    requires
        old(world).wf(),
        target < old(world)@.len(),
        old(world)@[target as int].position.is_some(),
        old(world)@[target as int].health.is_some(),
    ensures
        final(world).wf(),
        final(world).next_id() == old(world).next_id(),
        final(world)@ == old(world)@.update(
            target as int,
            struck(old(world)@[target as int], *from),
        ),
{
    let entity = world.entity_mut(target);
    let ghost before = entity@;
    let position: Position = entity.position.unwrap();
    entity.knocked_back = Some(KnockedBack::from_positions(from, &position));
    match &mut entity.health {
        Some(health) => health.damage(1),
        None => {},
    }
    assert(entity@ == struck(before, *from));
}

} // verus!
