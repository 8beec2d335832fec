use vstd::prelude::*;

use crate::component::position::{saturate, saturated, Position};
use crate::component::velocity::Velocity;
use crate::world::{EntityView, World};

verus! {

/// Moves entities by their velocity.
pub struct Motion;

/// Where something that stood at `position` stands after one tick at
/// `velocity`. No coordinate leaves the range that coordinates can express.
pub open spec fn displaced(position: Position, velocity: Velocity) -> Position {
    Position {
        x: saturated(position.x + velocity.x) as i32,
        y: saturated(position.y + velocity.y) as i32,
    }
}

/// The entity after one tick of motion: moved by its velocity, if it has a
/// position and a velocity.
pub open spec fn after_motion(entity: EntityView) -> EntityView {
    if entity.position.is_some() && entity.velocity.is_some() {
        EntityView {
            position: Some(displaced(entity.position.unwrap(), entity.velocity.unwrap())),
            ..entity
        }
    } else {
        entity
    }
}

/// The entities after the first `count` of them have moved.
pub open spec fn after_motions(entities: Seq<EntityView>, count: int) -> Seq<EntityView> {
    Seq::new(
        entities.len(),
        |index: int|
            if index < count {
                after_motion(entities[index])
            } else {
                entities[index]
            },
    )
}

/// Computes where something stands after one tick at `velocity`.
pub fn displace(position: &Position, velocity: &Velocity) -> (reached: Position)
    ensures
        reached == displaced(*position, *velocity),
{
    Position {
        x: saturate(position.x as i64 + velocity.x as i64),
        y: saturate(position.y as i64 + velocity.y as i64),
    }
}

impl Motion {
    /// Moves every entity that has a position and a velocity.
    pub fn run(&self, world: &mut World)
        requires
            old(world).wf(),
        ensures
            final(world).wf(),
            final(world).next_id() == old(world).next_id(),
            final(world)@ == after_motions(old(world)@, old(world)@.len() as int),
    {
        let ghost before = world@;
        let count: usize = world.len();
        let mut index: usize = 0;
        assert(world@ =~= after_motions(before, 0));
        while index < count
            invariant
                index <= count,
                world.wf(),
                world.next_id() == old(world).next_id(),
                before.len() == count,
                world@ == after_motions(before, index as int),
            decreases count - index,
        {
            let entity = world.entity_mut(index);
            match (entity.position, entity.velocity) {
                (Some(position), Some(velocity)) => {
                    entity.position = Some(displace(&position, &velocity));
                },
                _ => {},
            }
            assert(world@ =~= after_motions(before, index + 1));
            index = index + 1;
        }
    }
}

/// Something that does not move stays where it is.
pub proof fn lemma_rest_is_rest(position: Position)
    ensures
        displaced(position, Velocity::zero()) == position,
{
}

} // verus!
