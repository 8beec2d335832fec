use vstd::prelude::*;

use crate::component::direction::Direction;
use crate::component::position::{saturate, saturated, Position};
use crate::constants::{STROLL_DIAGONAL_SPEED, STROLL_ORTHOGONAL_SPEED};
use crate::input_bindings::{Actions, Input};
use crate::world::{EntityView, World};

verus! {

/// Reads player input and walks the hero about accordingly.
pub struct Control;

/// The way a hero faces after the player has asked to move `sideways` and
/// `upwards`: movement along one axis turns the hero that way, and any
/// other leaves it as it is.
pub open spec fn facing_along(facing: Direction, sideways: int, upwards: int) -> Direction {
    if sideways == 0 && upwards == 1 {
        Direction::Up
    } else if sideways == 0 && upwards == -1 {
        Direction::Down
    } else if sideways == -1 && upwards == 0 {
        Direction::Left
    } else if sideways == 1 && upwards == 0 {
        Direction::Right
    } else {
        facing
    }
}

/// How far a hero walks in one tick along each axis when the player asks
/// to move `sideways` and `upwards`.
pub open spec fn stride(sideways: int, upwards: int) -> (int, int) {
    if sideways == 0 || upwards == 0 {
        (sideways * STROLL_ORTHOGONAL_SPEED, upwards * STROLL_ORTHOGONAL_SPEED)
    } else {
        (sideways * STROLL_DIAGONAL_SPEED, upwards * STROLL_DIAGONAL_SPEED)
    }
}

/// Whether the entity is a hero that can be walked about.
pub open spec fn is_walker(entity: EntityView) -> bool {
    entity.hero.is_some() && entity.direction.is_some() && entity.position.is_some()
}

/// The entity after the player has walked it about for one tick.
pub open spec fn after_stroll(entity: EntityView, input: Input) -> EntityView {
    if is_walker(entity) {
        let step = stride(input.sideways(), input.upwards());
        EntityView {
            direction: Some(
                facing_along(entity.direction.unwrap(), input.sideways(), input.upwards()),
            ),
            position: Some(
                Position {
                    x: saturated(entity.position.unwrap().x + step.0) as i32,
                    y: saturated(entity.position.unwrap().y + step.1) as i32,
                },
            ),
            ..entity
        }
    } else {
        entity
    }
}

/// The entities after the heroes among the first `count` of them have been
/// walked about.
pub open spec fn after_strolls(entities: Seq<EntityView>, input: Input, count: int) -> Seq<
    EntityView,
> {
    Seq::new(
        entities.len(),
        |index: int|
            if index < count {
                after_stroll(entities[index], input)
            } else {
                entities[index]
            },
    )
}

impl Control {
    /// Turns and moves every hero as the player asks.
    pub fn run(&self, world: &mut World, input: &Input)
        requires
            old(world).wf(),
        ensures
            final(world).wf(),
            final(world).next_id() == old(world).next_id(),
            final(world)@ == after_strolls(old(world)@, *input, old(world)@.len() as int),
    {
        let ghost before = world@;
        let count: usize = world.len();
        let mut index: usize = 0;
        assert(world@ =~= after_strolls(before, *input, 0));
        while index < count
            invariant
                index <= count,
                world.wf(),
                world.next_id() == old(world).next_id(),
                before.len() == count,
                world@ == after_strolls(before, *input, index as int),
            decreases count - index,
        {
            let entity = world.entity_mut(index);
            if entity.hero.is_some() && entity.direction.is_some() && entity.position.is_some() {
                // Move.
                let mut sideways: i32 = 0;
                let mut upwards: i32 = 0;
                if input.action_is_down(&Actions::Up) {
                    upwards = upwards + 1;
                }
                if input.action_is_down(&Actions::Down) {
                    upwards = upwards - 1;
                }
                if input.action_is_down(&Actions::Left) {
                    sideways = sideways - 1;
                }
                if input.action_is_down(&Actions::Right) {
                    sideways = sideways + 1;
                }
                // Update direction.
                if sideways == 0 && upwards == 1 {
                    entity.direction = Some(Direction::Up);
                } else if sideways == 0 && upwards == -1 {
                    entity.direction = Some(Direction::Down);
                } else if sideways == -1 && upwards == 0 {
                    entity.direction = Some(Direction::Left);
                } else if sideways == 1 && upwards == 0 {
                    entity.direction = Some(Direction::Right);
                }
                // Update position.
                let position: Position = entity.position.unwrap();
                let speed: i64 = if sideways == 0 || upwards == 0 {
                    STROLL_ORTHOGONAL_SPEED as i64
                } else {
                    STROLL_DIAGONAL_SPEED as i64
                };
                entity.position = Some(
                    Position {
                        x: saturate(position.x as i64 + sideways as i64 * speed),
                        y: saturate(position.y as i64 + upwards as i64 * speed),
                    },
                );
            }
            assert(world@ =~= after_strolls(before, *input, index + 1));
            index = index + 1;
        }
    }
}

} // verus!
