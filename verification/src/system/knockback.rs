use vstd::prelude::*;

use crate::component::knocked_back::{KnockedBack, KnockedBackFinished};
use crate::component::velocity::Velocity;
use crate::world::{EntityView, World};

verus! {

/// Moves characters that have been knocked back, stops them when the effect
/// expires.
pub struct Knockback;

/// The entity after one tick of knockback: an entity that is being knocked
/// back and can move takes the velocity of the knockback, and is rid of the
/// knockback when its time is up.
pub open spec fn after_knockback(entity: EntityView) -> EntityView {
    if entity.knocked_back.is_some() && entity.velocity.is_some() {
        let knocked_back = entity.knocked_back.unwrap();
        EntityView {
            velocity: Some(knocked_back.velocity()),
            knocked_back: if knocked_back.spec_frames_left() - 1 == 0 {
                None
            } else {
                Some(knocked_back.ticked())
            },
            ..entity
        }
    } else {
        entity
    }
}

/// The entities after the knockbacks of the first `count` of them have
/// ticked.
pub open spec fn after_knockbacks(entities: Seq<EntityView>, count: int) -> Seq<EntityView> {
    Seq::new(
        entities.len(),
        |index: int|
            if index < count {
                after_knockback(entities[index])
            } else {
                entities[index]
            },
    )
}

impl Knockback {
    /// Lets every knockback tick.
    pub fn run(&self, world: &mut World)
        requires
            old(world).wf(),
        ensures
            final(world).wf(),
            final(world).next_id() == old(world).next_id(),
            final(world)@ == after_knockbacks(old(world)@, old(world)@.len() as int),
    {
        let ghost before = world@;
        let count: usize = world.len();
        let mut index: usize = 0;
        assert(world@ =~= after_knockbacks(before, 0));
        while index < count
            invariant
                index <= count,
                world.wf(),
                world.next_id() == old(world).next_id(),
                before.len() == count,
                world@ == after_knockbacks(before, index as int),
            decreases count - index,
        {
            assert(world@[index as int].wf());
            let entity = world.entity_mut(index);
            match (entity.knocked_back, entity.velocity) {
                (Some(knocked_back), Some(velocity)) => {
                    let mut knocked_back: KnockedBack = knocked_back;
                    let mut velocity: Velocity = velocity;
                    match knocked_back.update(&mut velocity) {
                        KnockedBackFinished::Yes => {
                            entity.knocked_back = None;
                        },
                        KnockedBackFinished::No => {
                            entity.knocked_back = Some(knocked_back);
                        },
                    }
                    entity.velocity = Some(velocity);
                },
                _ => {},
            }
            assert(world@ =~= after_knockbacks(before, index + 1));
            index = index + 1;
        }
    }
}

} // verus!
