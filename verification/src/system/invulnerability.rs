use vstd::prelude::*;

use crate::component::invulnerable::{Invulnerable, InvulnerableFinished};
use crate::world::{EntityView, World};

verus! {

/// Counts down the invulnerability of characters that were hurt.
pub struct Invulnerability;

/// The entity after one tick of invulnerability: an invulnerable entity has
/// one frame less to go, and is vulnerable again when none is left.
pub open spec fn after_invulnerability(entity: EntityView) -> EntityView {
    match entity.invulnerable {
        Some(invulnerable) => EntityView {
            invulnerable: if invulnerable.spec_frames_left() - 1 == 0 {
                None
            } else {
                Some(invulnerable.ticked())
            },
            ..entity
        },
        None => entity,
    }
}

/// The entities after the invulnerabilities of the first `count` of them
/// have ticked.
pub open spec fn after_invulnerabilities(entities: Seq<EntityView>, count: int) -> Seq<
    EntityView,
> {
    Seq::new(
        entities.len(),
        |index: int|
            if index < count {
                after_invulnerability(entities[index])
            } else {
                entities[index]
            },
    )
}

impl Invulnerability {
    /// Lets every invulnerability tick.
    pub fn run(&self, world: &mut World)
        requires
            old(world).wf(),
        ensures
            final(world).wf(),
            final(world).next_id() == old(world).next_id(),
            final(world)@ == after_invulnerabilities(old(world)@, old(world)@.len() as int),
    {
        let ghost before = world@;
        let count: usize = world.len();
        let mut index: usize = 0;
        assert(world@ =~= after_invulnerabilities(before, 0));
        while index < count
            invariant
                index <= count,
                world.wf(),
                world.next_id() == old(world).next_id(),
                before.len() == count,
                world@ == after_invulnerabilities(before, index as int),
            decreases count - index,
        {
            assert(world@[index as int].wf());
            let entity = world.entity_mut(index);
            match entity.invulnerable {
                Some(invulnerable) => {
                    let mut invulnerable: Invulnerable = invulnerable;
                    match invulnerable.update() {
                        InvulnerableFinished::Yes => {
                            entity.invulnerable = None;
                        },
                        InvulnerableFinished::No => {
                            entity.invulnerable = Some(invulnerable);
                        },
                    }
                },
                None => {},
            }
            assert(world@ =~= after_invulnerabilities(before, index + 1));
            index = index + 1;
        }
    }
}

} // verus!
