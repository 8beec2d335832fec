use std::collections::HashSet;
use vstd::prelude::*;

use crate::component::removal::TiedToEntity;
use crate::world::{survivors, EntityView, World};

verus! {

/// Removes the entities that have no health left, and what is tied to them.
pub struct Death;

/// Whether the entity has health and none of it left.
pub open spec fn is_dead(entity: EntityView) -> bool {
    entity.health matches Some(health) && health.spec_current() == 0
}

/// The identifiers of the dead among the first `count` entities.
pub open spec fn the_dead(entities: Seq<EntityView>, count: int) -> Set<u64> {
    Set::new(
        |id: u64|
            exists|index: int|
                0 <= index < count && index < entities.len() && (#[trigger] entities[index]).id
                    == id && is_dead(entities[index]),
    )
}

/// Whether the entity is tied to one of `owners`.
pub open spec fn is_tied_to(entity: EntityView, owners: Set<u64>) -> bool {
    entity.tied_to_entity matches Some(tie) && owners.contains(tie.0)
}

/// The identifiers of those among the first `count` entities that are tied
/// to one of `owners`.
pub open spec fn the_bereft(entities: Seq<EntityView>, owners: Set<u64>, count: int) -> Set<u64> {
    Set::new(
        |id: u64|
            exists|index: int|
                0 <= index < count && index < entities.len() && (#[trigger] entities[index]).id
                    == id && is_tied_to(entities[index], owners),
    )
}

/// The entities that are left when the dead and what is tied to them are
/// gone.
pub open spec fn after_deaths(entities: Seq<EntityView>) -> Seq<EntityView> {
    let dead = the_dead(entities, entities.len() as int);
    survivors(entities, dead.union(the_bereft(entities, dead, entities.len() as int)))
}

impl Death {
    /// Kills entities with zero health, and deletes with each any entities
    /// that depend on it.
    pub fn run(&self, world: &mut World)
        requires
            old(world).wf(),
        ensures
            final(world).wf(),
            final(world).next_id() == old(world).next_id(),
            final(world)@ == after_deaths(old(world)@),
    {
        broadcast use vstd::std_specs::hash::group_hash_axioms;

        let count: usize = world.len();
        let mut dead: HashSet<u64> = HashSet::new();
        let mut index: usize = 0;
        assert(dead@ =~= the_dead(world@, 0));
        while index < count
            invariant
                index <= count,
                world@.len() == count,
                dead@ == the_dead(world@, index as int),
            decreases count - index,
        {
            let entity = world.entity(index);
            match entity.health {
                Some(health) => {
                    if health.current() == 0 {
                        dead.insert(entity.id);
                    }
                },
                None => {},
            }
            assert(dead@ =~= the_dead(world@, index + 1));
            index = index + 1;
        }
        let mut doomed: HashSet<u64> = HashSet::new();
        let mut index: usize = 0;
        assert(doomed@ =~= the_dead(world@, 0).union(the_bereft(world@, dead@, 0)));
        while index < count
            invariant
                index <= count,
                world.wf(),
                world@.len() == count,
                dead@ == the_dead(world@, count as int),
                doomed@ == the_dead(world@, index as int).union(
                    the_bereft(world@, dead@, index as int),
                ),
            decreases count - index,
        {
            let entity = world.entity(index);
            let tied: bool = match entity.tied_to_entity {
                Some(TiedToEntity(owner)) => dead.contains(&owner),
                None => false,
            };
            if tied || dead.contains(&entity.id) {
                doomed.insert(entity.id);
            }
            proof {
                if dead@.contains(entity@.id) {
                    let witness = choose|other: int|
                        0 <= other < count && (#[trigger] world@[other]).id == entity@.id && is_dead(
                            world@[other],
                        );
                    assert(witness == index) by {
                        if witness < index {
                            assert(world@[witness].id < world@[index as int].id);
                        } else if index < witness {
                            assert(world@[index as int].id < world@[witness].id);
                        }
                    }
                }
                assert(doomed@ =~= the_dead(world@, index + 1).union(
                    the_bereft(world@, dead@, index + 1),
                ));
            }
            index = index + 1;
        }
        world.remove_all(&doomed);
    }
}

/// After the sweep nobody is dead, and nothing is left that was tied to the
/// dead.
pub proof fn lemma_the_dead_are_gone(entities: Seq<EntityView>)
    ensures
        forall|index: int|
            0 <= index < after_deaths(entities).len() ==> {
                let entity = #[trigger] after_deaths(entities)[index];
                &&& entities.contains(entity)
                &&& !is_dead(entity)
                &&& !is_tied_to(entity, the_dead(entities, entities.len() as int))
            },
{
    let dead = the_dead(entities, entities.len() as int);
    let doomed = dead.union(the_bereft(entities, dead, entities.len() as int));
    crate::world::lemma_survivors_are_the_rest(entities, doomed);
    assert forall|index: int| 0 <= index < after_deaths(entities).len() implies {
        let entity = #[trigger] after_deaths(entities)[index];
        &&& entities.contains(entity)
        &&& !is_dead(entity)
        &&& !is_tied_to(entity, dead)
    } by {
        let entity = after_deaths(entities)[index];
        assert(survivors(entities, doomed).contains(entity));
        let source = choose|source: int| 0 <= source < entities.len() && entities[source] == entity;
        assert(entities[source].id == entity.id);
        if is_dead(entity) {
            assert(dead.contains(entity.id));
        }
        if is_tied_to(entity, dead) {
            assert(the_bereft(entities, dead, entities.len() as int).contains(entity.id));
        }
    }
}

} // verus!
