use std::collections::HashSet;
use vstd::prelude::*;

use crate::system::attack_updates::{
    after_followers,
    follow_owners,
    followers_are_equipped,
    Follower,
};
use crate::system::dynamic_collision_detection::outcome;
use crate::world::{survivors, EntityView, World};

verus! {

/// Repositions swords next to their bearers.
pub struct SwordPositioning;

/// The entities that are left when every thrust has caught up with its
/// owner, and those without a live owner are gone.
pub open spec fn after_sword_positioning(entities: Seq<EntityView>) -> Seq<EntityView> {
    let thrusts = after_followers(
        outcome(entities, Set::empty()),
        Follower::Thrust,
        entities.len(),
    );
    survivors(thrusts.entities, thrusts.doomed)
}

impl SwordPositioning {
    /// Puts every thrust where its owner is now, and removes those whose
    /// owner is no longer alive.
    pub fn run(&self, world: &mut World)
        requires
            old(world).wf(),
            followers_are_equipped(old(world)@),
        ensures
            final(world).wf(),
            final(world).next_id() == old(world).next_id(),
            final(world)@ == after_sword_positioning(old(world)@),
    {
        broadcast use vstd::std_specs::hash::group_hash_axioms;

        let mut doomed: HashSet<u64> = HashSet::new();
        assert(doomed@ =~= Set::<u64>::empty());
        follow_owners(world, Follower::Thrust, &mut doomed);
        world.remove_all(&doomed);
    }
}

} // verus!
