use std::collections::HashSet;
use vstd::prelude::*;

use crate::system::attack_updates::{
    after_followers,
    follow_owners,
    followers_are_equipped,
    Follower,
};
use crate::system::dynamic_collision_detection::outcome;
use crate::world::{survivors, EntityView, World};

verus! {

/// Repositions swords next to their bearers.
pub struct SwordAttackUpdates;

/// The entities that are left when every slash and then every thrust has
/// caught up with its owner, and those without a live owner are gone.
pub open spec fn after_sword_updates(entities: Seq<EntityView>) -> Seq<EntityView> {
    let count = entities.len();
    let slashes = after_followers(outcome(entities, Set::empty()), Follower::Slash, count);
    let thrusts = after_followers(slashes, Follower::Thrust, count);
    survivors(thrusts.entities, thrusts.doomed)
}

impl SwordAttackUpdates {
    /// Puts every slash and thrust where its owner is now, and removes
    /// those whose owner is no longer alive.
    pub fn run(&self, world: &mut World)
        requires
            old(world).wf(),
            followers_are_equipped(old(world)@),
        ensures
            final(world).wf(),
            final(world).next_id() == old(world).next_id(),
            final(world)@ == after_sword_updates(old(world)@),
    {
        broadcast use vstd::std_specs::hash::group_hash_axioms;

        let mut doomed: HashSet<u64> = HashSet::new();
        assert(doomed@ =~= Set::<u64>::empty());
        // Slash attack updates.
        follow_owners(world, Follower::Slash, &mut doomed);
        // Thrust attack updates.
        follow_owners(world, Follower::Thrust, &mut doomed);
        world.remove_all(&doomed);
    }
}

} // verus!
