use vstd::prelude::*;

use crate::resource::region::Region;
use crate::system::dynamic_collision_detection::{after_hero_bodies, resolve_hero_bodies};
use crate::system::static_collision_detection::{after_pushes, bodies_fit, push_bodies, Pushed};
use crate::system::targeting::targets_have_health;
use crate::world::World;

verus! {

/// Pushes every body out of the terrain that blocks it, and lets the hero
/// be hurt by the enemies that it runs into.
pub struct CollisionDetection;

impl CollisionDetection {
    /// Pushes every entity that has a body out of the walls of the region,
    /// and then lets every exposed hero be hurt by the enemy with which its
    /// body shares the most area.
    pub fn run(&self, world: &mut World, region: &Region)
        requires
            old(world).wf(),
            region.wf(),
            bodies_fit(old(world)@, Pushed::Everything),
            targets_have_health(old(world)@),
        ensures
            final(world).wf(),
            final(world).next_id() == old(world).next_id(),
            final(world)@ == after_hero_bodies(
                after_pushes(*region, old(world)@, Pushed::Everything, old(world)@.len() as int),
                old(world)@.len(),
            ),
    {
        // Push colliders out of obstacles.
        push_bodies(world, region, Pushed::Everything);
        // Handle hero-enemy collisions.
        resolve_hero_bodies(world);
    }
}

} // verus!
