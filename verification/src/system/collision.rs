use vstd::prelude::*;

use crate::resource::region::Region;
use crate::system::static_collision_detection::{after_pushes, bodies_fit, push_bodies, Pushed};
use crate::world::World;

verus! {

/// Pushes every body out of the terrain that blocks it.
pub struct Collision;

impl Collision {
    /// Pushes every entity that has a body out of the walls of the region.
    pub fn run(&self, world: &mut World, region: &Region)
        requires
            old(world).wf(),
            region.wf(),
            bodies_fit(old(world)@, Pushed::Everything),
        ensures
            final(world).wf(),
            final(world).next_id() == old(world).next_id(),
            final(world)@ == after_pushes(
                *region,
                old(world)@,
                Pushed::Everything,
                old(world)@.len() as int,
            ),
    {
        push_bodies(world, region, Pushed::Everything);
    }
}

} // verus!
