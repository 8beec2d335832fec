use vstd::prelude::*;

use crate::component::position::Position;
use crate::resource::camera::Camera;
use crate::world::{EntityView, World};

verus! {

/// Moves the camera.
pub struct CameraControl;

/// Whether the entity is a hero that the camera can follow.
pub open spec fn is_followed(entity: EntityView) -> bool {
    entity.hero.is_some() && entity.position.is_some()
}

/// Where the camera looks after it has followed the heroes among the first
/// `count` entities: at the last of them, or where it looked before if
/// there is none.
pub open spec fn camera_after(entities: Seq<EntityView>, before: Camera, count: nat) -> Camera
    decreases count,
{
    if count == 0 {
        before
    } else if is_followed(entities[count - 1]) {
        Camera { position: entities[count - 1].position.unwrap() }
    } else {
        camera_after(entities, before, (count - 1) as nat)
    }
}

impl CameraControl {
    /// Lets the camera follow the hero.
    pub fn run(&self, world: &World, camera: &mut Camera)
        ensures
            *final(camera) == camera_after(world@, *old(camera), world@.len()),
    {
        let mut index: usize = 0;
        while index < world.len()
            invariant
                index <= world@.len(),
                *camera == camera_after(world@, *old(camera), index as nat),
            decreases world@.len() - index,
        {
            let entity = world.entity(index);
            if entity.hero.is_some() && entity.position.is_some() {
                let position: Position = entity.position.unwrap();
                camera.position = position;
            }
            index = index + 1;
        }
    }
}

/// With a single hero that has a position, the camera looks at the hero.
pub proof fn lemma_camera_follows_the_only_hero(
    entities: Seq<EntityView>,
    before: Camera,
    hero: int,
    count: nat,
)
    requires
        0 <= hero < entities.len(),
        count <= entities.len(),
        is_followed(entities[hero]),
        forall|index: int|
            0 <= index < entities.len() && index != hero ==> !is_followed(#[trigger] entities[index]),
    ensures
        camera_after(entities, before, count) == (if hero < count {
            Camera { position: entities[hero].position.unwrap() }
        } else {
            before
        }),
    decreases count,
{
    if count > 0 {
        lemma_camera_follows_the_only_hero(entities, before, hero, (count - 1) as nat);
    }
}

} // verus!
