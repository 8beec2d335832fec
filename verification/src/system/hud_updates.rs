use vstd::prelude::*;

use crate::component::health::Health;
use crate::resource::hud::{HeartImage, Hud};
use crate::world::{EntityView, World};

verus! {

/// Updates the HUD to display current information.
pub struct HudUpdates;

/// Whether the entity is a hero whose health the HUD shows.
pub open spec fn is_shown(entity: EntityView) -> bool {
    entity.hero.is_some() && entity.health.is_some()
}

/// The heart images that show the given health: one for each point that
/// the hero can have, the first of them full for each point that it has.
pub open spec fn hearts_of(health: Health) -> Seq<HeartImage> {
    Seq::new(
        health.spec_max() as nat,
        |index: int|
            if index < health.spec_current() {
                HeartImage::Full
            } else {
                HeartImage::Empty
            },
    )
}

/// The health that the HUD shows after it has looked at the first `count`
/// entities: that of the last hero among them, if there is one.
pub open spec fn health_shown(entities: Seq<EntityView>, count: nat) -> Option<Health>
    decreases count,
{
    if count == 0 {
        None
    } else if is_shown(entities[count - 1]) {
        entities[count - 1].health
    } else {
        health_shown(entities, (count - 1) as nat)
    }
}

/// Whether a HUD with the given number of hearts and the given heart images
/// shows the health `shown`, or, if that is none, shows what it showed
/// before.
pub open spec fn is_showing(
    max_hearts: i32,
    heart_images: Seq<HeartImage>,
    shown: Option<Health>,
    max_hearts_before: i32,
    heart_images_before: Seq<HeartImage>,
) -> bool {
    match shown {
        Some(health) => max_hearts == health.spec_max() && heart_images == hearts_of(health),
        None => max_hearts == max_hearts_before && heart_images == heart_images_before,
    }
}

/// Sets the heart images of the HUD to show the given health.
pub fn show_health(hud: &mut Hud, health: &Health)
    requires
        health.wf(),
    ensures
        final(hud).max_hearts == health.spec_max(),
        final(hud).heart_images@ == hearts_of(*health),
{
    let max: usize = health.max() as usize;
    let current: usize = health.current() as usize;
    // Delete excess heart images.
    hud.heart_images.truncate(max);
    // Add heart images.
    while hud.heart_images.len() < max
        invariant
            hud.heart_images@.len() <= max,
        decreases max - hud.heart_images@.len(),
    {
        hud.heart_images.push(HeartImage::Empty);
    }
    hud.max_hearts = health.max();
    // Update heart image sprites.
    let mut index: usize = 0;
    while index < max
        invariant
            index <= max,
            hud.heart_images@.len() == max,
            current == health.spec_current(),
            max == health.spec_max(),
            hud.max_hearts == health.spec_max(),
            forall|earlier: int|
                0 <= earlier < index ==> #[trigger] hud.heart_images@[earlier] == hearts_of(
                    *health,
                )[earlier],
        decreases max - index,
    {
        let image: HeartImage = if index < current {
            HeartImage::Full
        } else {
            HeartImage::Empty
        };
        hud.heart_images[index] = image;
        index = index + 1;
    }
    assert(hud.heart_images@ =~= hearts_of(*health));
}

impl HudUpdates {
    /// Lets the HUD show the health of the hero.
    pub fn run(&self, world: &World, hud: &mut Hud)
        requires
            world.wf(),
        ensures
            is_showing(
                final(hud).max_hearts,
                final(hud).heart_images@,
                health_shown(world@, world@.len()),
                old(hud).max_hearts,
                old(hud).heart_images@,
            ),
    {
        let mut index: usize = 0;
        while index < world.len()
            invariant
                index <= world@.len(),
                world.wf(),
                is_showing(
                    hud.max_hearts,
                    hud.heart_images@,
                    health_shown(world@, index as nat),
                    old(hud).max_hearts,
                    old(hud).heart_images@,
                ),
            decreases world@.len() - index,
        {
            let entity = world.entity(index);
            if entity.hero.is_some() {
                match entity.health {
                    Some(health) => {
                        assert(world@[index as int].wf());
                        show_health(hud, &health);
                    },
                    None => {},
                }
            }
            index = index + 1;
        }
    }
}

/// The HUD shows as many hearts as the hero can have points of health, and
/// as many of them full as the hero has.
pub proof fn lemma_hearts_count_the_health(health: Health)
    requires
        health.wf(),
    ensures
        hearts_of(health).len() == health.spec_max(),
        forall|index: int|
            0 <= index < health.spec_max() ==> (#[trigger] hearts_of(health)[index]
                == HeartImage::Full <==> index < health.spec_current()),
{
}

} // verus!
