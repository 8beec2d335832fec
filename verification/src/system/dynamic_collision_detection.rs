//! Collision detection and response between moving bodies.
//!
//! The rules are applied one after the other: thrusts, arrows, slashes, the
//! hero's body against the enemies', and the hero against the hearts. Within
//! a rule the entities are taken in the order of the table, and each hit
//! takes effect before the next entity is looked at, so that an entity that
//! was just knocked back is out of reach for the rest of the pass.

use std::collections::HashSet;
use vstd::prelude::*;

use crate::component::collider::{
    nearest_point_is_hit,
    rect_intersects_half_disk,
    rect_rect_intersection_area,
    RectangleCollider,
};
use crate::component::invulnerable::Invulnerable;
use crate::component::position::Position;
use crate::system::targeting::{
    best_target,
    can_be_hit,
    find_best_target,
    shared_area,
    strike,
    struck,
    targets_have_health,
    Targets,
};
use crate::world::{survivors, EntityView, World};

verus! {

/// Does collision detection and response between moving bodies.
pub struct DynamicCollisionDetection;

/// The entities of a world in the middle of a pass, and the identifiers of
/// those that are to be removed when the pass is over.
pub struct Outcome {
    pub entities: Seq<EntityView>,
    pub doomed: Set<u64>,
}

/// The state of a pass with the given entities and the given identifiers to
/// remove.
pub open spec fn outcome(entities: Seq<EntityView>, doomed: Set<u64>) -> Outcome {
    Outcome { entities, doomed }
}

/// Whether the entity is a thrust that can still land.
pub open spec fn is_live_thrust(entity: EntityView) -> bool {
    entity.has_body() && entity.thrust_attack.is_some() && entity.thrust_attack.unwrap().is_active()
}

/// The entities after the thrust at `attacker`, if there is a live one, has
/// hit the enemy with which it shares the most area: the enemy is struck
/// and the thrust is spent.
pub open spec fn thrust_lands(entities: Seq<EntityView>, attacker: int) -> Seq<EntityView> {
    let thrust = entities[attacker];
    if is_live_thrust(thrust) {
        match best_target(
            entities,
            Targets::Enemies,
            thrust.rectangle_collider.unwrap(),
            thrust.position.unwrap(),
        ) {
            Some(target) => {
                let hit = entities.update(target, struck(entities[target], thrust.position.unwrap()));
                hit.update(
                    attacker,
                    EntityView {
                        thrust_attack: Some(hit[attacker].thrust_attack.unwrap().spent()),
                        ..hit[attacker]
                    },
                )
            },
            None => entities,
        }
    } else {
        entities
    }
}

/// The entities after the thrusts among the first `count` of them have
/// landed, one after the other.
pub open spec fn after_thrusts(entities: Seq<EntityView>, count: nat) -> Seq<EntityView>
    decreases count,
{
    if count == 0 {
        entities
    } else {
        thrust_lands(after_thrusts(entities, (count - 1) as nat), count - 1)
    }
}

/// The state of a pass after the arrow at `attacker`, if there is one, has
/// hit the character of another faction with which it shares the most
/// area: the character is struck and the arrow is doomed.
pub open spec fn arrow_lands(state: Outcome, attacker: int) -> Outcome {
    let arrow = state.entities[attacker];
    if arrow.has_body() && arrow.arrow_attack.is_some() {
        match best_target(
            state.entities,
            Targets::FoesOf(arrow.arrow_attack.unwrap().faction()),
            arrow.rectangle_collider.unwrap(),
            arrow.position.unwrap(),
        ) {
            Some(target) => Outcome {
                entities: state.entities.update(
                    target,
                    struck(state.entities[target], arrow.position.unwrap()),
                ),
                doomed: state.doomed.insert(arrow.id),
            },
            None => state,
        }
    } else {
        state
    }
}

/// The state of a pass after the arrows among the first `count` entities
/// have landed, one after the other.
pub open spec fn after_arrows(state: Outcome, count: nat) -> Outcome
    decreases count,
{
    if count == 0 {
        state
    } else {
        arrow_lands(after_arrows(state, (count - 1) as nat), count - 1)
    }
}

/// Whether the entity is a slash that can hit.
pub open spec fn is_slash(entity: EntityView) -> bool {
    entity.slash_attack.is_some() && entity.half_disk_collider.is_some()
        && entity.position.is_some()
}

/// Whether the slash at `attacker` hits the entity at `target`: the target
/// is an enemy within the half-disk that this slash has not hit before.
pub open spec fn slash_reaches(entities: Seq<EntityView>, attacker: int, target: int) -> bool {
    let slash = entities[attacker];
    let enemy = entities[target];
    &&& is_slash(slash)
    &&& Targets::Enemies.admits(enemy)
    &&& !slash.slash_attack.unwrap().hit_ids.contains(enemy.id)
    &&& nearest_point_is_hit(
        enemy.rectangle_collider.unwrap(),
        enemy.position.unwrap(),
        slash.half_disk_collider.unwrap(),
        slash.position.unwrap(),
    )
}

/// The entities after the slash at `attacker` has been tried on the entity
/// at `target`: where it reaches, the target is struck and the slash
/// remembers it.
pub open spec fn slash_lands(entities: Seq<EntityView>, attacker: int, target: int) -> Seq<
    EntityView,
> {
    if slash_reaches(entities, attacker, target) {
        let hit = entities.update(
            target,
            struck(entities[target], entities[attacker].position.unwrap()),
        );
        hit.update(
            attacker,
            EntityView {
                slash_attack: Some(hit[attacker].slash_attack.unwrap().marked(entities[target].id)),
                ..hit[attacker]
            },
        )
    } else {
        entities
    }
}

/// The entities after the slash at `attacker` has been tried on the first
/// `count` entities, one after the other.
pub open spec fn after_sweep(entities: Seq<EntityView>, attacker: int, count: nat) -> Seq<
    EntityView,
>
    decreases count,
{
    if count == 0 {
        entities
    } else {
        slash_lands(after_sweep(entities, attacker, (count - 1) as nat), attacker, count - 1)
    }
}

/// The entities after the slashes among the first `count` of them have each
/// been tried on every entity.
pub open spec fn after_slashes(entities: Seq<EntityView>, count: nat) -> Seq<EntityView>
    decreases count,
{
    if count == 0 {
        entities
    } else {
        let before = after_slashes(entities, (count - 1) as nat);
        after_sweep(before, count - 1, before.len())
    }
}

/// Whether the entity is a hero whose body an enemy can hurt: one with
/// health that is neither invulnerable nor being knocked back.
pub open spec fn is_exposed_hero(entity: EntityView) -> bool {
    entity.hero.is_some() && entity.has_body() && entity.health.is_some()
        && entity.invulnerable.is_none() && entity.knocked_back.is_none()
}

/// The entities after the hero at `hero`, if there is an exposed one, has
/// run into the enemy with which it shares the most area: the hero is
/// struck from where the enemy stands and becomes invulnerable.
pub open spec fn hero_collides(entities: Seq<EntityView>, hero: int) -> Seq<EntityView> {
    let body = entities[hero];
    if is_exposed_hero(body) {
        match best_target(
            entities,
            Targets::Enemies,
            body.rectangle_collider.unwrap(),
            body.position.unwrap(),
        ) {
            Some(enemy) => entities.update(
                hero,
                EntityView {
                    invulnerable: Some(Invulnerable::fresh()),
                    ..struck(body, entities[enemy].position.unwrap())
                },
            ),
            None => entities,
        }
    } else {
        entities
    }
}

/// The entities after the heroes among the first `count` of them have run
/// into the enemies, one after the other.
pub open spec fn after_hero_bodies(entities: Seq<EntityView>, count: nat) -> Seq<EntityView>
    decreases count,
{
    if count == 0 {
        entities
    } else {
        hero_collides(after_hero_bodies(entities, (count - 1) as nat), count - 1)
    }
}

/// Whether the entity is a hero that can pick up hearts.
pub open spec fn is_collector(entity: EntityView) -> bool {
    entity.hero.is_some() && entity.has_body() && entity.health.is_some()
}

/// Whether the hero at `hero` touches the heart at `heart`.
pub open spec fn heart_is_touched(entities: Seq<EntityView>, hero: int, heart: int) -> bool {
    &&& is_collector(entities[hero])
    &&& entities[heart].heart.is_some()
    &&& entities[heart].has_body()
    &&& shared_area(
        entities[heart],
        entities[hero].rectangle_collider.unwrap(),
        entities[hero].position.unwrap(),
    ) > 0
}

/// The state of a pass after the hero at `hero` has been tried on the heart
/// at `heart`: where they touch, the hero is healed by one point and the
/// heart is doomed.
pub open spec fn heart_is_taken(state: Outcome, hero: int, heart: int) -> Outcome {
    if heart_is_touched(state.entities, hero, heart) {
        Outcome {
            entities: state.entities.update(
                hero,
                EntityView {
                    health: Some(state.entities[hero].health.unwrap().after_heal(1)),
                    ..state.entities[hero]
                },
            ),
            doomed: state.doomed.insert(state.entities[heart].id),
        }
    } else {
        state
    }
}

/// The state of a pass after the hero at `hero` has been tried on the first
/// `count` entities, one after the other.
pub open spec fn after_gathering(state: Outcome, hero: int, count: nat) -> Outcome
    decreases count,
{
    if count == 0 {
        state
    } else {
        heart_is_taken(after_gathering(state, hero, (count - 1) as nat), hero, count - 1)
    }
}

/// The state of a pass after the heroes among the first `count` entities
/// have each been tried on every entity.
pub open spec fn after_hearts(state: Outcome, count: nat) -> Outcome
    decreases count,
{
    if count == 0 {
        state
    } else {
        let before = after_hearts(state, (count - 1) as nat);
        after_gathering(before, count - 1, before.entities.len())
    }
}

/// The entities as the four rules of a whole pass leave them, and the
/// arrows and hearts that are to be removed.
pub open spec fn dynamic_outcome(entities: Seq<EntityView>) -> Outcome {
    let count = entities.len();
    let thrusts = after_thrusts(entities, count);
    let arrows = after_arrows(outcome(thrusts, Set::empty()), count);
    let slashes = after_slashes(arrows.entities, count);
    let bodies = after_hero_bodies(slashes, count);
    after_hearts(outcome(bodies, arrows.doomed), count)
}

/// The entities that a whole pass leaves behind.
pub open spec fn resolved_dynamic(entities: Seq<EntityView>) -> Seq<EntityView> {
    survivors(dynamic_outcome(entities).entities, dynamic_outcome(entities).doomed)
}

/// Lets every live thrust hit the enemy with which it shares the most area.
pub fn resolve_thrusts(world: &mut World)
    requires
        old(world).wf(),
        targets_have_health(old(world)@),
    ensures
        final(world).wf(),
        final(world).next_id() == old(world).next_id(),
        final(world)@.len() == old(world)@.len(),
        targets_have_health(final(world)@),
        final(world)@ == after_thrusts(old(world)@, old(world)@.len()),
{
    let ghost before = world@;
    let count: usize = world.len();
    let mut attacker: usize = 0;
    while attacker < count
        invariant
            attacker <= count,
            world.wf(),
            world.next_id() == old(world).next_id(),
            world@.len() == count,
            before.len() == count,
            targets_have_health(world@),
            world@ == after_thrusts(before, attacker as nat),
        decreases count - attacker,
    {
        let ghost current = world@;
        let entity = world.entity(attacker);
        let live: bool = match entity.thrust_attack {
            Some(thrust) => thrust.is_active(),
            None => false,
        };
        if live && entity.rectangle_collider.is_some() && entity.position.is_some() {
            let collider: RectangleCollider = entity.rectangle_collider.unwrap();
            let position: Position = entity.position.unwrap();
            // Find the closest enemy in collision with the thrust attack.
            match find_best_target(world, Targets::Enemies, &collider, &position) {
                Some(target) => {
                    // Damage and knock back enemy.
                    strike(world, target, &position);
                    // Make the thrust attack inactive now that it has hit an enemy.
                    let thrust = world.entity_mut(attacker);
                    match &mut thrust.thrust_attack {
                        Some(thrust_attack) => thrust_attack.make_inactive(),
                        None => {},
                    }
                },
                None => {},
            }
        }
        assert(world@ == thrust_lands(current, attacker as int));
        attacker = attacker + 1;
    }
}

/// Lets every arrow hit the character of another faction with which it
/// shares the most area, and notes the arrows that hit in `doomed`.
pub fn resolve_arrows(world: &mut World, doomed: &mut HashSet<u64>)
    requires
        old(world).wf(),
        targets_have_health(old(world)@),
    ensures
        final(world).wf(),
        final(world).next_id() == old(world).next_id(),
        final(world)@.len() == old(world)@.len(),
        targets_have_health(final(world)@),
        outcome(final(world)@, final(doomed)@) == after_arrows(
            outcome(old(world)@, old(doomed)@),
            old(world)@.len(),
        ),
{
    broadcast use vstd::std_specs::hash::group_hash_axioms;

    let ghost before = outcome(world@, doomed@);
    let count: usize = world.len();
    let mut attacker: usize = 0;
    while attacker < count
        invariant
            attacker <= count,
            world.wf(),
            world.next_id() == old(world).next_id(),
            world@.len() == count,
            before.entities.len() == count,
            targets_have_health(world@),
            outcome(world@, doomed@) == after_arrows(before, attacker as nat),
        decreases count - attacker,
    {
        let ghost current = outcome(world@, doomed@);
        let entity = world.entity(attacker);
        if entity.arrow_attack.is_some() && entity.rectangle_collider.is_some()
            && entity.position.is_some() {
            let arrow_id: u64 = entity.id;
            let targets = Targets::FoesOf(entity.arrow_attack.unwrap().faction());
            let collider: RectangleCollider = entity.rectangle_collider.unwrap();
            let position: Position = entity.position.unwrap();
            match find_best_target(world, targets, &collider, &position) {
                Some(target) => {
                    // Damage and knock back target.
                    strike(world, target, &position);
                    // Destroy the arrow attack.
                    doomed.insert(arrow_id);
                },
                None => {},
            }
        }
        assert(outcome(world@, doomed@) == arrow_lands(
            current,
            attacker as int,
        ));
        attacker = attacker + 1;
    }
}

/// Lets every slash hit each enemy within its half-disk that it has not hit
/// before.
pub fn resolve_slashes(world: &mut World)
    requires
        old(world).wf(),
        targets_have_health(old(world)@),
    ensures
        final(world).wf(),
        final(world).next_id() == old(world).next_id(),
        final(world)@.len() == old(world)@.len(),
        targets_have_health(final(world)@),
        final(world)@ == after_slashes(old(world)@, old(world)@.len()),
{
    let ghost before = world@;
    let count: usize = world.len();
    let mut attacker: usize = 0;
    while attacker < count
        invariant
            attacker <= count,
            world.wf(),
            world.next_id() == old(world).next_id(),
            world@.len() == count,
            before.len() == count,
            targets_have_health(world@),
            world@ == after_slashes(before, attacker as nat),
        decreases count - attacker,
    {
        let ghost swept = world@;
        let mut target: usize = 0;
        while target < count
            invariant
                attacker < count,
                target <= count,
                world.wf(),
                world.next_id() == old(world).next_id(),
                world@.len() == count,
                swept.len() == count,
                targets_have_health(world@),
                world@ == after_sweep(swept, attacker as int, target as nat),
            decreases count - target,
        {
            let ghost current = world@;
            let slash = world.entity(attacker);
            let enemy = world.entity(target);
            let reaches: bool = match (&slash.slash_attack, slash.half_disk_collider, slash.position) {
                (Some(slash_attack), Some(slash_collider), Some(slash_position)) => {
                    // Ignore collisions with enemies that have already been hit.
                    if can_be_hit(world, target, Targets::Enemies) && !slash_attack.has_been_hit(
                        enemy.id,
                    ) {
                        let enemy_collider: RectangleCollider = enemy.rectangle_collider.unwrap();
                        let enemy_position: Position = enemy.position.unwrap();
                        rect_intersects_half_disk(
                            (&enemy_collider, &enemy_position),
                            (&slash_collider, &slash_position),
                        )
                    } else {
                        false
                    }
                },
                _ => false,
            };
            assert(reaches == slash_reaches(current, attacker as int, target as int));
            if reaches {
                let slash_position: Position = slash.position.unwrap();
                let enemy_id: u64 = enemy.id;
                // Knock back and damage enemy.
                strike(world, target, &slash_position);
                // Mark this enemy as having been hit by this attack.
                let slash = world.entity_mut(attacker);
                match &mut slash.slash_attack {
                    Some(slash_attack) => slash_attack.mark_as_hit(enemy_id),
                    None => {},
                }
            }
            assert(world@ == slash_lands(current, attacker as int, target as int));
            target = target + 1;
        }
        attacker = attacker + 1;
    }
}

/// Lets every exposed hero be hurt by the enemy with which its body shares
/// the most area.
pub fn resolve_hero_bodies(world: &mut World)
    requires
        old(world).wf(),
        targets_have_health(old(world)@),
    ensures
        final(world).wf(),
        final(world).next_id() == old(world).next_id(),
        final(world)@.len() == old(world)@.len(),
        targets_have_health(final(world)@),
        final(world)@ == after_hero_bodies(old(world)@, old(world)@.len()),
{
    let ghost before = world@;
    let count: usize = world.len();
    let mut hero: usize = 0;
    while hero < count
        invariant
            hero <= count,
            world.wf(),
            world.next_id() == old(world).next_id(),
            world@.len() == count,
            before.len() == count,
            targets_have_health(world@),
            world@ == after_hero_bodies(before, hero as nat),
        decreases count - hero,
    {
        let ghost current = world@;
        let body = world.entity(hero);
        // Ignore invulnerable heroes, and heroes that are being knocked back.
        if body.hero.is_some() && body.rectangle_collider.is_some() && body.position.is_some()
            && body.health.is_some() && body.invulnerable.is_none()
            && body.knocked_back.is_none() {
            let collider: RectangleCollider = body.rectangle_collider.unwrap();
            let position: Position = body.position.unwrap();
            // Find the closest enemy in collision with the hero.
            match find_best_target(world, Targets::Enemies, &collider, &position) {
                Some(enemy) => {
                    let enemy_position: Position = world.entity(enemy).position.unwrap();
                    // Damage and knock back hero.
                    strike(world, hero, &enemy_position);
                    // Give hero invulnerability.
                    let body = world.entity_mut(hero);
                    body.invulnerable = Some(Invulnerable::new());
                },
                None => {},
            }
        }
        assert(world@ == hero_collides(current, hero as int));
        hero = hero + 1;
    }
}

/// Lets every hero pick up the hearts that it touches, and notes the hearts
/// that were picked up in `doomed`.
pub fn resolve_hearts(world: &mut World, doomed: &mut HashSet<u64>)
    requires
        old(world).wf(),
    ensures
        final(world).wf(),
        final(world).next_id() == old(world).next_id(),
        final(world)@.len() == old(world)@.len(),
        outcome(final(world)@, final(doomed)@) == after_hearts(
            outcome(old(world)@, old(doomed)@),
            old(world)@.len(),
        ),
{
    broadcast use vstd::std_specs::hash::group_hash_axioms;

    let ghost before = outcome(world@, doomed@);
    let count: usize = world.len();
    let mut hero: usize = 0;
    while hero < count
        invariant
            hero <= count,
            world.wf(),
            world.next_id() == old(world).next_id(),
            world@.len() == count,
            before.entities.len() == count,
            outcome(world@, doomed@) == after_hearts(before, hero as nat),
            after_hearts(before, hero as nat).entities.len() == count,
        decreases count - hero,
    {
        let ghost gathered = outcome(world@, doomed@);
        let mut heart: usize = 0;
        while heart < count
            invariant
                hero < count,
                heart <= count,
                world.wf(),
                world.next_id() == old(world).next_id(),
                world@.len() == count,
                gathered.entities.len() == count,
                outcome(world@, doomed@) == after_gathering(
                    gathered,
                    hero as int,
                    heart as nat,
                ),
            decreases count - heart,
        {
            let ghost current = outcome(world@, doomed@);
            let body = world.entity(hero);
            let pickup = world.entity(heart);
            let touched: bool = if body.hero.is_some() && body.rectangle_collider.is_some()
                && body.position.is_some() && body.health.is_some() && pickup.heart.is_some()
                && pickup.rectangle_collider.is_some() && pickup.position.is_some() {
                let hero_collider: RectangleCollider = body.rectangle_collider.unwrap();
                let hero_position: Position = body.position.unwrap();
                let heart_collider: RectangleCollider = pickup.rectangle_collider.unwrap();
                let heart_position: Position = pickup.position.unwrap();
                rect_rect_intersection_area(
                    (&hero_collider, &hero_position),
                    (&heart_collider, &heart_position),
                ) > 0
            } else {
                false
            };
            assert(touched == heart_is_touched(current.entities, hero as int, heart as int));
            if touched {
                // Destroy the heart and increase the hero's health.
                let heart_id: u64 = pickup.id;
                doomed.insert(heart_id);
                let body = world.entity_mut(hero);
                match &mut body.health {
                    Some(health) => health.heal(1),
                    None => {},
                }
            }
            assert(outcome(world@, doomed@) == heart_is_taken(
                current,
                hero as int,
                heart as int,
            ));
            heart = heart + 1;
        }
        hero = hero + 1;
    }
}

impl DynamicCollisionDetection {
    /// Resolves the overlaps between the entities of the world for one tick.
    pub fn run(&self, world: &mut World)
        requires
            old(world).wf(),
            targets_have_health(old(world)@),
        ensures
            final(world).wf(),
            final(world).next_id() == old(world).next_id(),
            final(world)@ == resolved_dynamic(old(world)@),
    {
        let mut doomed: HashSet<u64> = HashSet::new();
        assert(doomed@ =~= Set::<u64>::empty()) by {
            broadcast use vstd::std_specs::hash::group_hash_axioms;

        }
        // Handle thrust attacks against enemies.
        resolve_thrusts(world);
        // Handle arrow collisions.
        resolve_arrows(world, &mut doomed);
        // Handle slash attacks against enemies.
        resolve_slashes(world);
        // Handle hero-enemy collisions.
        resolve_hero_bodies(world);
        // Handle hero-heart collisions.
        resolve_hearts(world, &mut doomed);
        world.remove_all(&doomed);
    }
}

} // verus!
