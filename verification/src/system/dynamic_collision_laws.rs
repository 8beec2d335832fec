//! What holds of a pass of the dynamic collision resolver.

use vstd::prelude::*;

use crate::component::health::lemma_health_changes;
use crate::component::invulnerable::lemma_invulnerable_lifecycle;
use crate::component::invulnerable::Invulnerable;
use crate::component::knocked_back::lemma_knockback_lifecycle;
use crate::component::knocked_back::KnockedBack;
use crate::component::position::Position;
use crate::system::dynamic_collision_detection::{
    after_arrows,
    after_gathering,
    after_hearts,
    after_hero_bodies,
    after_slashes,
    after_sweep,
    after_thrusts,
    arrow_lands,
    dynamic_outcome,
    heart_is_taken,
    hero_collides,
    outcome,
    resolved_dynamic,
    slash_lands,
    slash_reaches,
    thrust_lands,
    Outcome,
};
use crate::system::targeting::{
    best_target,
    lemma_best_target_is_best,
    struck,
    targets_have_health,
    Targets,
};
use crate::world::{lemma_survivors_are_the_rest, EntityView};

verus! {

/// Whether `after` is `before` with at most one hit taken: either its
/// health and its knockback are untouched, or it was not being knocked back,
/// lost one point of health and is being knocked back now.
pub open spec fn hit_at_most_once(before: EntityView, after: EntityView) -> bool {
    &&& after.id == before.id
    &&& after.has_body() == before.has_body()
    &&& after.enemy == before.enemy
    &&& after.faction == before.faction
    &&& after.wf()
    &&& after.has_body() && (after.enemy.is_some() || after.faction.is_some())
        ==> after.health.is_some()
    &&& ((after.knocked_back == before.knocked_back && after.health == before.health) || (
    before.knocked_back.is_none() && after.knocked_back.is_some() && before.health.is_some()
        && after.health == Some(before.health.unwrap().after_damage(1))))
}

/// Whether every entity of `after` is the entity at the same place of
/// `before` with at most one hit taken.
pub open spec fn each_hit_at_most_once(before: Seq<EntityView>, after: Seq<EntityView>) -> bool {
    &&& after.len() == before.len()
    &&& forall|index: int|
        0 <= index < before.len() ==> hit_at_most_once(before[index], #[trigger] after[index])
}

/// Whether every entity is well-formed and, if it can be hit, has health.
pub open spec fn fit_for_combat(entities: Seq<EntityView>) -> bool {
    &&& targets_have_health(entities)
    &&& forall|index: int| 0 <= index < entities.len() ==> (#[trigger] entities[index]).wf()
}

/// An entity that is struck where it was fit for combat and not being
/// knocked back has taken exactly one hit.
proof fn lemma_struck_takes_one_hit(target: EntityView, from: Position)
    requires
        target.wf(),
        target.health.is_some(),
        target.position.is_some(),
        target.knocked_back.is_none(),
    ensures
        hit_at_most_once(target, struck(target, from)),
        struck(target, from).invulnerable == target.invulnerable,
{
    lemma_health_changes(target.health.unwrap(), 1);
    lemma_knockback_lifecycle(
        from,
        target.position.unwrap(),
        KnockedBack::spec_from_positions(from, target.position.unwrap()),
    );
}

/// Hits taken one after the other add up to at most one: whoever was hit is
/// being knocked back and so out of reach of the next.
proof fn lemma_hits_compose(first: Seq<EntityView>, second: Seq<EntityView>, third: Seq<EntityView>)
    requires
        each_hit_at_most_once(first, second),
        each_hit_at_most_once(second, third),
    ensures
        each_hit_at_most_once(first, third),
{
    assert forall|index: int| 0 <= index < first.len() implies hit_at_most_once(
        first[index],
        #[trigger] third[index],
    ) by {
        assert(hit_at_most_once(first[index], second[index]));
        assert(hit_at_most_once(second[index], third[index]));
    }
}

/// Entities that have taken at most one hit each are fit for combat.
proof fn lemma_hits_keep_fitness(before: Seq<EntityView>, after: Seq<EntityView>)
    requires
        each_hit_at_most_once(before, after),
    ensures
        fit_for_combat(after),
{
    assert forall|index: int| 0 <= index < after.len() implies (#[trigger] after[index]).wf() && (
    after[index].has_body() && (after[index].enemy.is_some() || after[index].faction.is_some())
        ==> after[index].health.is_some()) by {
        assert(hit_at_most_once(before[index], after[index]));
    }
}

/// Nothing at all is no more than one hit.
proof fn lemma_no_hit_is_at_most_one(entities: Seq<EntityView>)
    requires
        fit_for_combat(entities),
    ensures
        each_hit_at_most_once(entities, entities),
{
}

/// A thrust that lands hits one entity once.
pub proof fn lemma_thrust_hits_once(entities: Seq<EntityView>, attacker: int)
    requires
        0 <= attacker < entities.len(),
        fit_for_combat(entities),
    ensures
        each_hit_at_most_once(entities, thrust_lands(entities, attacker)),
        fit_for_combat(thrust_lands(entities, attacker)),
{
    let thrust = entities[attacker];
    if thrust.has_body() {
        lemma_best_target_is_best(
            entities,
            Targets::Enemies,
            thrust.rectangle_collider.unwrap(),
            thrust.position.unwrap(),
        );
        match best_target(
            entities,
            Targets::Enemies,
            thrust.rectangle_collider.unwrap(),
            thrust.position.unwrap(),
        ) {
            Some(target) => {
                lemma_struck_takes_one_hit(entities[target], thrust.position.unwrap());
            },
            None => {},
        }
    }
    let after = thrust_lands(entities, attacker);
    assert(each_hit_at_most_once(entities, after));
    lemma_hits_keep_fitness(entities, after);
}

/// An arrow that lands hits one entity once.
pub proof fn lemma_arrow_hits_once(state: Outcome, attacker: int)
    requires
        0 <= attacker < state.entities.len(),
        fit_for_combat(state.entities),
    ensures
        each_hit_at_most_once(state.entities, arrow_lands(state, attacker).entities),
        fit_for_combat(arrow_lands(state, attacker).entities),
{
    let arrow = state.entities[attacker];
    if arrow.has_body() && arrow.arrow_attack.is_some() {
        let targets = Targets::FoesOf(arrow.arrow_attack.unwrap().faction());
        lemma_best_target_is_best(
            state.entities,
            targets,
            arrow.rectangle_collider.unwrap(),
            arrow.position.unwrap(),
        );
        match best_target(
            state.entities,
            targets,
            arrow.rectangle_collider.unwrap(),
            arrow.position.unwrap(),
        ) {
            Some(target) => {
                lemma_struck_takes_one_hit(state.entities[target], arrow.position.unwrap());
            },
            None => {},
        }
    }
    let after = arrow_lands(state, attacker).entities;
    assert(each_hit_at_most_once(state.entities, after));
    lemma_hits_keep_fitness(state.entities, after);
}

/// A slash that is tried on an entity hits it at most once.
pub proof fn lemma_slash_hits_once(entities: Seq<EntityView>, attacker: int, target: int)
    requires
        0 <= attacker < entities.len(),
        0 <= target < entities.len(),
        fit_for_combat(entities),
    ensures
        each_hit_at_most_once(entities, slash_lands(entities, attacker, target)),
        fit_for_combat(slash_lands(entities, attacker, target)),
{
    if slash_reaches(entities, attacker, target) {
        lemma_struck_takes_one_hit(entities[target], entities[attacker].position.unwrap());
    }
    let after = slash_lands(entities, attacker, target);
    assert(each_hit_at_most_once(entities, after));
    lemma_hits_keep_fitness(entities, after);
}

/// A hero that runs into enemies is hit at most once.
pub proof fn lemma_hero_is_hit_once(entities: Seq<EntityView>, hero: int)
    requires
        0 <= hero < entities.len(),
        fit_for_combat(entities),
    ensures
        each_hit_at_most_once(entities, hero_collides(entities, hero)),
        fit_for_combat(hero_collides(entities, hero)),
{
    let body = entities[hero];
    if body.has_body() {
        lemma_best_target_is_best(
            entities,
            Targets::Enemies,
            body.rectangle_collider.unwrap(),
            body.position.unwrap(),
        );
        match best_target(
            entities,
            Targets::Enemies,
            body.rectangle_collider.unwrap(),
            body.position.unwrap(),
        ) {
            Some(enemy) => {
                if body.health.is_some() && body.knocked_back.is_none() {
                    lemma_struck_takes_one_hit(body, entities[enemy].position.unwrap());
                    lemma_invulnerable_lifecycle(Invulnerable::fresh());
                }
            },
            None => {},
        }
    }
    let after = hero_collides(entities, hero);
    assert(each_hit_at_most_once(entities, after));
    lemma_hits_keep_fitness(entities, after);
}

/// However many thrusts land, no entity is hit more than once.
pub proof fn lemma_thrusts_hit_once(entities: Seq<EntityView>, count: nat)
    requires
        count <= entities.len(),
        fit_for_combat(entities),
    ensures
        each_hit_at_most_once(entities, after_thrusts(entities, count)),
        fit_for_combat(after_thrusts(entities, count)),
    decreases count,
{
    if count == 0 {
        lemma_no_hit_is_at_most_one(entities);
    } else {
        let before = after_thrusts(entities, (count - 1) as nat);
        lemma_thrusts_hit_once(entities, (count - 1) as nat);
        lemma_thrust_hits_once(before, count - 1);
        lemma_hits_compose(entities, before, thrust_lands(before, count - 1));
    }
}

/// However many arrows land, no entity is hit more than once.
pub proof fn lemma_arrows_hit_once(state: Outcome, count: nat)
    requires
        count <= state.entities.len(),
        fit_for_combat(state.entities),
    ensures
        each_hit_at_most_once(state.entities, after_arrows(state, count).entities),
        fit_for_combat(after_arrows(state, count).entities),
    decreases count,
{
    if count == 0 {
        lemma_no_hit_is_at_most_one(state.entities);
    } else {
        let before = after_arrows(state, (count - 1) as nat);
        lemma_arrows_hit_once(state, (count - 1) as nat);
        lemma_arrow_hits_once(before, count - 1);
        lemma_hits_compose(
            state.entities,
            before.entities,
            arrow_lands(before, count - 1).entities,
        );
    }
}

/// However many entities a slash is tried on, none is hit more than once.
pub proof fn lemma_sweep_hits_once(entities: Seq<EntityView>, attacker: int, count: nat)
    requires
        0 <= attacker < entities.len(),
        count <= entities.len(),
        fit_for_combat(entities),
    ensures
        each_hit_at_most_once(entities, after_sweep(entities, attacker, count)),
        fit_for_combat(after_sweep(entities, attacker, count)),
    decreases count,
{
    if count == 0 {
        lemma_no_hit_is_at_most_one(entities);
    } else {
        let before = after_sweep(entities, attacker, (count - 1) as nat);
        lemma_sweep_hits_once(entities, attacker, (count - 1) as nat);
        lemma_slash_hits_once(before, attacker, count - 1);
        lemma_hits_compose(entities, before, slash_lands(before, attacker, count - 1));
    }
}

/// However many slashes sweep, no entity is hit more than once.
pub proof fn lemma_slashes_hit_once(entities: Seq<EntityView>, count: nat)
    requires
        count <= entities.len(),
        fit_for_combat(entities),
    ensures
        each_hit_at_most_once(entities, after_slashes(entities, count)),
        fit_for_combat(after_slashes(entities, count)),
    decreases count,
{
    if count == 0 {
        lemma_no_hit_is_at_most_one(entities);
    } else {
        let before = after_slashes(entities, (count - 1) as nat);
        lemma_slashes_hit_once(entities, (count - 1) as nat);
        lemma_sweep_hits_once(before, count - 1, before.len());
        lemma_hits_compose(entities, before, after_sweep(before, count - 1, before.len()));
    }
}

/// However many heroes run into enemies, no entity is hit more than once.
pub proof fn lemma_hero_bodies_hit_once(entities: Seq<EntityView>, count: nat)
    requires
        count <= entities.len(),
        fit_for_combat(entities),
    ensures
        each_hit_at_most_once(entities, after_hero_bodies(entities, count)),
        fit_for_combat(after_hero_bodies(entities, count)),
    decreases count,
{
    if count == 0 {
        lemma_no_hit_is_at_most_one(entities);
    } else {
        let before = after_hero_bodies(entities, (count - 1) as nat);
        lemma_hero_bodies_hit_once(entities, (count - 1) as nat);
        lemma_hero_is_hit_once(before, count - 1);
        lemma_hits_compose(entities, before, hero_collides(before, count - 1));
    }
}

/// Whether `after` is `before` with nothing changed but health regained.
pub open spec fn only_healed(before: EntityView, after: EntityView) -> bool {
    &&& after.id == before.id
    &&& after.knocked_back == before.knocked_back
    &&& after.health.is_some() == before.health.is_some()
    &&& after.wf()
    &&& before.health matches Some(health) ==> after.health.unwrap().spec_max()
        == health.spec_max() && after.health.unwrap().spec_current() >= health.spec_current()
}

/// Whether every entity of `after` is the entity at the same place of
/// `before` with nothing changed but health regained.
pub open spec fn each_only_healed(before: Seq<EntityView>, after: Seq<EntityView>) -> bool {
    &&& after.len() == before.len()
    &&& forall|index: int|
        0 <= index < before.len() ==> only_healed(before[index], #[trigger] after[index])
}

/// A heart that is taken heals and hurts nobody.
pub proof fn lemma_heart_only_heals(state: Outcome, hero: int, heart: int)
    requires
        0 <= hero < state.entities.len(),
        0 <= heart < state.entities.len(),
        each_only_healed(state.entities, state.entities),
    ensures
        each_only_healed(state.entities, heart_is_taken(state, hero, heart).entities),
{
    if state.entities[hero].health.is_some() {
        assert(only_healed(state.entities[hero], state.entities[hero]));
        lemma_health_changes(state.entities[hero].health.unwrap(), 1);
    }
    let after = heart_is_taken(state, hero, heart).entities;
    assert forall|index: int| 0 <= index < state.entities.len() implies only_healed(
        state.entities[index],
        #[trigger] after[index],
    ) by {
        assert(only_healed(state.entities[index], state.entities[index]));
    }
}

/// Healing upon healing is healing.
proof fn lemma_healing_composes(
    first: Seq<EntityView>,
    second: Seq<EntityView>,
    third: Seq<EntityView>,
)
    requires
        each_only_healed(first, second),
        each_only_healed(second, third),
    ensures
        each_only_healed(first, third),
        each_only_healed(third, third),
{
    assert forall|index: int| 0 <= index < first.len() implies only_healed(
        first[index],
        #[trigger] third[index],
    ) by {
        assert(only_healed(first[index], second[index]));
        assert(only_healed(second[index], third[index]));
    }
    assert forall|index: int| 0 <= index < third.len() implies only_healed(
        third[index],
        #[trigger] third[index],
    ) by {
        assert(only_healed(second[index], third[index]));
    }
}

/// However many entities a hero is tried on, hearts only heal.
pub proof fn lemma_gathering_only_heals(state: Outcome, hero: int, count: nat)
    requires
        0 <= hero < state.entities.len(),
        count <= state.entities.len(),
        each_only_healed(state.entities, state.entities),
    ensures
        each_only_healed(state.entities, after_gathering(state, hero, count).entities),
        each_only_healed(
            after_gathering(state, hero, count).entities,
            after_gathering(state, hero, count).entities,
        ),
    decreases count,
{
    if count > 0 {
        let before = after_gathering(state, hero, (count - 1) as nat);
        lemma_gathering_only_heals(state, hero, (count - 1) as nat);
        lemma_heart_only_heals(before, hero, count - 1);
        lemma_healing_composes(
            state.entities,
            before.entities,
            heart_is_taken(before, hero, count - 1).entities,
        );
    }
}

/// However many heroes gather hearts, hearts only heal.
pub proof fn lemma_hearts_only_heal(state: Outcome, count: nat)
    requires
        count <= state.entities.len(),
        each_only_healed(state.entities, state.entities),
    ensures
        each_only_healed(state.entities, after_hearts(state, count).entities),
        each_only_healed(after_hearts(state, count).entities, after_hearts(state, count).entities),
    decreases count,
{
    if count > 0 {
        let before = after_hearts(state, (count - 1) as nat);
        lemma_hearts_only_heal(state, (count - 1) as nat);
        lemma_gathering_only_heals(before, count - 1, before.entities.len());
        lemma_healing_composes(
            state.entities,
            before.entities,
            after_gathering(before, count - 1, before.entities.len()).entities,
        );
    }
}

/// In one pass no entity takes more than one hit. An entity that was being
/// knocked back when the pass began takes none and keeps its knockback, and
/// an entity that has less health after the pass than before has lost one
/// point and is being knocked back.
pub proof fn lemma_one_hit_per_pass(entities: Seq<EntityView>)
    requires
        fit_for_combat(entities),
    ensures
        dynamic_outcome(entities).entities.len() == entities.len(),
        forall|index: int|
            0 <= index < entities.len() ==> has_lost_at_most_one(
                entities[index],
                #[trigger] dynamic_outcome(entities).entities[index],
            ),
{
    let count = entities.len();
    let thrusts = after_thrusts(entities, count);
    lemma_thrusts_hit_once(entities, count);
    let arrows = after_arrows(outcome(thrusts, Set::empty()), count);
    lemma_arrows_hit_once(outcome(thrusts, Set::empty()), count);
    lemma_hits_compose(entities, thrusts, arrows.entities);
    let slashes = after_slashes(arrows.entities, count);
    lemma_slashes_hit_once(arrows.entities, count);
    lemma_hits_compose(entities, arrows.entities, slashes);
    let bodies = after_hero_bodies(slashes, count);
    lemma_hero_bodies_hit_once(slashes, count);
    lemma_hits_compose(entities, slashes, bodies);
    let hearts = after_hearts(outcome(bodies, arrows.doomed), count);
    assert forall|index: int| 0 <= index < bodies.len() implies only_healed(
        bodies[index],
        #[trigger] bodies[index],
    ) by {}
    lemma_hearts_only_heal(outcome(bodies, arrows.doomed), count);
    assert forall|index: int| 0 <= index < entities.len() implies has_lost_at_most_one(
        entities[index],
        #[trigger] dynamic_outcome(entities).entities[index],
    ) by {
        assert(hit_at_most_once(entities[index], bodies[index]));
        assert(only_healed(bodies[index], hearts.entities[index]));
        if entities[index].health.is_some() {
            lemma_health_changes(entities[index].health.unwrap(), 1);
        }
    }
}

/// Whether `after` is what a pass may make of `before`: the same entity
/// with at most one point of health less. An entity that was being knocked
/// back keeps its knockback and loses no health, and an entity that has
/// lost health is being knocked back.
pub open spec fn has_lost_at_most_one(before: EntityView, after: EntityView) -> bool {
    &&& after.id == before.id
    &&& after.health.is_some() == before.health.is_some()
    &&& before.health matches Some(health) ==> {
        &&& after.health.unwrap().spec_max() == health.spec_max()
        &&& after.health.unwrap().spec_current() >= health.spec_current() - 1
        &&& after.health.unwrap().spec_current() < health.spec_current()
            ==> after.knocked_back.is_some()
        &&& before.knocked_back.is_some() ==> after.health.unwrap().spec_current()
            >= health.spec_current()
    }
    &&& before.knocked_back.is_some() ==> after.knocked_back == before.knocked_back
}

/// Every entity that a pass leaves behind was there before, and has lost at
/// most one point of health in the pass.
pub proof fn lemma_one_hit_per_tick(entities: Seq<EntityView>)
    requires
        fit_for_combat(entities),
    ensures
        forall|index: int|
            0 <= index < resolved_dynamic(entities).len() ==> exists|source: int|
                0 <= source < entities.len() && has_lost_at_most_one(
                    #[trigger] entities[source],
                    #[trigger] resolved_dynamic(entities)[index],
                ),
{
    let outcome = dynamic_outcome(entities);
    let left = resolved_dynamic(entities);
    lemma_one_hit_per_pass(entities);
    lemma_survivors_are_the_rest(outcome.entities, outcome.doomed);
    assert forall|index: int| 0 <= index < left.len() implies exists|source: int|
        0 <= source < entities.len() && has_lost_at_most_one(
            #[trigger] entities[source],
            #[trigger] left[index],
        ) by {
        assert(left.contains(left[index]));
        assert(outcome.entities.contains(left[index]));
        let source = choose|source: int|
            0 <= source < outcome.entities.len() && outcome.entities[source] == left[index];
        assert(has_lost_at_most_one(entities[source], outcome.entities[source]));
    }
}

/// A slash does nothing to an entity that it has hit before.
pub proof fn lemma_slash_spares_whom_it_hit(entities: Seq<EntityView>, attacker: int, target: int)
    requires
        0 <= attacker < entities.len(),
        0 <= target < entities.len(),
        entities[attacker].slash_attack matches Some(slash) && slash.hit_ids.contains(
            entities[target].id,
        ),
    ensures
        slash_lands(entities, attacker, target) == entities,
{
}

/// A slash remembers whom it hits and forgets nobody, so that trying it on
/// the same entity once more changes nothing.
pub proof fn lemma_slash_hits_nobody_twice(entities: Seq<EntityView>, attacker: int, target: int)
    requires
        0 <= attacker < entities.len(),
        0 <= target < entities.len(),
    ensures
        ({
            let after = slash_lands(entities, attacker, target);
            let remembered = after[attacker].slash_attack.unwrap().hit_ids;
            &&& slash_reaches(entities, attacker, target) ==> remembered.contains(
                entities[target].id,
            )
            &&& entities[attacker].slash_attack matches Some(slash)
                ==> after[attacker].slash_attack.is_some() && slash.hit_ids.subset_of(remembered)
            &&& slash_lands(after, attacker, target) == after
        }),
{
}

} // verus!
