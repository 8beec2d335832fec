//! The table of live entities.

use std::collections::HashSet;
use vstd::prelude::*;

use crate::component::arrow_attack::ArrowAttack;
use crate::component::behavior::shoot_arrows::ShootArrows;
use crate::component::behavior::wander::Wander;
use crate::component::collider::{HalfDiskCollider, RectangleCollider};
use crate::component::direction::Direction;
use crate::component::enemy::Enemy;
use crate::component::faction::Faction;
use crate::component::health::Health;
use crate::component::heart::Heart;
use crate::component::hero::{Hero, HeroState};
use crate::component::invulnerable::Invulnerable;
use crate::component::knocked_back::KnockedBack;
use crate::component::position::Position;
use crate::component::removal::{TiedToEntity, TiedToRegion};
use crate::component::shield::Shield;
use crate::component::slash_attack::{SlashAttack, SlashAttackView};
use crate::component::thrust_attack::ThrustAttack;
use crate::component::velocity::Velocity;

verus! {

/// One row of the table: an identifier and the attributes that the entity
/// carries. An attribute that is `None` is one that the entity does not have.
pub struct Entity {
    /// Set by the world when the entity is spawned.
    pub id: u64,
    pub position: Option<Position>,
    pub velocity: Option<Velocity>,
    pub direction: Option<Direction>,
    pub rectangle_collider: Option<RectangleCollider>,
    pub half_disk_collider: Option<HalfDiskCollider>,
    pub faction: Option<Faction>,
    pub health: Option<Health>,
    pub hero: Option<Hero>,
    pub enemy: Option<Enemy>,
    pub heart: Option<Heart>,
    pub thrust_attack: Option<ThrustAttack>,
    pub slash_attack: Option<SlashAttack>,
    pub arrow_attack: Option<ArrowAttack>,
    pub shield: Option<Shield>,
    pub wander: Option<Wander>,
    pub shoot_arrows: Option<ShootArrows>,
    pub knocked_back: Option<KnockedBack>,
    pub invulnerable: Option<Invulnerable>,
    pub tied_to_entity: Option<TiedToEntity>,
    pub tied_to_region: Option<TiedToRegion>,
}

/// What an entity stands for: the same row, with the slash attack as the
/// set of those it has hit.
pub struct EntityView {
    pub id: u64,
    pub position: Option<Position>,
    pub velocity: Option<Velocity>,
    pub direction: Option<Direction>,
    pub rectangle_collider: Option<RectangleCollider>,
    pub half_disk_collider: Option<HalfDiskCollider>,
    pub faction: Option<Faction>,
    pub health: Option<Health>,
    pub hero: Option<Hero>,
    pub enemy: Option<Enemy>,
    pub heart: Option<Heart>,
    pub thrust_attack: Option<ThrustAttack>,
    pub slash_attack: Option<SlashAttackView>,
    pub arrow_attack: Option<ArrowAttack>,
    pub shield: Option<Shield>,
    pub wander: Option<Wander>,
    pub shoot_arrows: Option<ShootArrows>,
    pub knocked_back: Option<KnockedBack>,
    pub invulnerable: Option<Invulnerable>,
    pub tied_to_entity: Option<TiedToEntity>,
    pub tied_to_region: Option<TiedToRegion>,
}

impl View for Entity {
    type V = EntityView;

    open spec fn view(&self) -> EntityView {
        EntityView {
            id: self.id,
            position: self.position,
            velocity: self.velocity,
            direction: self.direction,
            rectangle_collider: self.rectangle_collider,
            half_disk_collider: self.half_disk_collider,
            faction: self.faction,
            health: self.health,
            hero: self.hero,
            enemy: self.enemy,
            heart: self.heart,
            thrust_attack: self.thrust_attack,
            slash_attack: match self.slash_attack {
                Some(slash_attack) => Some(slash_attack@),
                None => None,
            },
            arrow_attack: self.arrow_attack,
            shield: self.shield,
            wander: self.wander,
            shoot_arrows: self.shoot_arrows,
            knocked_back: self.knocked_back,
            invulnerable: self.invulnerable,
            tied_to_entity: self.tied_to_entity,
            tied_to_region: self.tied_to_region,
        }
    }
}

impl EntityView {
    /// The entity without any attribute.
    pub open spec fn blank(id: u64) -> EntityView {
        EntityView {
            id,
            position: None,
            velocity: None,
            direction: None,
            rectangle_collider: None,
            half_disk_collider: None,
            faction: None,
            health: None,
            hero: None,
            enemy: None,
            heart: None,
            thrust_attack: None,
            slash_attack: None,
            arrow_attack: None,
            shield: None,
            wander: None,
            shoot_arrows: None,
            knocked_back: None,
            invulnerable: None,
            tied_to_entity: None,
            tied_to_region: None,
        }
    }

    /// The attributes that have an invariant keep it: health lies within
    /// its range, and timed effects have time left.
    pub open spec fn wf(&self) -> bool {
        &&& self.health matches Some(health) ==> health.wf()
        &&& self.knocked_back matches Some(knocked_back) ==> knocked_back.wf()
        &&& self.invulnerable matches Some(invulnerable) ==> invulnerable.wf()
        &&& self.hero matches Some(hero) ==> hero.wf()
    }

    /// Whether the entity has a body that other bodies and attacks can
    /// overlap: a rectangle and a place to put it.
    pub open spec fn has_body(&self) -> bool {
        self.rectangle_collider.is_some() && self.position.is_some()
    }

    /// The same entity under another identifier.
    pub open spec fn with_id(self, id: u64) -> EntityView {
        EntityView { id, ..self }
    }
}

impl Entity {
    /// Tells whether the attributes of the entity that have an invariant
    /// keep it.
    pub fn is_well_formed(&self) -> (well_formed: bool)
        ensures
            well_formed == self@.wf(),
    {
        let healthy: bool = match self.health {
            Some(health) => 0 <= health.current() && health.current() <= health.max(),
            None => true,
        };
        let knocked: bool = match self.knocked_back {
            Some(knocked_back) => knocked_back.frames_left() > 0,
            None => true,
        };
        let timed: bool = match self.invulnerable {
            Some(invulnerable) => invulnerable.frames_left() > 0,
            None => true,
        };
        let busy: bool = match self.hero {
            Some(hero) => match hero.state {
                HeroState::FreelyMoving => true,
                HeroState::Slashing { frames_left, .. } => frames_left > 0,
                HeroState::Thrusting { frames_left, .. } => frames_left > 0,
            },
            None => true,
        };
        healthy && knocked && timed && busy
    }

    /// An entity without any attribute.
    pub fn new() -> (entity: Entity)
        ensures
            entity@ == EntityView::blank(0),
    {
        Entity {
            id: 0,
            position: None,
            velocity: None,
            direction: None,
            rectangle_collider: None,
            half_disk_collider: None,
            faction: None,
            health: None,
            hero: None,
            enemy: None,
            heart: None,
            thrust_attack: None,
            slash_attack: None,
            arrow_attack: None,
            shield: None,
            wander: None,
            shoot_arrows: None,
            knocked_back: None,
            invulnerable: None,
            tied_to_entity: None,
            tied_to_region: None,
        }
    }
}

/// Whether the identifiers of the entities grow along the table, so that no
/// two entities share one.
pub open spec fn ids_ascend(entities: Seq<EntityView>) -> bool {
    forall|i: int, j: int| 0 <= i < j < entities.len() ==> entities[i].id < entities[j].id
}

/// Whether the table holds an entity with the given identifier.
pub open spec fn is_listed(entities: Seq<EntityView>, id: u64) -> bool {
    exists|index: int| 0 <= index < entities.len() && #[trigger] entities[index].id == id
}

/// The place in the table of the entity with the given identifier.
pub open spec fn place_of(entities: Seq<EntityView>, id: u64) -> int {
    choose|index: int| 0 <= index < entities.len() && #[trigger] entities[index].id == id
}

/// The table without the entities whose identifiers are in `doomed`.
pub open spec fn survivors(entities: Seq<EntityView>, doomed: Set<u64>) -> Seq<EntityView> {
    entities.filter(|entity: EntityView| !doomed.contains(entity.id))
}

/// The entities of a world in the middle of a pass that spawns and removes
/// entities: the identifier that the next entity will get, and the
/// identifiers of those that are to be removed when the pass is over.
pub struct Stage {
    pub entities: Seq<EntityView>,
    pub next_id: int,
    pub doomed: Set<u64>,
}

/// The stage with the given entities, next identifier and identifiers to
/// remove.
pub open spec fn stage(entities: Seq<EntityView>, next_id: int, doomed: Set<u64>) -> Stage {
    Stage { entities, next_id, doomed }
}

/// The set of live entities and their attributes.
pub struct World {
    entities: Vec<Entity>,
    next_id: u64,
}

impl View for World {
    type V = Seq<EntityView>;

    closed spec fn view(&self) -> Seq<EntityView> {
        Seq::new(self.entities@.len(), |index: int| self.entities@[index]@)
    }
}

impl World {
    /// The identifier that the next entity to be spawned will get.
    pub closed spec fn next_id(&self) -> u64 {
        self.next_id
    }

    /// Identifiers grow along the table and have all been handed out by the
    /// world, and every entity is well-formed.
    pub open spec fn wf(&self) -> bool {
        &&& ids_ascend(self@)
        &&& forall|index: int| 0 <= index < self@.len() ==> (#[trigger] self@[index]).id < self.next_id()
        &&& forall|index: int| 0 <= index < self@.len() ==> (#[trigger] self@[index]).wf()
    }

    /// A world without entities.
    pub fn new() -> (world: World)
        ensures
            world.wf(),
            world@ == Seq::<EntityView>::empty(),
            world.next_id() == 0,
    {
        let world = World { entities: Vec::new(), next_id: 0 };
        assert(world@ =~= Seq::<EntityView>::empty());
        world
    }

    /// A world without entities in which the first entity gets the
    /// identifier `next_id`.
    pub fn starting_at(next_id: u64) -> (world: World)
        ensures
            world.wf(),
            world@ == Seq::<EntityView>::empty(),
            world.next_id() == next_id,
    {
        let world = World { entities: Vec::new(), next_id };
        assert(world@ =~= Seq::<EntityView>::empty());
        world
    }

    /// Tells whether the world can hand out `count` more identifiers.
    pub fn has_room_for(&self, count: usize) -> (room: bool)
        ensures
            room == (self.next_id() + count <= u64::MAX),
    {
        (count as u64) <= u64::MAX - self.next_id
    }

    /// Tells whether the world can hand out `first` and then `second` more
    /// identifiers.
    pub fn has_room_for_both(&self, first: usize, second: usize) -> (room: bool)
        ensures
            room == (self.next_id() + first + second <= u64::MAX),
    {
        self.next_id as u128 + first as u128 + second as u128 <= u64::MAX as u128
    }

    /// The number of live entities.
    pub fn len(&self) -> (len: usize)
        ensures
            len == self@.len(),
    {
        self.entities.len()
    }

    /// The entity at the given place in the table.
    pub fn entity(&self, index: usize) -> (entity: &Entity)
        requires
            index < self@.len(),
        ensures
            entity@ == self@[index as int],
    {
        &self.entities[index]
    }

    /// The entity at the given place in the table, for changing its
    /// attributes.
    pub(crate) fn entity_mut(&mut self, index: usize) -> (entity: &mut Entity)
        requires
            index < old(self)@.len(),
        ensures
            entity@ == old(self)@[index as int],
            final(self)@ == old(self)@.update(index as int, final(entity)@),
            final(self).next_id() == old(self).next_id(),
    {
        let ghost before = self@;
        let entity = &mut self.entities[index];
        proof {
            assert(after_borrow(self.entities)@ == old(self).entities@.update(index as int, *final(entity)));
            assert(after_borrow(*self)@ =~= before.update(index as int, final(entity)@));
        }
        entity
    }

    /// Finds the place in the table of the entity with the given identifier.
    pub fn index_of(&self, id: u64) -> (found: Option<usize>)
        ensures
            found.is_some() == is_listed(self@, id),
            found matches Some(index) ==> index < self@.len() && self@[index as int].id == id,
            found matches Some(index) ==> ids_ascend(self@) ==> index == place_of(self@, id),
    {
        let mut index: usize = 0;
        while index < self.entities.len()
            invariant
                index <= self.entities.len(),
                self.entities.len() == self@.len(),
                forall|earlier: int| 0 <= earlier < index ==> (#[trigger] self@[earlier]).id != id,
            decreases self.entities.len() - index,
        {
            if self.entities[index].id == id {
                assert(self@[index as int].id == id);
                return Some(index);
            }
            index = index + 1;
        }
        None
    }

    /// The entity with the given identifier, if it is alive.
    pub fn get(&self, id: u64) -> (entity: Option<&Entity>)
        ensures
            entity.is_some() == is_listed(self@, id),
            entity matches Some(entity) ==> entity@.id == id && self@.contains(entity@),
            entity matches Some(entity) ==> ids_ascend(self@) ==> entity@ == self@[place_of(
                self@,
                id,
            )],
    {
        match self.index_of(id) {
            Some(index) => {
                assert(self@[index as int] == self.entities@[index as int]@);
                Some(&self.entities[index])
            },
            None => None,
        }
    }

    /// Whether an entity with the given identifier is alive.
    pub fn is_alive(&self, id: u64) -> (alive: bool)
        ensures
            alive == is_listed(self@, id),
    {
        self.index_of(id).is_some()
    }

    /// Adds an entity to the world and returns the identifier that it was
    /// given. Whatever identifier the entity came with is overwritten.
    pub fn spawn(&mut self, entity: Entity) -> (id: u64)
        requires
            old(self).wf(),
            entity@.wf(),
            old(self).next_id() < u64::MAX,
        ensures
            final(self).wf(),
            id == old(self).next_id(),
            final(self).next_id() == old(self).next_id() + 1,
            final(self)@ == old(self)@.push(entity@.with_id(id)),
            !is_listed(old(self)@, id),
    {
        let id: u64 = self.next_id;
        let mut entity = entity;
        entity.id = id;
        self.entities.push(entity);
        self.next_id = id + 1;
        assert(self@ =~= old(self)@.push(entity@));
        id
    }

    /// Removes the entities whose identifiers are in `doomed`. The others
    /// keep their order.
    pub fn remove_all(&mut self, doomed: &HashSet<u64>)
        requires
            old(self).wf(),
        ensures
            final(self).wf(),
            final(self).next_id() == old(self).next_id(),
            final(self)@ == survivors(old(self)@, doomed@),
    {
        broadcast use vstd::std_specs::hash::group_hash_axioms;

        let ghost before = self@;
        let ghost mut checked: int = 0;
        let mut index: usize = 0;
        proof {
            reveal(Seq::filter);
            assert(before.take(0) =~= Seq::<EntityView>::empty());
            assert(before.skip(0) =~= before);
            assert(self@ =~= survivors(before.take(0), doomed@) + before.skip(0));
        }
        while index < self.entities.len()
            invariant
                self.wf(),
                self.next_id() == old(self).next_id(),
                before == old(self)@,
                0 <= checked <= before.len(),
                index <= self.entities.len(),
                self.entities.len() == self@.len(),
                index == survivors(before.take(checked), doomed@).len(),
                self@ == survivors(before.take(checked), doomed@) + before.skip(checked),
            decreases self.entities.len() - index,
        {
            let ghost current = self@;
            proof {
                assert(checked < before.len());
                assert(current[index as int] == before.skip(checked)[0]);
                lemma_survivors_step(before, doomed@, checked);
            }
            if doomed.contains(&self.entities[index].id) {
                self.entities.remove(index);
                proof {
                    assert(self@ =~= current.remove(index as int));
                    assert(self@ =~= survivors(before.take(checked + 1), doomed@) + before.skip(
                        checked + 1,
                    ));
                }
            } else {
                index = index + 1;
                proof {
                    assert(self@ =~= survivors(before.take(checked + 1), doomed@) + before.skip(
                        checked + 1,
                    ));
                }
            }
            proof {
                checked = checked + 1;
            }
        }
        proof {
            assert(before.skip(checked).len() == 0);
            assert(checked == before.len());
            assert(before.take(checked) =~= before);
            assert(self@ =~= survivors(before, doomed@));
        }
    }

    /// Removes the entity with the given identifier, if it is alive.
    pub fn delete(&mut self, id: u64)
        requires
            old(self).wf(),
        ensures
            final(self).wf(),
            final(self).next_id() == old(self).next_id(),
            final(self)@ == survivors(old(self)@, set![id]),
    {
        broadcast use vstd::std_specs::hash::group_hash_axioms;

        let mut doomed: HashSet<u64> = HashSet::new();
        doomed.insert(id);
        assert(doomed@ =~= set![id]);
        self.remove_all(&doomed);
    }
}

/// Whether the entity at `index` is among the survivors decides whether the
/// survivors of the first `index + 1` entities are one more than those of
/// the first `index`.
pub proof fn lemma_survivors_step(entities: Seq<EntityView>, doomed: Set<u64>, index: int)
    requires
        0 <= index < entities.len(),
    ensures
        survivors(entities.take(index + 1), doomed) == if doomed.contains(entities[index].id) {
            survivors(entities.take(index), doomed)
        } else {
            survivors(entities.take(index), doomed).push(entities[index])
        },
{
    reveal(Seq::filter);
    assert(entities.take(index + 1).drop_last() =~= entities.take(index));
    assert(entities.take(index + 1).last() == entities[index]);
}

/// The survivors are the entities that were not doomed, in their old order.
pub proof fn lemma_survivors_are_the_rest(entities: Seq<EntityView>, doomed: Set<u64>)
    ensures
        forall|entity: EntityView| #[trigger]
            survivors(entities, doomed).contains(entity) <==> entities.contains(entity)
                && !doomed.contains(entity.id),
        ids_ascend(entities) ==> ids_ascend(survivors(entities, doomed)),
        survivors(entities, doomed).len() <= entities.len(),
    decreases entities.len(),
{
    reveal(Seq::filter);
    if entities.len() > 0 {
        let rest = entities.drop_last();
        let last = entities.last();
        lemma_survivors_are_the_rest(rest, doomed);
        let kept = survivors(rest, doomed);
        let all = survivors(entities, doomed);
        assert forall|entity: EntityView| #[trigger]
            all.contains(entity) <==> entities.contains(entity) && !doomed.contains(
                entity.id,
            ) by {
            if all.contains(entity) {
                let at = choose|at: int| 0 <= at < all.len() && all[at] == entity;
                if at < kept.len() {
                    assert(kept.contains(entity));
                    let source = choose|source: int| 0 <= source < rest.len() && rest[source] == entity;
                    assert(entities[source] == entity);
                } else {
                    assert(entity == last);
                    assert(entities[entities.len() - 1] == entity);
                }
            }
            if entities.contains(entity) && !doomed.contains(entity.id) {
                let source = choose|source: int| 0 <= source < entities.len() && entities[source] == entity;
                if source < rest.len() {
                    assert(rest[source] == entity);
                    assert(kept.contains(entity));
                    let at = choose|at: int| 0 <= at < kept.len() && kept[at] == entity;
                    assert(all[at] == entity);
                } else {
                    assert(all[all.len() - 1] == entity);
                }
            }
        }
        if ids_ascend(entities) {
            assert(ids_ascend(rest));
            assert forall|i: int, j: int| 0 <= i < j < all.len() implies all[i].id < all[j].id by {
                if j == kept.len() {
                    assert(kept.contains(all[i]));
                    assert(rest.contains(all[i]));
                    let source = choose|source: int| 0 <= source < rest.len() && rest[source] == all[i];
                    assert(entities[source].id < entities[entities.len() - 1].id);
                }
            }
        }
    }
}

/// Where none of the entities is doomed, all of them survive.
pub proof fn lemma_all_survive_when_none_is_doomed(entities: Seq<EntityView>, doomed: Set<u64>)
    requires
        forall|index: int| 0 <= index < entities.len() ==> !doomed.contains((#[trigger] entities[index]).id),
    ensures
        survivors(entities, doomed) == entities,
    decreases entities.len(),
{
    reveal(Seq::filter);
    if entities.len() > 0 {
        let rest = entities.drop_last();
        assert forall|index: int| 0 <= index < rest.len() implies !doomed.contains(
            (#[trigger] rest[index]).id,
        ) by {
            assert(rest[index] == entities[index]);
        }
        lemma_all_survive_when_none_is_doomed(rest, doomed);
        assert(!doomed.contains(entities[entities.len() - 1].id));
        assert(survivors(entities, doomed) =~= entities);
    }
}

/// An entity keeps its place in the table when the attributes of an entity
/// change.
pub proof fn lemma_places_are_stable(
    entities: Seq<EntityView>,
    changed: int,
    replacement: EntityView,
    id: u64,
)
    requires
        ids_ascend(entities),
        0 <= changed < entities.len(),
        replacement.id == entities[changed].id,
    ensures
        is_listed(entities.update(changed, replacement), id) == is_listed(entities, id),
        is_listed(entities, id) ==> place_of(entities.update(changed, replacement), id)
            == place_of(entities, id),
        ids_ascend(entities.update(changed, replacement)),
{
    let updated = entities.update(changed, replacement);
    assert forall|index: int| 0 <= index < entities.len() implies (#[trigger] updated[index]).id
        == entities[index].id by {}
    if is_listed(entities, id) {
        let place = place_of(entities, id);
        assert(updated[place].id == id);
        let found = place_of(updated, id);
        assert(entities[found].id == id);
        if found < place {
            assert(entities[found].id < entities[place].id);
        } else if place < found {
            assert(entities[place].id < entities[found].id);
        }
    }
    if is_listed(updated, id) {
        let found = place_of(updated, id);
        assert(entities[found].id == id);
    }
}

} // verus!
