use std::collections::HashSet;
use vstd::prelude::*;

use crate::component::collider::{HalfDiskCollider, RectangleCollider};
use crate::component::direction::Direction;
use crate::component::position::Position;
use crate::component::shield::Shield;
use crate::component::slash_attack::SlashAttack;
use crate::component::thrust_attack::ThrustAttack;
use crate::system::dynamic_collision_detection::{outcome, Outcome};
use crate::world::{
    ids_ascend,
    is_listed,
    lemma_places_are_stable,
    place_of,
    survivors,
    EntityView,
    World,
};

verus! {

/// Keeps attacks synchronized with their sources.
pub struct AttackUpdates;

/// The kinds of entity that follow another one around.
#[derive(PartialEq, Eq, Structural, Copy, Clone, Debug)]
pub enum Follower {
    Slash,
    Thrust,
    Shield,
}

impl Follower {
    /// The identifier of the entity that `entity` follows as a follower of
    /// this kind, if it is one.
    pub open spec fn owner(&self, entity: EntityView) -> Option<u64> {
        match *self {
            Follower::Slash => match entity.slash_attack {
                Some(slash_attack) => Some(slash_attack.source_id),
                None => None,
            },
            Follower::Thrust => match entity.thrust_attack {
                Some(thrust_attack) => Some(thrust_attack.source_id()),
                None => None,
            },
            Follower::Shield => match entity.shield {
                Some(shield) => Some(shield.bearer_id()),
                None => None,
            },
        }
    }

    /// Where a follower of this kind stands whose owner stands at
    /// `position`, faces `direction` and has the body `collider`.
    pub open spec fn place(
        &self,
        position: Position,
        direction: Direction,
        collider: RectangleCollider,
    ) -> Position {
        match *self {
            Follower::Slash => SlashAttack::position_for(position, direction, collider),
            Follower::Thrust => ThrustAttack::position_for(position, direction, collider),
            Follower::Shield => Shield::position_for(position, direction, collider),
        }
    }

    /// Whether the entity has the collider that a follower of this kind has.
    pub open spec fn has_shape(&self, entity: EntityView) -> bool {
        match *self {
            Follower::Slash => entity.half_disk_collider.is_some(),
            Follower::Thrust => entity.rectangle_collider.is_some(),
            Follower::Shield => entity.rectangle_collider.is_some(),
        }
    }

    /// The entity with its collider turned the way its owner faces.
    pub open spec fn turned(&self, entity: EntityView, direction: Direction) -> EntityView {
        match *self {
            Follower::Slash => EntityView {
                half_disk_collider: Some(
                    HalfDiskCollider {
                        radius: entity.half_disk_collider.unwrap().radius,
                        direction: direction,
                    },
                ),
                ..entity
            },
            Follower::Thrust => EntityView {
                rectangle_collider: Some(ThrustAttack::collider_for(direction)),
                ..entity
            },
            Follower::Shield => EntityView {
                rectangle_collider: Some(Shield::collider_for(direction)),
                ..entity
            },
        }
    }
}

/// Whether the entity has what its followers read: a place, a facing and a
/// body.
pub open spec fn can_be_followed(entity: EntityView) -> bool {
    entity.position.is_some() && entity.direction.is_some() && entity.rectangle_collider.is_some()
}

/// Whether the entity at `index`, if it follows a live entity, can be put
/// in its place: it has a place, a facing and the collider of its kind, and
/// the entity that it follows has what its followers read.
pub open spec fn follower_is_equipped(entities: Seq<EntityView>, kind: Follower, index: int) -> bool {
    let entity = entities[index];
    match kind.owner(entity) {
        Some(owner) => is_listed(entities, owner) ==> {
            &&& entity.position.is_some()
            &&& entity.direction.is_some()
            &&& kind.has_shape(entity)
            &&& can_be_followed(entities[place_of(entities, owner)])
        },
        None => true,
    }
}

/// Whether every follower of a live entity can be put in its place.
pub open spec fn followers_are_equipped(entities: Seq<EntityView>) -> bool {
    forall|kind: Follower, index: int|
        0 <= index < entities.len() ==> #[trigger] follower_is_equipped(entities, kind, index)
}

/// The entity `follower` where it belongs when it follows `owner`: in
/// front of it, facing the same way, with its collider turned that way.
pub open spec fn in_place(kind: Follower, follower: EntityView, owner: EntityView) -> EntityView {
    kind.turned(
        EntityView {
            direction: Some(owner.direction.unwrap()),
            position: Some(
                kind.place(
                    owner.position.unwrap(),
                    owner.direction.unwrap(),
                    owner.rectangle_collider.unwrap(),
                ),
            ),
            ..follower
        },
        owner.direction.unwrap(),
    )
}

/// The state of a pass after the entity at `index`, if it is a follower of
/// the given kind, has caught up with its owner: it is put where it belongs,
/// or doomed where its owner is no longer alive.
pub open spec fn follower_catches_up(state: Outcome, kind: Follower, index: int) -> Outcome {
    let follower = state.entities[index];
    match kind.owner(follower) {
        Some(owner) => {
            if is_listed(state.entities, owner) {
                outcome(
                    state.entities.update(
                        index,
                        in_place(
                            kind,
                            follower,
                            state.entities[place_of(state.entities, owner)],
                        ),
                    ),
                    state.doomed,
                )
            } else {
                outcome(state.entities, state.doomed.insert(follower.id))
            }
        },
        None => state,
    }
}

/// The state of a pass after the followers of the given kind among the
/// first `count` entities have caught up, one after the other.
pub open spec fn after_followers(state: Outcome, kind: Follower, count: nat) -> Outcome
    decreases count,
{
    if count == 0 {
        state
    } else {
        follower_catches_up(after_followers(state, kind, (count - 1) as nat), kind, count - 1)
    }
}

/// The entities that are left when every slash, then every thrust, then
/// every shield has caught up with its owner, and those without a live
/// owner are gone.
pub open spec fn after_attack_updates(entities: Seq<EntityView>) -> Seq<EntityView> {
    let count = entities.len();
    let slashes = after_followers(outcome(entities, Set::empty()), Follower::Slash, count);
    let thrusts = after_followers(slashes, Follower::Thrust, count);
    let shields = after_followers(thrusts, Follower::Shield, count);
    survivors(shields.entities, shields.doomed)
}

/// Reads the identifier of the entity that the one at `index` follows as a
/// follower of the given kind.
pub fn owner_of(world: &World, kind: Follower, index: usize) -> (owner: Option<u64>)
    requires
        index < world@.len(),
    ensures
        owner == kind.owner(world@[index as int]),
{
    let entity = world.entity(index);
    match kind {
        Follower::Slash => match &entity.slash_attack {
            Some(slash_attack) => Some(slash_attack.source_id()),
            None => None,
        },
        Follower::Thrust => match entity.thrust_attack {
            Some(thrust_attack) => Some(thrust_attack.source_id()),
            None => None,
        },
        Follower::Shield => match entity.shield {
            Some(shield) => Some(shield.bearer_id()),
            None => None,
        },
    }
}

/// Tells whether every follower of the given kind that follows a live
/// entity can be put in its place.
pub fn followers_of_kind_are_equipped(world: &World, kind: Follower) -> (equipped: bool)
    requires
        ids_ascend(world@),
    ensures
        equipped == (forall|index: int|
            0 <= index < world@.len() ==> #[trigger] follower_is_equipped(world@, kind, index)),
{
    let mut index: usize = 0;
    while index < world.len()
        invariant
            index <= world@.len(),
            ids_ascend(world@),
            forall|earlier: int|
                0 <= earlier < index ==> #[trigger] follower_is_equipped(world@, kind, earlier),
        decreases world@.len() - index,
    {
        match owner_of(world, kind, index) {
            Some(owner) => {
                match world.index_of(owner) {
                    Some(owner_index) => {
                        let follower = world.entity(index);
                        let source = world.entity(owner_index);
                        let shaped: bool = match kind {
                            Follower::Slash => follower.half_disk_collider.is_some(),
                            Follower::Thrust => follower.rectangle_collider.is_some(),
                            Follower::Shield => follower.rectangle_collider.is_some(),
                        };
                        if follower.position.is_none() || follower.direction.is_none() || !shaped
                            || source.position.is_none() || source.direction.is_none()
                            || source.rectangle_collider.is_none() {
                            assert(!follower_is_equipped(world@, kind, index as int));
                            return false;
                        }
                    },
                    None => {},
                }
            },
            None => {},
        }
        assert(follower_is_equipped(world@, kind, index as int));
        index = index + 1;
    }
    true
}

/// Tells whether every follower of the world that follows a live entity can
/// be put in its place.
pub fn all_followers_are_equipped(world: &World) -> (equipped: bool)
    requires
        ids_ascend(world@),
    ensures
        equipped == followers_are_equipped(world@),
{
    let equipped: bool = followers_of_kind_are_equipped(world, Follower::Slash)
        && followers_of_kind_are_equipped(world, Follower::Thrust)
        && followers_of_kind_are_equipped(world, Follower::Shield);
    proof {
        if equipped {
            assert forall|kind: Follower, index: int|
                0 <= index < world@.len() implies #[trigger] follower_is_equipped(
                world@,
                kind,
                index,
            ) by {
                match kind {
                    Follower::Slash => {},
                    Follower::Thrust => {},
                    Follower::Shield => {},
                }
            }
        }
    }
    equipped
}

/// Putting a follower in its place does not change who follows whom, nor
/// what any entity offers its followers.
pub proof fn lemma_catching_up_keeps_equipment(entities: Seq<EntityView>, kind: Follower, index: int)
    requires
        ids_ascend(entities),
        followers_are_equipped(entities),
        0 <= index < entities.len(),
        kind.owner(entities[index]).is_some(),
        is_listed(entities, kind.owner(entities[index]).unwrap()),
    ensures
        ({
            let owner = kind.owner(entities[index]).unwrap();
            let moved = entities.update(
                index,
                in_place(kind, entities[index], entities[place_of(entities, owner)]),
            );
            &&& followers_are_equipped(moved)
            &&& ids_ascend(moved)
        }),
{
    let owner = kind.owner(entities[index]).unwrap();
    let replacement = in_place(kind, entities[index], entities[place_of(entities, owner)]);
    let moved = entities.update(index, replacement);
    assert(follower_is_equipped(entities, kind, index));
    lemma_places_are_stable(entities, index, replacement, owner);
    assert forall|other_kind: Follower, other: int|
        0 <= other < moved.len() implies #[trigger] follower_is_equipped(
        moved,
        other_kind,
        other,
    ) by {
        assert(follower_is_equipped(entities, other_kind, other));
        assert(other_kind.owner(moved[other]) == other_kind.owner(entities[other]));
        match other_kind.owner(moved[other]) {
            Some(other_owner) => {
                lemma_places_are_stable(entities, index, replacement, other_owner);
                if is_listed(entities, other_owner) {
                    let place = place_of(entities, other_owner);
                    assert(can_be_followed(entities[place]));
                    assert(can_be_followed(moved[place]));
                }
            },
            None => {},
        }
    }
}

/// Lets the followers of the given kind catch up with their owners, and
/// notes those without a live owner in `doomed`.
pub fn follow_owners(world: &mut World, kind: Follower, doomed: &mut HashSet<u64>)
    requires
        old(world).wf(),
        followers_are_equipped(old(world)@),
    ensures
        final(world).wf(),
        final(world).next_id() == old(world).next_id(),
        final(world)@.len() == old(world)@.len(),
        followers_are_equipped(final(world)@),
        outcome(final(world)@, final(doomed)@) == after_followers(
            outcome(old(world)@, old(doomed)@),
            kind,
            old(world)@.len(),
        ),
{
    broadcast use vstd::std_specs::hash::group_hash_axioms;

    let ghost before = outcome(world@, doomed@);
    let count: usize = world.len();
    let mut index: usize = 0;
    while index < count
        invariant
            index <= count,
            world.wf(),
            world.next_id() == old(world).next_id(),
            world@.len() == count,
            before.entities.len() == count,
            followers_are_equipped(world@),
            outcome(world@, doomed@) == after_followers(before, kind, index as nat),
        decreases count - index,
    {
        let ghost current = outcome(world@, doomed@);
        assert(follower_is_equipped(world@, kind, index as int));
        match owner_of(world, kind, index) {
            Some(owner) => {
                match world.index_of(owner) {
                    Some(owner_index) => {
                        // Get source data.
                        let source = world.entity(owner_index);
                        let source_position: Position = source.position.unwrap();
                        let source_direction: Direction = source.direction.unwrap();
                        let source_collider: RectangleCollider = source.rectangle_collider.unwrap();
                        proof {
                            lemma_catching_up_keeps_equipment(world@, kind, index as int);
                        }
                        // Update direction, position, and collider.
                        let follower = world.entity_mut(index);
                        follower.direction = Some(source_direction);
                        match kind {
                            Follower::Slash => {
                                follower.position = Some(
                                    SlashAttack::compute_position(
                                        &source_position,
                                        &source_direction,
                                        &source_collider,
                                    ),
                                );
                                let radius: i32 = follower.half_disk_collider.unwrap().radius;
                                follower.half_disk_collider = Some(
                                    HalfDiskCollider { radius, direction: source_direction },
                                );
                            },
                            Follower::Thrust => {
                                follower.position = Some(
                                    ThrustAttack::compute_position(
                                        &source_position,
                                        &source_direction,
                                        &source_collider,
                                    ),
                                );
                                follower.rectangle_collider = Some(
                                    ThrustAttack::compute_collider(&source_direction),
                                );
                            },
                            Follower::Shield => {
                                follower.position = Some(
                                    Shield::compute_position(
                                        &source_position,
                                        &source_direction,
                                        &source_collider,
                                    ),
                                );
                                follower.rectangle_collider = Some(
                                    Shield::compute_collider(&source_direction),
                                );
                            },
                        }
                    },
                    None => {
                        // If source no longer exists, delete this attack.
                        let id: u64 = world.entity(index).id;
                        doomed.insert(id);
                    },
                }
            },
            None => {},
        }
        assert(outcome(world@, doomed@) == follower_catches_up(current, kind, index as int));
        index = index + 1;
    }
}

impl AttackUpdates {
    /// Puts every slash, thrust and shield where its owner is now, and
    /// removes those whose owner is no longer alive.
    pub fn run(&self, world: &mut World)
        requires
            old(world).wf(),
            followers_are_equipped(old(world)@),
        ensures
            final(world).wf(),
            final(world).next_id() == old(world).next_id(),
            final(world)@ == after_attack_updates(old(world)@),
    {
        broadcast use vstd::std_specs::hash::group_hash_axioms;

        let mut doomed: HashSet<u64> = HashSet::new();
        assert(doomed@ =~= Set::<u64>::empty());
        // Slash attack updates.
        follow_owners(world, Follower::Slash, &mut doomed);
        // Thrust attack updates.
        follow_owners(world, Follower::Thrust, &mut doomed);
        // Shield updates.
        follow_owners(world, Follower::Shield, &mut doomed);
        world.remove_all(&doomed);
    }
}

} // verus!
