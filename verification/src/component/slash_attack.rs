use std::collections::HashSet;
use vstd::prelude::*;

use crate::component::collider::{HalfDiskCollider, RectangleCollider};
use crate::component::direction::Direction;
use crate::component::position::Position;
use crate::component::thrust_attack::{half_extent_along, reach_along};
use crate::constants::SLASH_ATTACK_RADIUS;

verus! {

/// A sword slash: it sweeps a half-disk in front of its source and hits
/// every target within it once.
pub struct SlashAttack {
    source_id: u64,
    /// IDs of characters this attack has already damaged.
    already_hit_ids: HashSet<u64>,
}

/// What a slash attack stands for: its source and the set of those it has
/// hit.
pub struct SlashAttackView {
    /// The entity ID of the character that spawned the slash attack.
    pub source_id: u64,
    /// The IDs of the characters that the attack has already damaged.
    pub hit_ids: Set<u64>,
}

impl SlashAttackView {
    /// A slash of the given source that has hit nobody yet.
    pub open spec fn fresh(source_id: u64) -> SlashAttackView {
        SlashAttackView { source_id, hit_ids: Set::empty() }
    }

    /// This slash after it has hit the entity with the given ID.
    pub open spec fn marked(self, id: u64) -> SlashAttackView {
        SlashAttackView { source_id: self.source_id, hit_ids: self.hit_ids.insert(id) }
    }
}

impl View for SlashAttack {
    type V = SlashAttackView;

    closed spec fn view(&self) -> SlashAttackView {
        SlashAttackView { source_id: self.source_id, hit_ids: self.already_hit_ids@ }
    }
}

impl SlashAttack {
    /// The entity ID of the character that spawned this slash attack.
    pub open spec fn spec_source_id(&self) -> u64 {
        self@.source_id
    }

    /// The IDs of the characters that this attack has already damaged.
    pub open spec fn hit_ids(&self) -> Set<u64> {
        self@.hit_ids
    }

    /// Where a slash stands whose source stands at `source_position`: on the
    /// edge of the source that faces forward.
    pub open spec fn position_for(
        source_position: Position,
        source_direction: Direction,
        source_collider: RectangleCollider,
    ) -> Position {
        source_position.moved(source_direction, half_extent_along(source_collider, source_direction))
    }

    /// The collider of a slash whose source faces `source_direction`.
    pub open spec fn collider_for(source_direction: Direction) -> HalfDiskCollider {
        HalfDiskCollider { radius: SLASH_ATTACK_RADIUS, direction: source_direction }
    }

    /// `source_id` The entity ID of the character that spawned this slash attack.
    pub fn new(source_id: u64) -> (attack: SlashAttack)
        ensures
            attack@ == SlashAttackView::fresh(source_id),
    {
        broadcast use vstd::std_specs::hash::group_hash_axioms;

        SlashAttack { source_id, already_hit_ids: HashSet::new() }
    }

    /// The entity ID of the character that spawned this slash attack.
    #[verifier::when_used_as_spec(spec_source_id)]
    pub fn source_id(&self) -> (source_id: u64)
        ensures
            source_id == self.spec_source_id(),
    {
        self.source_id
    }

    /// Checks whether the entity with the given ID has already been hit by
    /// this slash attack.
    pub fn has_been_hit(&self, id: u64) -> (hit: bool)
        ensures
            hit == self.hit_ids().contains(id),
    {
        broadcast use vstd::std_specs::hash::group_hash_axioms;

        self.already_hit_ids.contains(&id)
    }

    /// Marks the entity with the given ID as having been hit by this slash
    /// attack.
    pub fn mark_as_hit(&mut self, id: u64)
        ensures
            final(self)@ == old(self)@.marked(id),
    {
        broadcast use vstd::std_specs::hash::group_hash_axioms;

        self.already_hit_ids.insert(id);
    }

    /// Computes the position of the attack based on its source's orientation.
    pub fn compute_position(
        source_position: &Position,
        source_direction: &Direction,
        source_collider: &RectangleCollider,
    ) -> (position: Position)
        ensures
            position == SlashAttack::position_for(
                *source_position,
                *source_direction,
                *source_collider,
            ),
    {
        let reach: i64 = reach_along(source_collider, source_direction) as i64;
        source_position.step(*source_direction, reach)
    }

    /// Computes the collider of the attack based on its source's orientation.
    pub fn compute_collider(source_direction: &Direction) -> (collider: HalfDiskCollider)
        ensures
            collider == SlashAttack::collider_for(*source_direction),
    {
        HalfDiskCollider { radius: SLASH_ATTACK_RADIUS, direction: *source_direction }
    }
}

/// Marking a character that a slash has hit before changes nothing, so no
/// character is ever recorded twice; marking a new one records exactly one
/// more.
pub proof fn lemma_marking_twice_changes_nothing(hit_ids: Set<u64>, id: u64)
    requires
        hit_ids.finite(),
    ensures
        hit_ids.contains(id) ==> hit_ids.insert(id) == hit_ids,
        hit_ids.insert(id).insert(id) == hit_ids.insert(id),
        hit_ids.insert(id).len() == hit_ids.len() + (if hit_ids.contains(id) {
            0int
        } else {
            1int
        }),
{
    if hit_ids.contains(id) {
        assert(hit_ids.insert(id) =~= hit_ids);
    }
    assert(hit_ids.insert(id).insert(id) =~= hit_ids.insert(id));
}

} // verus!
