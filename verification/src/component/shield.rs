use vstd::prelude::*;

use crate::component::collider::RectangleCollider;
use crate::component::direction::Direction;
use crate::component::position::Position;
use crate::component::thrust_attack::{half_extent_along, lengthwise_collider, reach_along};
use crate::constants::{SHIELD_HALF_LENGTH, SHIELD_HALF_WIDTH};

verus! {

/// A shield, held crosswise in front of its bearer.
#[derive(PartialEq, Eq, Structural, Copy, Clone, Debug)]
pub struct Shield {
    bearer_id: u64,
}

impl Shield {
    /// The entity ID of the character that bears this shield.
    pub closed spec fn spec_bearer_id(&self) -> u64 {
        self.bearer_id
    }

    /// The shield of the given bearer.
    pub closed spec fn bearing(bearer_id: u64) -> Shield {
        Shield { bearer_id }
    }

    /// Where a shield stands whose bearer stands at `bearer_position`: in
    /// front of the bearer, edge to edge with it.
    pub open spec fn position_for(
        bearer_position: Position,
        bearer_direction: Direction,
        bearer_collider: RectangleCollider,
    ) -> Position {
        bearer_position.moved(
            bearer_direction,
            half_extent_along(bearer_collider, bearer_direction) + SHIELD_HALF_WIDTH,
        )
    }

    /// The collider of a shield whose bearer faces `bearer_direction`: its
    /// longer side runs across the bearer's facing.
    pub open spec fn collider_for(bearer_direction: Direction) -> RectangleCollider {
        lengthwise_collider(bearer_direction, SHIELD_HALF_LENGTH, SHIELD_HALF_WIDTH)
    }

    /// `bearer_id` The entity ID of the character that bears this shield.
    pub fn new(bearer_id: u64) -> (shield: Shield)
        ensures
            shield == Shield::bearing(bearer_id),
            shield.spec_bearer_id() == bearer_id,
    {
        Shield { bearer_id }
    }

    /// The entity ID of the character that bears this shield.
    #[verifier::when_used_as_spec(spec_bearer_id)]
    pub fn bearer_id(&self) -> (bearer_id: u64)
        ensures
            bearer_id == self.spec_bearer_id(),
    {
        self.bearer_id
    }

    /// Computes the position of the shield based on its bearer's orientation.
    pub fn compute_position(
        bearer_position: &Position,
        bearer_direction: &Direction,
        bearer_collider: &RectangleCollider,
    ) -> (position: Position)
        ensures
            position == Shield::position_for(*bearer_position, *bearer_direction, *bearer_collider),
    {
        let reach: i64 = reach_along(bearer_collider, bearer_direction) as i64
            + SHIELD_HALF_WIDTH as i64;
        bearer_position.step(*bearer_direction, reach)
    }

    /// Computes the collider of the shield based on its bearer's orientation.
    pub fn compute_collider(bearer_direction: &Direction) -> (collider: RectangleCollider)
        ensures
            collider == Shield::collider_for(*bearer_direction),
    {
        match bearer_direction {
            Direction::Up | Direction::Down => RectangleCollider {
                half_width: SHIELD_HALF_LENGTH,
                half_height: SHIELD_HALF_WIDTH,
            },
            Direction::Left | Direction::Right => RectangleCollider {
                half_width: SHIELD_HALF_WIDTH,
                half_height: SHIELD_HALF_LENGTH,
            },
        }
    }
}

/// A shield is told apart by its bearer alone.
pub proof fn lemma_shield_is_its_bearer(shield: Shield, bearer_id: u64)
    ensures
        Shield::bearing(bearer_id).spec_bearer_id() == bearer_id,
        shield == Shield::bearing(shield.spec_bearer_id()),
{
}

} // verus!
