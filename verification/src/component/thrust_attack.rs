use vstd::prelude::*;

use crate::component::collider::RectangleCollider;
use crate::component::direction::Direction;
use crate::component::position::Position;
use crate::constants::{THRUST_ATTACK_HALF_LENGTH, THRUST_ATTACK_HALF_WIDTH};

verus! {

/// A sword thrust: it rushes forward with its source and hits one target.
#[derive(PartialEq, Eq, Structural, Copy, Clone, Debug)]
pub struct ThrustAttack {
    source_id: u64,
    is_active: bool,
}

/// The half-extent of a rectangle along the axis of `direction`.
pub open spec fn half_extent_along(collider: RectangleCollider, direction: Direction) -> int {
    if direction.is_vertical() {
        collider.half_height as int
    } else {
        collider.half_width as int
    }
}

/// A rectangle of the given half-extents whose longer side runs along the
/// axis of `direction`.
pub open spec fn lengthwise_collider(
    direction: Direction,
    half_width: i32,
    half_length: i32,
) -> RectangleCollider {
    if direction.is_vertical() {
        RectangleCollider { half_width: half_width, half_height: half_length }
    } else {
        RectangleCollider { half_width: half_length, half_height: half_width }
    }
}

/// Computes the half-extent of a rectangle along the axis of `direction`.
pub fn reach_along(collider: &RectangleCollider, direction: &Direction) -> (reach: i32)
    ensures
        reach == half_extent_along(*collider, *direction),
{
    match direction {
        Direction::Up | Direction::Down => collider.half_height,
        Direction::Left | Direction::Right => collider.half_width,
    }
}

impl ThrustAttack {
    /// The entity ID of the character that spawned this thrust attack.
    pub closed spec fn spec_source_id(&self) -> u64 {
        self.source_id
    }

    /// Whether this thrust attack is able to hit a character.
    pub closed spec fn spec_is_active(&self) -> bool {
        self.is_active
    }

    /// A fresh thrust of the given source: one that can still hit.
    pub closed spec fn fresh(source_id: u64) -> ThrustAttack {
        ThrustAttack { source_id, is_active: true }
    }

    /// This thrust once it has landed: unable to hit again.
    pub closed spec fn spent(&self) -> ThrustAttack {
        ThrustAttack { source_id: self.source_id, is_active: false }
    }

    /// Where a thrust stands whose source stands at `source_position`: in
    /// front of the source, edge to edge with it.
    pub open spec fn position_for(
        source_position: Position,
        source_direction: Direction,
        source_collider: RectangleCollider,
    ) -> Position {
        source_position.moved(
            source_direction,
            half_extent_along(source_collider, source_direction) + THRUST_ATTACK_HALF_LENGTH,
        )
    }

    /// The collider of a thrust whose source faces `source_direction`.
    pub open spec fn collider_for(source_direction: Direction) -> RectangleCollider {
        lengthwise_collider(source_direction, THRUST_ATTACK_HALF_WIDTH, THRUST_ATTACK_HALF_LENGTH)
    }

    /// `source_id` The entity ID of the character that spawned this thrust attack.
    pub fn new(source_id: u64) -> (attack: ThrustAttack)
        ensures
            attack == ThrustAttack::fresh(source_id),
            attack.spec_source_id() == source_id,
            attack.spec_is_active(),
    {
        ThrustAttack { source_id, is_active: true }
    }

    /// The entity ID of the character that spawned this thrust attack.
    #[verifier::when_used_as_spec(spec_source_id)]
    pub fn source_id(&self) -> (source_id: u64)
        ensures
            source_id == self.spec_source_id(),
    {
        self.source_id
    }

    /// Whether this thrust attack is able to hit a character.
    #[verifier::when_used_as_spec(spec_is_active)]
    pub fn is_active(&self) -> (active: bool)
        ensures
            active == self.spec_is_active(),
    {
        self.is_active
    }

    /// Makes the thrust attack inactive (unable to hit a character).
    pub fn make_inactive(&mut self)
        ensures
            *final(self) == old(self).spent(),
            !final(self).spec_is_active(),
            final(self).spec_source_id() == old(self).spec_source_id(),
    {
        self.is_active = false;
    }

    /// Computes the position of the attack based on its source's orientation.
    pub fn compute_position(
        source_position: &Position,
        source_direction: &Direction,
        source_collider: &RectangleCollider,
    ) -> (position: Position)
        ensures
            position == ThrustAttack::position_for(
                *source_position,
                *source_direction,
                *source_collider,
            ),
    {
        let reach: i64 = reach_along(source_collider, source_direction) as i64
            + THRUST_ATTACK_HALF_LENGTH as i64;
        source_position.step(*source_direction, reach)
    }

    /// Computes the collider of the attack based on its source's orientation.
    pub fn compute_collider(source_direction: &Direction) -> (collider: RectangleCollider)
        ensures
            collider == ThrustAttack::collider_for(*source_direction),
    {
        match source_direction {
            Direction::Up | Direction::Down => RectangleCollider {
                half_width: THRUST_ATTACK_HALF_WIDTH,
                half_height: THRUST_ATTACK_HALF_LENGTH,
            },
            Direction::Left | Direction::Right => RectangleCollider {
                half_width: THRUST_ATTACK_HALF_LENGTH,
                half_height: THRUST_ATTACK_HALF_WIDTH,
            },
        }
    }
}

/// A fresh thrust can hit, a spent one cannot, and both remember their
/// source.
pub proof fn lemma_thrust_lifecycle(source_id: u64, attack: ThrustAttack)
    ensures
        ThrustAttack::fresh(source_id).spec_is_active(),
        ThrustAttack::fresh(source_id).spec_source_id() == source_id,
        !attack.spent().spec_is_active(),
        attack.spent().spec_source_id() == attack.spec_source_id(),
        attack.spent().spent() == attack.spent(),
{
}

/// A thrust touches its source along one edge and shares no area with it, as
/// long as coordinates can express where it stands.
pub proof fn lemma_thrust_stands_clear_of_source(
    source_position: Position,
    source_direction: Direction,
    source_collider: RectangleCollider,
)
    requires
        source_collider.half_width >= 0,
        source_collider.half_height >= 0,
        -1_000_000_000 <= source_position.x <= 1_000_000_000,
        -1_000_000_000 <= source_position.y <= 1_000_000_000,
        source_collider.half_width <= 1_000_000_000,
        source_collider.half_height <= 1_000_000_000,
    ensures
        crate::component::collider::overlap_area(
            source_collider,
            source_position,
            ThrustAttack::collider_for(source_direction),
            ThrustAttack::position_for(source_position, source_direction, source_collider),
        ) == 0,
{
    let thrust = ThrustAttack::collider_for(source_direction);
    let at = ThrustAttack::position_for(source_position, source_direction, source_collider);
    let w = crate::component::collider::overlap_width(source_collider, source_position, thrust, at);
    let h = crate::component::collider::overlap_height(
        source_collider,
        source_position,
        thrust,
        at,
    );
    assert(w == 0 || h == 0);
    assert(w * h == 0) by (nonlinear_arith)
        requires
            w == 0 || h == 0,
    ;
}

} // verus!
