use vstd::prelude::*;

use crate::component::collider::RectangleCollider;
use crate::component::direction::Direction;
use crate::component::faction::Faction;
use crate::component::thrust_attack::lengthwise_collider;
use crate::constants::{ARROW_ATTACK_HALF_LENGTH, ARROW_ATTACK_HALF_WIDTH};

verus! {

/// An arrow in flight. It hits the other faction and breaks on what it hits.
#[derive(PartialEq, Eq, Structural, Copy, Clone, Debug)]
pub struct ArrowAttack {
    faction: Faction,
}

impl ArrowAttack {
    /// The faction of the entity that spawned this arrow attack.
    pub closed spec fn spec_faction(&self) -> Faction {
        self.faction
    }

    /// The arrow of the given faction.
    pub closed spec fn new_spec(faction: Faction) -> ArrowAttack {
        ArrowAttack { faction }
    }

    /// The collider of an arrow that flies towards `source_direction`.
    pub open spec fn collider_for(source_direction: Direction) -> RectangleCollider {
        lengthwise_collider(source_direction, ARROW_ATTACK_HALF_WIDTH, ARROW_ATTACK_HALF_LENGTH)
    }

    /// `faction` The faction of the entity that spawned this arrow attack.
    pub fn new(faction: Faction) -> (attack: ArrowAttack)
        ensures
            attack == ArrowAttack::new_spec(faction),
            attack.spec_faction() == faction,
    {
        ArrowAttack { faction }
    }

    /// The faction of the entity that spawned this arrow attack.
    #[verifier::when_used_as_spec(spec_faction)]
    pub fn faction(&self) -> (faction: Faction)
        ensures
            faction == self.spec_faction(),
    {
        self.faction
    }

    /// Computes the collider of the attack based on its source's orientation.
    pub fn compute_collider(source_direction: &Direction) -> (collider: RectangleCollider)
        ensures
            collider == ArrowAttack::collider_for(*source_direction),
    {
        match source_direction {
            Direction::Up | Direction::Down => RectangleCollider {
                half_width: ARROW_ATTACK_HALF_WIDTH,
                half_height: ARROW_ATTACK_HALF_LENGTH,
            },
            Direction::Left | Direction::Right => RectangleCollider {
                half_width: ARROW_ATTACK_HALF_LENGTH,
                half_height: ARROW_ATTACK_HALF_WIDTH,
            },
        }
    }
}

/// An arrow is told apart by its faction alone.
pub proof fn lemma_arrow_is_its_faction(attack: ArrowAttack, faction: Faction)
    ensures
        ArrowAttack::new_spec(faction).spec_faction() == faction,
        attack == ArrowAttack::new_spec(attack.spec_faction()),
{
}

} // verus!
