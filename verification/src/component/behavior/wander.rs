use vstd::prelude::*;

use crate::component::direction::Direction;

verus! {

/// Behavior that causes an enemy to wander around randomly.
#[derive(PartialEq, Eq, Structural, Copy, Clone, Debug)]
pub struct Wander {
    /// Where the enemy is heading, if it is not standing still.
    pub direction: Option<Direction>,
}

} // verus!
