use vstd::prelude::*;

use crate::component::position::Position;

verus! {

/// Resource for tracking where the game's camera looks.
#[derive(PartialEq, Eq, Structural, Copy, Clone, Debug)]
pub struct Camera {
    pub position: Position,
}

} // verus!
