use vstd::prelude::*;

use crate::random::random_in_range;

verus! {

/// One of the four ways a character, attack or shield can face.
#[derive(PartialEq, Eq, Structural, Copy, Clone, Debug)]
pub enum Direction {
    Up,
    Down,
    Left,
    Right,
}

impl Direction {
    /// The direction facing the other way along the same axis.
    pub open spec fn spec_opposite(&self) -> Direction {
        match *self {
            Direction::Up => Direction::Down,
            Direction::Down => Direction::Up,
            Direction::Left => Direction::Right,
            Direction::Right => Direction::Left,
        }
    }

    /// Whether the direction runs along the y axis.
    pub open spec fn is_vertical(&self) -> bool {
        *self == Direction::Up || *self == Direction::Down
    }

    /// The direction that a draw from `0..4` stands for.
    pub open spec fn spec_from_index(index: u32) -> Direction {
        if index == 0 {
            Direction::Up
        } else if index == 1 {
            Direction::Down
        } else if index == 2 {
            Direction::Left
        } else {
            Direction::Right
        }
    }

    /// The direction facing the other way along the same axis.
    #[verifier::when_used_as_spec(spec_opposite)]
    pub fn opposite(&self) -> (flipped: Direction)
        ensures
            flipped == self.spec_opposite(),
    {
        match self {
            Direction::Up => Direction::Down,
            Direction::Down => Direction::Up,
            Direction::Left => Direction::Right,
            Direction::Right => Direction::Left,
        }
    }

    /// Maps a draw from `0..4` to a direction, each value to a different one.
    pub fn from_index(index: u32) -> (direction: Direction)
        ensures
            direction == Direction::spec_from_index(index),
    {
        if index == 0 {
            Direction::Up
        } else if index == 1 {
            Direction::Down
        } else if index == 2 {
            Direction::Left
        } else {
            Direction::Right
        }
    }

    /// A direction drawn uniformly at random.
    pub fn random() -> (direction: Direction) {
        Direction::from_index(random_in_range(0, 4))
    }
}

/// Turning around twice faces the same way as before, and turning around
/// once never does.
pub proof fn lemma_opposite_is_involution(direction: Direction)
    ensures
        direction.spec_opposite().spec_opposite() == direction,
        direction.spec_opposite() != direction,
        direction.spec_opposite().is_vertical() == direction.is_vertical(),
{
}

/// Every direction stands for exactly one draw from `0..4`.
pub proof fn lemma_from_index_is_bijective(direction: Direction)
    ensures
        exists|index: u32| index < 4 && Direction::spec_from_index(index) == direction,
        forall|i: u32, j: u32|
            i < 4 && j < 4 && Direction::spec_from_index(i) == Direction::spec_from_index(j) ==> i
                == j,
{
    match direction {
        Direction::Up => assert(Direction::spec_from_index(0) == direction),
        Direction::Down => assert(Direction::spec_from_index(1) == direction),
        Direction::Left => assert(Direction::spec_from_index(2) == direction),
        Direction::Right => assert(Direction::spec_from_index(3) == direction),
    }
}

} // verus!
