use vstd::prelude::*;

use crate::component::direction::Direction;

verus! {

/// The displacement of an entity over one tick.
#[derive(PartialEq, Eq, Structural, Copy, Clone, Debug)]
pub struct Velocity {
    pub x: i32,
    pub y: i32,
}

impl Velocity {
    /// No movement at all.
    pub open spec fn zero() -> Velocity {
        Velocity { x: 0, y: 0 }
    }

    /// Movement at `speed` in the given direction.
    pub open spec fn along(direction: Direction, speed: i32) -> Velocity {
        match direction {
            Direction::Up => Velocity { x: 0, y: speed },
            Direction::Down => Velocity { x: 0, y: (-speed) as i32 },
            Direction::Left => Velocity { x: (-speed) as i32, y: 0 },
            Direction::Right => Velocity { x: speed, y: 0 },
        }
    }

    /// Computes the movement at `speed` in the given direction.
    pub fn heading(direction: Direction, speed: i32) -> (velocity: Velocity)
        requires
            speed > i32::MIN,
        ensures
            velocity == Velocity::along(direction, speed),
    {
        match direction {
            Direction::Up => Velocity { x: 0, y: speed },
            Direction::Down => Velocity { x: 0, y: -speed },
            Direction::Left => Velocity { x: -speed, y: 0 },
            Direction::Right => Velocity { x: speed, y: 0 },
        }
    }
}

impl Default for Velocity {
    fn default() -> (velocity: Velocity)
        ensures
            velocity == Velocity::zero(),
    {
        Velocity { x: 0, y: 0 }
    }
}

} // verus!
