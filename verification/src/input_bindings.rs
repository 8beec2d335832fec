//! What the player asks of the hero.

use vstd::prelude::*;

verus! {

/// The axis binding is empty because actions are used for movement.
#[derive(PartialEq, Eq, Structural, Copy, Clone, Debug, Hash)]
pub struct Axes;

/// The set of input actions the player can perform.
#[derive(PartialEq, Eq, Structural, Copy, Clone, Debug, Hash)]
pub enum Actions {
    Up,
    Down,
    Left,
    Right,
    Primary,
    Secondary,
    Strafe,
}

/// Player input bindings.
#[derive(Debug)]
pub struct InputBindings;

/// The actions that are held down during a tick.
#[derive(PartialEq, Eq, Structural, Copy, Clone, Debug)]
pub struct Input {
    pub up: bool,
    pub down: bool,
    pub left: bool,
    pub right: bool,
    pub primary: bool,
    pub secondary: bool,
    pub strafe: bool,
}

impl Input {
    /// Whether the given action is held down.
    pub open spec fn holds(&self, action: Actions) -> bool {
        match action {
            Actions::Up => self.up,
            Actions::Down => self.down,
            Actions::Left => self.left,
            Actions::Right => self.right,
            Actions::Primary => self.primary,
            Actions::Secondary => self.secondary,
            Actions::Strafe => self.strafe,
        }
    }

    /// How far along the x axis the player asks to move: one step to the
    /// right, one to the left, or none where both or neither are asked for.
    pub open spec fn sideways(&self) -> int {
        (if self.right {
            1int
        } else {
            0int
        }) - (if self.left {
            1int
        } else {
            0int
        })
    }

    /// How far along the y axis the player asks to move: one step up, one
    /// down, or none where both or neither are asked for.
    pub open spec fn upwards(&self) -> int {
        (if self.up {
            1int
        } else {
            0int
        }) - (if self.down {
            1int
        } else {
            0int
        })
    }

    /// The input in which no action is held down.
    pub open spec fn nothing() -> Input {
        Input {
            up: false,
            down: false,
            left: false,
            right: false,
            primary: false,
            secondary: false,
            strafe: false,
        }
    }

    /// No action is held down.
    pub fn idle() -> (input: Input)
        ensures
            input == Input::nothing(),
    {
        Input {
            up: false,
            down: false,
            left: false,
            right: false,
            primary: false,
            secondary: false,
            strafe: false,
        }
    }

    /// Tells whether the given action is held down.
    pub fn action_is_down(&self, action: &Actions) -> (down: bool)
        ensures
            down == self.holds(*action),
    {
        match action {
            Actions::Up => self.up,
            Actions::Down => self.down,
            Actions::Left => self.left,
            Actions::Right => self.right,
            Actions::Primary => self.primary,
            Actions::Secondary => self.secondary,
            Actions::Strafe => self.strafe,
        }
    }
}

} // verus!
