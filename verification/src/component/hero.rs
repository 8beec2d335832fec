use vstd::prelude::*;

verus! {

/// Marks the player's character and holds what it is doing.
#[derive(PartialEq, Eq, Structural, Copy, Clone, Debug)]
pub struct Hero {
    pub state: HeroState,
}

/// What the hero is doing.
#[derive(PartialEq, Eq, Structural, Copy, Clone, Debug)]
pub enum HeroState {
    /// Free for the player to control.
    FreelyMoving,
    /// In the middle of a slash.
    Slashing { slash_attack_id: u64, frames_left: u32 },
    /// In the middle of a thrust.
    Thrusting { thrust_attack_id: u64, frames_left: u32 },
}

impl Hero {
    /// An attack that is under way has time left.
    pub open spec fn wf(&self) -> bool {
        match self.state {
            HeroState::FreelyMoving => true,
            HeroState::Slashing { frames_left, .. } => frames_left > 0,
            HeroState::Thrusting { frames_left, .. } => frames_left > 0,
        }
    }
}

} // verus!
