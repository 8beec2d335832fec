use vstd::prelude::*;

verus! {

/// What a heart image of the HUD shows.
#[derive(PartialEq, Eq, Structural, Copy, Clone, Debug)]
pub enum HeartImage {
    /// A point of health that the hero has lost.
    Empty,
    /// A point of health that the hero has.
    Full,
}

/// Tracks and displays HUD data, like current health, selected items, etc.
#[derive(Debug)]
pub struct Hud {
    pub max_hearts: i32,
    pub heart_images: Vec<HeartImage>,
}

impl Hud {
    /// A HUD that shows no hearts yet.
    pub fn new() -> (hud: Hud)
        ensures
            hud.max_hearts == 0,
            hud.heart_images@ == Seq::<HeartImage>::empty(),
    {
        Hud { max_hearts: 0, heart_images: Vec::new() }
    }
}

} // verus!
