//! What enemies do of their own accord.

pub mod shoot_arrows;
pub mod wander;

pub use shoot_arrows::{ShootArrows, ShouldShootArrow};
pub use wander::Wander;
