//! The states of the game.

pub mod playing;
pub mod spawning;

pub use playing::{Fault, Playing};
