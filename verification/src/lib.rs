//! Fixed-point simulation core of a top-down action-adventure game:
//! terrain collision, entity-versus-entity combat resolution, the hero's
//! attack state machine and the timed effects that follow a hit.
//!
//! Coordinates are integers; `constants::UNIT` of them make one world unit.

pub mod component;
pub mod constants;
pub mod input_bindings;
pub mod random;
pub mod resource;
pub mod state;
pub mod system;
pub mod world;
