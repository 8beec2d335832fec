//! Tuning constants of the simulation.
//!
//! Lengths and speeds are fixed-point: one world unit is `UNIT` steps of the
//! integer coordinates that positions, velocities and colliders are stored in.

use vstd::prelude::*;

verus! {

/// Number of coordinate steps in one world unit.
pub const UNIT: i32 = 1000;

/// The size of a tile in the world.
pub const TILE_SIZE: i32 = 40_000;

/// Half the size of a tile: the largest half-extent the terrain resolver accepts.
pub const HALF_TILE: i32 = 20_000;

/// The largest number of rows, and of columns, a region may have. It keeps
/// every tile boundary, and every collider resting against one, representable.
pub const MAX_REGION_SPAN: usize = 50_000;

/// The base maximum health of the hero.
pub const HERO_BASE_HEALTH: i32 = 20;

/// The base maximum health of enemies.
pub const ENEMY_BASE_HEALTH: i32 = 3;

/// The shortest half-extent of a sword thrust's collider.
pub const THRUST_ATTACK_HALF_WIDTH: i32 = 6_000;

/// The longest half-extent of a sword thrust's collider.
pub const THRUST_ATTACK_HALF_LENGTH: i32 = 20_000;

/// The radius of a sword slash attack.
pub const SLASH_ATTACK_RADIUS: i32 = 40_000;

/// The shortest half-extent of a shield's collider.
pub const SHIELD_HALF_WIDTH: i32 = 6_000;

/// The longest half-extent of a shield's collider.
pub const SHIELD_HALF_LENGTH: i32 = 20_000;

/// The shortest half-extent of an arrow attack's collider.
pub const ARROW_ATTACK_HALF_WIDTH: i32 = 6_000;

/// The longest half-extent of an arrow attack's collider.
pub const ARROW_ATTACK_HALF_LENGTH: i32 = 20_000;

/// The minimum number of frames an archer will wait before shooting an arrow.
pub const MIN_ARROW_DELAY: u32 = 150;

/// The maximum number of frames an archer will wait before shooting an arrow.
pub const MAX_ARROW_DELAY: u32 = 300;

/// The speed of a launched arrow.
pub const ARROW_SPEED: i32 = 10_000;

/// The speed at which a character is knocked away when hit.
pub const KNOCKBACK_SPEED: i32 = 12_500;

/// The number of frames knockback lasts.
pub const KNOCKBACK_FRAMES: u32 = 5;

/// The number of frames a character is invulnerable after being damaged.
pub const INVULNERABLE_FRAMES: u32 = 60;

/// The period of the blinking animation during invulnerability, in frames.
pub const INVULNERABLE_BLINK_PERIOD: u32 = 2;

/// The speed of a hero that is walked about without attacks, along one axis.
pub const STROLL_ORTHOGONAL_SPEED: i32 = 7_000;

/// The speed of a hero that is walked about without attacks, along each
/// axis when walking along both.
pub const STROLL_DIAGONAL_SPEED: i32 = 4_949;

/// The speed of the hero when walking along one axis.
pub const HERO_ORTHOGONAL_SPEED: i32 = 5_000;

/// The speed of the hero along each axis when walking along both, so that
/// the hero is no faster across than along.
pub const HERO_DIAGONAL_SPEED: i32 = 3_535;

/// The speed at which the hero rushes forward with a thrust.
pub const THRUST_SPEED: i32 = 10_000;

/// The number of frames a slash lasts.
pub const SLASH_FRAMES: u32 = 9;

/// The number of frames a thrust lasts.
pub const THRUST_FRAMES: u32 = 9;

/// The speed of a wandering enemy.
pub const ENEMY_SPEED: i32 = 3_000;

/// The number of equally likely outcomes of the roll that decides whether a
/// wandering enemy changes its mind.
pub const WANDER_ROLL_RANGE: u32 = 100;

/// A wandering enemy turns on a roll below this.
pub const TURN_THRESHOLD: u32 = 1;

/// A wandering enemy that does not turn stops on a roll below this.
pub const STOP_THRESHOLD: u32 = 2;

/// The width of a heart pickup in the world.
pub const HEART_WIDTH: i32 = 26_000;

/// The height of a heart pickup in the world.
pub const HEART_HEIGHT: i32 = 24_000;

} // verus!
