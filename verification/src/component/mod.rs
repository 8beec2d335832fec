//! The attributes an entity can carry.

pub mod animation;
pub mod arrow_attack;
pub mod behavior;
pub mod collider;
pub mod direction;
pub mod enemy;
pub mod faction;
pub mod health;
pub mod heart;
pub mod hero;
pub mod invulnerable;
pub mod knocked_back;
pub mod position;
pub mod removal;
pub mod shield;
pub mod slash_attack;
pub mod sword_attack;
pub mod terrain;
pub mod thrust_attack;
pub mod velocity;

pub use animation::{Animation, Frame};
pub use arrow_attack::ArrowAttack;
pub use direction::Direction;
pub use enemy::Enemy;
pub use faction::Faction;
pub use health::{Health, HealthChange};
pub use heart::Heart;
pub use hero::{Hero, HeroState};
pub use invulnerable::{Invulnerable, InvulnerableFinished};
pub use knocked_back::{KnockedBack, KnockedBackFinished};
pub use position::{Position, TileCoords};
pub use shield::Shield;
pub use slash_attack::SlashAttack;
pub use sword_attack::SwordAttack;
pub use terrain::Terrain;
pub use thrust_attack::ThrustAttack;
pub use velocity::Velocity;
