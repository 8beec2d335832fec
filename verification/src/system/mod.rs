//! The phases of a simulation tick.

pub mod attack_updates;
pub mod camera_control;
pub mod collision;
pub mod collision_detection;
pub mod control;
pub mod death;
pub mod dynamic_collision_detection;
pub mod dynamic_collision_laws;
pub mod enemy_control;
pub mod hero_control;
pub mod hud_updates;
pub mod invulnerability;
pub mod knockback;
pub mod motion;
pub mod static_collision_detection;
pub mod static_collision_laws;
pub mod sword_attack_updates;
pub mod sword_positioning;
pub mod targeting;
pub mod terrain_laws;
pub mod terrain_response;
pub mod travel;

pub use attack_updates::AttackUpdates;
pub use camera_control::CameraControl;
pub use collision::Collision;
pub use collision_detection::CollisionDetection;
pub use control::Control;
pub use death::Death;
pub use dynamic_collision_detection::DynamicCollisionDetection;
pub use enemy_control::EnemyControl;
pub use hero_control::HeroControl;
pub use hud_updates::HudUpdates;
pub use invulnerability::Invulnerability;
pub use knockback::Knockback;
pub use motion::Motion;
pub use static_collision_detection::StaticCollisionDetection;
pub use sword_attack_updates::SwordAttackUpdates;
pub use sword_positioning::SwordPositioning;
pub use travel::Travel;
