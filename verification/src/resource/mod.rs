//! What the game keeps beside its entities: the region, the camera and the
//! HUD.

pub mod camera;
pub mod entrance;
pub mod exit;
pub mod hud;
pub mod region;
pub mod region_data;

pub use camera::Camera;
pub use entrance::Entrance;
pub use exit::Exit;
pub use hud::{HeartImage, Hud};
pub use region::{CurrentRegion, Region};
pub use region_data::{EnemyData, RegionData};
