pub mod ability_plots;
pub mod battle_player;
pub mod buildables;
pub mod button;
pub mod camera;
pub mod coordinates;
pub mod enemy;
pub mod hud;
pub mod other_player;
pub mod projectiles;
