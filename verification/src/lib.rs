//! The simulation core of a top-down, tick-driven battle game: grid and world
//! coordinates, segment geometry, wall-aware path search, the player and enemy
//! state machines, and the per-tick update of the battle.
//!
//! Everything here works on whole numbers. Angles are whole thousandths of a
//! degree, counter-clockwise from due east; distances are whole 256ths of a
//! unit, rounded down.
pub mod battle_objects;
pub mod game_context;
pub mod input;
pub mod screens;
pub mod utils;
