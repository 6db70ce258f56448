//! Simulation engine of a turn-based dungeon crawl: map generation, combat,
//! monster behaviour, items and turn resolution, with every function verified
//! against a contract over mathematical views of the game state.

pub mod color;
pub mod text;
pub mod log;
pub mod tile;
pub mod entity;
pub mod rng;
pub mod movement;
pub mod spawn;
pub mod mapgen;
pub mod messages;
pub mod stats;
pub mod combat;
pub mod equipment;
pub mod fov;
pub mod inventory;
pub mod items;
pub mod ai;
pub mod level;
pub mod turn;
pub mod scene;
pub mod menu;
pub mod guard;
pub mod world;
