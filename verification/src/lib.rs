//! Deterministic simulator for a game's seeded world generation.
//!
//! Given a 32-bit seed and a set of mode flags, the library reproduces,
//! bit for bit, the sequence of pseudo-random draws and rejection loops
//! that the game performs when it creates a world: a creature-replacement
//! mapping, a bravery-mode assignment, and a per-area relic assignment.
//! The game's reference tables (creature roster, areas, abilities, relics)
//! are supplied by the caller as plain data.

pub mod bravery;
pub mod game;
pub mod game_data;
pub mod game_manager;
pub mod map;
pub mod monster;
pub mod prng;
pub mod randomizer;
pub mod rating;
pub mod relic;

