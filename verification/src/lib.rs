//! Turn-based simulation core of a single-player dungeon crawler:
//! integer coordinate math, procedural dungeon generation, an
//! entity/component world, and an ordered per-turn pipeline that resolves
//! AI intents, movement with occupancy tracking, and rudimentary combat.

pub mod ai;
pub mod components;
pub mod coord;
pub mod events;
pub mod factories;
pub mod game_state;
pub mod map;
pub mod movement;
pub mod pipeline;
pub mod presentation;
mod rng;
pub mod visibility;
pub mod world;
