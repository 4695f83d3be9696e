//! A terminal Snake game's core: grid geometry, key interpretation, the tick
//! engine with collision and growth rules, and food placement.

pub mod geometry;
pub mod input;
pub mod game;
pub mod layout;
pub mod laws;
