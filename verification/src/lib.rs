//! Core logic of a grid-based snake game: the world model, the tick
//! transition (movement, collision, food consumption and replenishment),
//! the input mapper, and the projection of the world to a character grid.
//!
//! Terminal handling, keyboard polling and drawing are left to the caller;
//! this crate works on plain values and proves what each step does.

pub mod geometry;
pub mod snake;
pub mod rng;
pub mod game;
pub mod render;
