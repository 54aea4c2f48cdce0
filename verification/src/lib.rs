//! Core of a grid-based snake game: a deterministic, tick-driven world model
//! that tracks the snake body, food positions and map walls, and reports what
//! happened on each tick as a list of game events. Rendering, input polling
//! and frame timing live outside this crate; they read the world's state and
//! feed it direction commands.

pub mod draw;
pub mod food;
pub mod map;
pub mod point;
pub mod snake;
pub mod world;
