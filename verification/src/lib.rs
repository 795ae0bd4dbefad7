//! The simulation core of a brick-breaking game: a paddle, balls and blocks
//! in an arena, advanced frame by frame.
//!
//! A frame moves the paddle, moves the balls, resolves their collisions with
//! the walls, the paddle and the blocks, removes the blocks that have taken
//! all their hits, and updates the damage that the others show. The level is
//! over when no life or no block is left.
//!
//! The simulation works on whole numbers. Lengths are thousandths of a world
//! unit, speeds thousandths of a unit per second, times microseconds; see
//! [`fixed`].

pub mod bundle;
pub mod components;
pub mod config;
pub mod data;
pub mod fixed;
pub mod states;
pub mod systems;
pub mod util;
