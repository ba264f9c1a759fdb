//! A small grid world: a rectangular board with a start cell, a finish cell
//! and a number of holes, and an agent that walks it one cell per action
//! until it reaches the finish or falls into a hole.

pub mod tiles;
mod rng;
pub mod layout;
pub mod board;
pub mod env;
pub mod render;

pub use crate::board::{Board, BoardError};
pub use crate::env::{Actions, Env, Position, State};
pub use crate::tiles::Tiles;
