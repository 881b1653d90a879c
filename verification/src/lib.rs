//! Conway's Game of Life on a torus that can grow: the board and its rule,
//! the running statistics, pattern stamping and the growth policy, each with
//! a contract over a mathematical model of the game.

pub mod board;
pub mod config;
pub mod engine;
pub mod glider;
pub mod grid;
pub mod laws;
pub mod patterns;
pub mod random;
pub mod universe;

pub use config::{Config, Density};
pub use engine::GameState;
