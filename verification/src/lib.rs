//! A brick-breaking arcade game as a simulation engine on an integer grid.
//!
//! The engine owns a paddle, a ball and a field of obstacles, and advances them
//! one tick at a time from the player's input. It draws nothing and reads no
//! device: a front end polls the input, calls [`game::Game::tick`] once per
//! frame and renders what the game then holds.

pub mod ball;
pub mod bounds;
pub mod config;
pub mod field;
pub mod game;
pub mod geometry;
pub mod invariants;
pub mod obstacle;
pub mod paddle;
pub mod random;
