//! The exact parts of a small space game.
//!
//! A ship's hull is laid out on an integer grid, and the clock that orbits
//! are timed by counts whole nanoseconds. These are the parts of the game
//! that can be stated exactly, so they are the parts that are proved here;
//! the orbital mechanics themselves are floating-point arithmetic and live
//! with the program.

pub mod physics;
pub mod tiles;
