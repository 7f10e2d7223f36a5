//! Core of a two-player chess game with a computer opponent: board state,
//! full-rules move generation, terminal detection, and alpha-beta search.

pub mod app;
pub mod board;
pub mod engine;
pub mod laws;
pub mod moves;
pub mod pieces;
pub mod rules;
