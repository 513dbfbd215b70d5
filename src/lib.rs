//! A falling-block puzzle engine: a fixed playfield, one falling piece,
//! collision rules, line clearing and scoring, with every step proved.

pub mod shapes;
pub mod piece;
pub mod board;
pub mod game;
pub mod display;
pub mod laws;
