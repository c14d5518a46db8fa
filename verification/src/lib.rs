//! A board engine for the game of little horses: up to four colors race
//! their horses around a shared ring of cells and up a private stairway.
//!
//! `board` holds the mathematical model of a game and its moves, `game` the
//! engine that plays them, and `laws` what is proved of them. `dice` throws
//! the die. `render` lays out the picture of a game piece by piece, and
//! `paint` gives each piece its text.

pub mod board;
pub mod cell;
pub mod dice;
pub mod game;
pub mod laws;
pub mod paint;
pub mod render;
