//! Rules and optimal play for three-by-three tic-tac-toe.
//!
//! [`board`] holds the grid, its validated moves and its classification;
//! [`search`] the exhaustive search and the player built on it; [`game`] the
//! alternation of turns. [`human`] and [`text`] read what a person types, and
//! [`render`] draws the board for a terminal.

pub mod mark;
pub mod board;
pub mod search;
pub mod player;
pub mod text;
pub mod human;
pub mod render;
pub mod game;
