//! Board-state engine for a two-player wall-and-path grid game.
//!
//! The grid interleaves space cells (even row, even column), which players
//! occupy, with wall-segment cells between them. Every operation is verified
//! against a mathematical model of the grid.

pub mod game_error;
pub mod position;
pub mod orientation;
pub mod tile;
pub mod board;
pub mod path;
pub mod game;
pub mod move_directions;
pub mod scene;
