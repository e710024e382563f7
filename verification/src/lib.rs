//! Rules and turn engine for a game of chess on an 8 x 8 board.
//!
//! The library models pieces, per-piece move legality against a board
//! occupancy snapshot, turn alternation, a move resolver driven by square
//! selections, and game-ending detection by king capture.

pub mod board;
pub mod game;
pub mod pieces;
