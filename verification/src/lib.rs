//! A rules engine for English draughts (checkers) on an 8x8 board.
//!
//! The `board` module supplies the coordinate geometry: which squares a
//! piece could step or jump to, ignoring the other pieces.  The `logic`
//! module holds the board contents and the game state, enumerates the
//! legal moves for the side to move, and validates and applies a chosen
//! move.  The `render` module turns a finished state into its textual
//! picture.

pub mod board;
pub mod logic;
pub mod render;
