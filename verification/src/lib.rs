//! A verified engine for the classic 3x3 three-in-a-row board game.
//!
//! The crate provides the board representation with win and draw
//! detection, and an exhaustive minimax search that picks the
//! game-theoretically optimal move for a player.  All I/O (prompting,
//! drawing the grid) is left to the surrounding program; the engine
//! works on plain values only.

pub mod board;
pub mod laws;
pub mod player;
pub mod players;
pub mod search;
