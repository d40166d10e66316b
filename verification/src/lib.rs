//! A verified two-player, turn-based grid game engine (tic-tac-toe).
//!
//! The `board` module owns the 3x3 grid, validates moves and detects a
//! winner; the `player` module is the immutable identity record of one
//! player; the `game` module drives the turns, parsing one line of input
//! per move request. The small `hello` and `summary` modules carry the
//! crate's remaining public items.

pub mod board;
pub mod game;
pub mod hello;
pub mod parse;
pub mod player;
pub mod summary;
