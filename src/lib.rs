//! Rules engine and adversarial search for Brandubh, a 7x7 tafl game.
//!
//! `model` states the rules as spec functions over a mathematical view of a
//! game, `game` holds the executable rules engine proved against them, `ai`
//! holds the minimax search with alpha-beta pruning, and `laws` proves the
//! properties that relate several of these functions.
pub mod ai;
pub mod game;
pub mod laws;
pub mod model;
