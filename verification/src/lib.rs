//! A two-player chess game with an automated opponent.
//!
//! The opponent searches the game tree to a fixed depth with minimax and
//! alpha-beta pruning, and keeps its replies to every possible next move
//! of the human player ready in a cache.

pub mod ai_engine;
pub mod board;
pub mod common;
pub mod engine;
pub mod interface;
