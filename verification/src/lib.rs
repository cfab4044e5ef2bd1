//! Matchmaking core for pick-up games: a queue of players that closes when it
//! is full, a numbered pool that captains draft from, and the game state
//! machine that guards which command is valid in which phase.
//!
//! Every executable function carries a contract over the views defined next
//! to the data types, and Verus proves each body against it.

pub mod models;
pub mod commands;
pub mod laws;
pub mod text;
pub mod traits;
