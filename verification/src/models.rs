//! The data types of the matchmaking core and their mathematical views.

pub mod colour;
pub mod draft_pool;
pub mod game;
pub mod notification;
pub mod player;
pub mod team;
