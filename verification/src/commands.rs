//! The inbound command surface: what a dispatcher calls once it has turned a
//! chat message into plain values.

pub mod add;
pub mod remove;
