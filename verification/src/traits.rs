//! The interfaces that queue-like entities share.

pub mod has_members;
pub mod pool_availability;
