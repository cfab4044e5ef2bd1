//! Availability of a queue: whether it still takes players, and the notice
//! that it does not.

use vstd::prelude::*;
use crate::models::notification::{queue_full, NotificationPayload};
use crate::traits::has_members::HasMembers;

verus! {

/// A queue that closes when it is full.
pub trait PoolAvailability: HasMembers {
    /// Whether the queue has room.
    fn is_open(&self) -> (open: bool)
        ensures
            open == (self.queued().len() < self.capacity()),
    ;

    /// The payload that reports that the queue is full, in the colour given
    /// by its components.
    fn members_full_embed(&self, r: u8, g: u8, b: u8) -> (payload: NotificationPayload)
        ensures
            payload@ == queue_full(self.queued(), r, g, b),
    ;
}

} // verus!
