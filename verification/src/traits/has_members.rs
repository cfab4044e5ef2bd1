//! Membership of a queue: who is in it, joining and leaving.

use vstd::prelude::*;
use crate::models::notification::{queue_notice, queue_progress, NotificationPayload};
use crate::models::player::{has_id, without, Player};

verus! {

/// What `add_member` did.
#[derive(Clone, Copy, Debug, PartialEq, Eq, Structural)]
pub enum AddOutcome {
    /// The player was appended and the queue still has room.
    AddedQueueOpen,
    /// The player was appended and took the last place: the queue is closed.
    AddedQueueNowFull,
    /// The player was queued already; nothing changed.
    AlreadyMember,
    /// The queue has no room left; nothing changed.
    QueueFull,
}

/// What `remove_member` did.
#[derive(Clone, Copy, Debug, PartialEq, Eq, Structural)]
pub enum RemoveOutcome {
    /// The player was taken out of the queue.
    Removed,
    /// The player was not queued; nothing changed.
    NotMember,
    /// The membership is frozen; nothing changed.
    QueueClosed,
}

/// What adding `user` to `queue` reports when the queue has `capacity`
/// places.
pub open spec fn add_outcome(queue: Seq<Player>, capacity: nat, user: Player) -> AddOutcome {
    if has_id(queue, user.id) {
        AddOutcome::AlreadyMember
    } else if queue.len() >= capacity {
        AddOutcome::QueueFull
    } else if queue.len() + 1 == capacity {
        AddOutcome::AddedQueueNowFull
    } else {
        AddOutcome::AddedQueueOpen
    }
}

/// `queue` after `user` has been added: appended at the end where the
/// player is new and there is room, unchanged otherwise.
pub open spec fn queue_after_add(queue: Seq<Player>, capacity: nat, user: Player) -> Seq<Player> {
    match add_outcome(queue, capacity, user) {
        AddOutcome::AddedQueueOpen | AddOutcome::AddedQueueNowFull => queue.push(user),
        AddOutcome::AlreadyMember | AddOutcome::QueueFull => queue,
    }
}

/// What removing the player `id` from `queue` reports.
pub open spec fn remove_outcome(queue: Seq<Player>, frozen: bool, id: u64) -> RemoveOutcome {
    if !has_id(queue, id) {
        RemoveOutcome::NotMember
    } else if frozen {
        RemoveOutcome::QueueClosed
    } else {
        RemoveOutcome::Removed
    }
}

/// `queue` after the player `id` has been removed: taken out where the
/// player is queued and the membership is not frozen, unchanged otherwise.
pub open spec fn queue_after_remove(queue: Seq<Player>, frozen: bool, id: u64) -> Seq<Player> {
    match remove_outcome(queue, frozen, id) {
        RemoveOutcome::Removed => without(queue, id),
        RemoveOutcome::NotMember | RemoveOutcome::QueueClosed => queue,
    }
}

/// An entity that keeps an ordered queue of players without repetition, up
/// to a capacity.
pub trait HasMembers {
    /// The invariant of the entity.
    spec fn valid(&self) -> bool;

    /// The queued players in the order in which they joined.
    spec fn queued(&self) -> Seq<Player>;

    /// How many players the queue takes.
    spec fn capacity(&self) -> nat;

    /// Whether the membership can no longer change.
    spec fn frozen(&self) -> bool;

    /// The queued players in joining order.
    fn members(&self) -> (members: Vec<Player>)
        ensures
            members@ == self.queued(),
    ;

    /// Appends `user` to the queue unless the player is queued already or
    /// the queue is full. Returns what was done and the notice about the
    /// queue as it is afterwards: the full notice from the call that fills
    /// the queue, the progress notice from every other.
    fn add_member(&mut self, user: Player) -> (reply: (AddOutcome, NotificationPayload))
        requires
            old(self).valid(),
        ensures
            final(self).valid(),
            reply.0 == add_outcome(old(self).queued(), old(self).capacity(), user),
            final(self).queued() == queue_after_add(old(self).queued(), old(self).capacity(), user),
            final(self).capacity() == old(self).capacity(),
            reply.1@ == queue_notice(
                final(self).queued(),
                final(self).capacity(),
                reply.0 == AddOutcome::AddedQueueNowFull,
            ),
    ;

    /// Takes `user` out of the queue unless the player is not queued or the
    /// membership is frozen. Returns what was done and the progress notice
    /// about the queue as it is afterwards.
    fn remove_member(&mut self, user: Player) -> (reply: (RemoveOutcome, NotificationPayload))
        requires
            old(self).valid(),
        ensures
            final(self).valid(),
            reply.0 == remove_outcome(old(self).queued(), old(self).frozen(), user.id),
            final(self).queued() == queue_after_remove(
                old(self).queued(),
                old(self).frozen(),
                user.id,
            ),
            final(self).capacity() == old(self).capacity(),
            final(self).frozen() == old(self).frozen(),
            reply.1@ == queue_notice(final(self).queued(), final(self).capacity(), false),
    ;

    /// The payload that reports who is queued and how far the queue has
    /// filled, in the colour given by its components.
    fn members_changed_embed(&self, r: u8, g: u8, b: u8) -> (payload: NotificationPayload)
        ensures
            payload@ == queue_progress(self.queued(), self.capacity(), r, g, b),
    ;
}

} // verus!
