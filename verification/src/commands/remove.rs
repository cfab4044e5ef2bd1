//! The `remove` command: the author of a message leaves the queue.

use vstd::prelude::*;
use crate::models::game::{Game, GameError, Phases};
use crate::models::notification::{EventKind, NotificationPayload};
use crate::models::player::Player;
use crate::traits::has_members::HasMembers;

verus! {

/// Takes `author` out of the queue of `game` and returns the queue as it is
/// afterwards, together with the notification to send.
///
/// During registration every request is answered with the notice about the
/// queue as it then is, also the request of someone who was not queued and
/// so changed nothing; `send_embed` false suppresses it. In every other
/// phase the command is refused, nothing changes and there is nothing to
/// send.
pub fn remove_member(game: &mut Game, author: Player, send_embed: bool) -> (reply: (
    Vec<Player>,
    Option<NotificationPayload>,
))
    requires
        old(game).wf(),
    ensures
        final(game).wf(),
        final(game)@ == old(game)@.leave(author),
        reply.0@ == final(game)@.pool.members,
        reply.1 is Some <==> send_embed && old(game)@.phase == Phases::PlayerRegistration,
        reply.1 matches Some(payload) ==> payload@ == final(game)@.queue_notice(),
{
    let outcome = game.leave(author);
    let notice = if !send_embed {
        None
    } else {
        match outcome {
            Ok(payload) => Some(payload),
            Err(GameError::NotAMember) => Some(game.notification(EventKind::QueueProgress)),
            Err(_) => None,
        }
    };
    (game.draft_pool().members(), notice)
}

} // verus!
