//! The `add` command: the author of a message joins the queue.

use vstd::prelude::*;
use crate::models::game::{Game, GameError, Phases};
use crate::models::notification::{EventKind, NotificationPayload};
use crate::models::player::Player;
use crate::traits::has_members::HasMembers;

verus! {

/// Queues `author` in `game` and returns the queue as it is afterwards,
/// together with the notification to send.
///
/// During registration every request is answered with the notice about the
/// queue as it then is: the full notice from the request that fills the
/// queue, the progress notice from every other, also from the request of
/// someone who was queued already and so changed nothing; `send_embed`
/// false suppresses it. In every other phase the command is refused,
/// nothing changes and there is nothing to send.
pub fn add_member(game: &mut Game, author: Player, send_embed: bool) -> (reply: (
    Vec<Player>,
    Option<NotificationPayload>,
))
    requires
        old(game).wf(),
    ensures
        final(game).wf(),
        final(game)@ == old(game)@.join(author),
        reply.0@ == final(game)@.pool.members,
        reply.1 is Some <==> send_embed && old(game)@.phase == Phases::PlayerRegistration,
        reply.1 matches Some(payload) ==> payload@ == final(game)@.queue_notice(),
{
    let outcome = game.join(author);
    let notice = if !send_embed {
        None
    } else {
        match outcome {
            Ok(payload) => Some(payload),
            Err(GameError::AlreadyMember) => Some(game.notification(EventKind::QueueProgress)),
            Err(_) => None,
        }
    };
    (game.draft_pool().members(), notice)
}

} // verus!
