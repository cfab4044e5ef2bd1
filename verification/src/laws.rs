//! Laws that relate several operations of the library, each stated over
//! the views that the contracts of the operations use.

use vstd::prelude::*;
use crate::models::colour::rgb;
use crate::models::draft_pool::{lemma_add_member_wf, lemma_numbered_len, DraftPoolView};
use crate::models::game::{
    lemma_join_wf,
    lemma_leave_wf,
    on_a_team,
    place_of,
    seat,
    seated,
    taken,
    GameView,
    Phases,
};
use crate::models::player::{distinct, has_id, lemma_without, without, Player};

verus! {

/// The game after each of `players` has asked to join, first to last.
pub open spec fn join_all(game: GameView, players: Seq<Player>) -> GameView
    decreases players.len(),
{
    if players.len() == 0 {
        game
    } else {
        join_all(game, players.drop_last()).join(players.last())
    }
}

/// How many of `asking` new players a queue with `queued` of `capacity`
/// places takes.
pub open spec fn admitted(queued: nat, capacity: nat, asking: nat) -> nat {
    if queued + asking <= capacity {
        asking
    } else {
        (capacity - queued) as nat
    }
}

/// Whatever sequence of players asks to join, the game stays well formed;
/// in particular the queue never holds more than its capacity and never
/// holds a player twice.
pub proof fn law_joins_respect_capacity(game: GameView, players: Seq<Player>)
    requires
        game.wf(),
    ensures
        join_all(game, players).wf(),
        join_all(game, players).pool.members.len() <= game.pool.max_members,
        join_all(game, players).pool.max_members == game.pool.max_members,
        distinct(join_all(game, players).pool.members),
    decreases players.len(),
{
    if players.len() > 0 {
        law_joins_respect_capacity(game, players.drop_last());
        lemma_join_wf(join_all(game, players.drop_last()), players.last());
    }
}

/// When distinct players who are not queued ask to join, they are taken
/// first come, first served until the queue is full, and everyone after
/// that is turned away: the queue then holds exactly its capacity.
pub proof fn law_joins_fill_in_order(game: GameView, players: Seq<Player>)
    requires
        game.wf(),
        distinct(players),
        forall|i: int| 0 <= i < players.len() ==> !has_id(game.pool.members, #[trigger] players[i].id),
    ensures
        join_all(game, players).pool.members == game.pool.members + players.take(
            admitted(
                game.pool.members.len(),
                game.pool.max_members,
                players.len(),
            ) as int,
        ),
        game.pool.members.len() + players.len() >= game.pool.max_members ==> join_all(
            game,
            players,
        ).pool.members.len() == game.pool.max_members,
    decreases players.len(),
{
    let queued = game.pool.members.len();
    let capacity = game.pool.max_members;
    if players.len() == 0 {
        assert(game.pool.members + players.take(0) =~= game.pool.members);
    } else {
        let earlier = players.drop_last();
        let last = players.last();
        let before = join_all(game, earlier);
        assert forall|i: int| 0 <= i < earlier.len() implies !has_id(
            game.pool.members,
            #[trigger] earlier[i].id,
        ) by {
            assert(earlier[i] == players[i]);
        }
        assert(distinct(earlier)) by {
            assert forall|i: int, j: int| 0 <= i < j < earlier.len() implies (
            #[trigger] earlier[i]).id != (#[trigger] earlier[j]).id by {
                assert(earlier[i] == players[i] && earlier[j] == players[j]);
            }
        }
        law_joins_fill_in_order(game, earlier);
        law_joins_respect_capacity(game, earlier);
        let taken_before = admitted(queued, capacity, earlier.len()) as int;
        assert(before.pool.members == game.pool.members + earlier.take(taken_before));
        if queued + earlier.len() < capacity {
            // the queue still has room, so the game is in registration and
            // the last player, who is new, is appended
            assert(before.pool.is_open());
            assert(before.phase == Phases::PlayerRegistration);
            assert(!has_id(before.pool.members, last.id)) by {
                if has_id(before.pool.members, last.id) {
                    let i = choose|i: int|
                        0 <= i < before.pool.members.len() && (
                        #[trigger] before.pool.members[i]).id == last.id;
                    if i < queued {
                        assert(before.pool.members[i] == game.pool.members[i]);
                        assert(has_id(game.pool.members, last.id));
                        assert(players[players.len() - 1] == last);
                    } else {
                        assert(before.pool.members[i] == players[i - queued]);
                        assert(players[i - queued].id != players[players.len() - 1].id);
                    }
                }
            }
            assert(join_all(game, players).pool.members =~= game.pool.members + players.take(
                players.len() as int,
            ));
        } else {
            // the queue is full: the game has left registration and the
            // command is refused
            assert(!before.pool.is_open());
            assert(before.phase != Phases::PlayerRegistration);
            assert(join_all(game, players) == before);
            assert(earlier.take(taken_before) =~= players.take(taken_before));
        }
    }
}

/// A join on a full queue is refused and changes nothing.
pub proof fn law_join_on_full_queue_refused(game: GameView, player: Player)
    requires
        game.wf(),
        game.pool.members.len() == game.pool.max_members,
    ensures
        game.join_error(player) is Some,
        game.join(player) == game,
{
}

/// Joining twice is joining once: the second request changes nothing.
pub proof fn law_join_idempotent(game: GameView, player: Player)
    requires
        game.wf(),
    ensures
        game.join(player).join(player) == game.join(player),
        game.join(player).join_error(player) is Some,
{
    if game.join_error(player) is None {
        let after = game.join(player);
        let at = game.pool.members.len() as int;
        assert(after.pool.members[at].id == player.id);
        assert(has_id(after.pool.members, player.id));
    }
}

/// Adding the same player to a pool twice is adding the player once.
pub proof fn law_add_member_idempotent(pool: DraftPoolView, player: Player)
    requires
        pool.wf(),
    ensures
        pool.add_member(player).add_member(player) == pool.add_member(player),
        pool.add_member(player).members.len() <= pool.max_members,
{
    lemma_add_member_wf(pool, player);
    let after = pool.add_member(player);
    if after != pool {
        let at = pool.members.len() as int;
        assert(after.members[at].id == player.id);
        assert(has_id(after.members, player.id));
    } else if !has_id(pool.members, player.id) {
        assert(!pool.is_open());
    }
}

/// The index that is generated on a full queue holds every member exactly
/// once: the numbers are 1 to N, and each stands for the member who joined
/// at that place.
pub proof fn law_index_numbers_every_member(pool: DraftPoolView)
    requires
        pool.wf(),
        !pool.is_open(),
        !pool.generated,
    ensures
        pool.generate().generated,
        pool.generate().members == pool.members,
        pool.generate().available.len() == pool.members.len(),
        forall|k: usize| #[trigger]
            pool.generate().available.contains_key(k) <==> 1 <= k <= pool.members.len(),
        forall|k: usize|
            1 <= k <= pool.members.len() ==> (#[trigger] pool.generate().available[k])
                == pool.members[k - 1],
{
    lemma_numbered_len(pool.members, pool.members.len());
}

/// Generating the index twice gives the index of the first time.
pub proof fn law_generate_idempotent(pool: DraftPoolView)
    ensures
        pool.generate().generate() == pool.generate(),
{
}

/// A pick number can be popped once: the first pop returns the player
/// under the number, if there is one, and the second returns nothing and
/// changes nothing.
pub proof fn law_pop_twice(pool: DraftPoolView, number: usize)
    ensures
        pool.available.contains_key(number) ==> pool.picked(number) == Some(
            pool.available[number],
        ),
        pool.pop(number).picked(number) is None,
        pool.pop(number).pop(number) == pool.pop(number),
{
    assert(pool.pop(number).pop(number).available =~= pool.pop(number).available);
}

/// During registration, a member who leaves makes the queue shorter by
/// exactly one, is no longer queued, and can join again.
pub proof fn law_leave_then_rejoin(game: GameView, player: Player)
    requires
        game.wf(),
        game.phase == Phases::PlayerRegistration,
        has_id(game.pool.members, player.id),
    ensures
        game.leave_error(player) is None,
        game.leave(player).pool.members.len() == game.pool.members.len() - 1,
        !has_id(game.leave(player).pool.members, player.id),
        game.leave(player).join_error(player) is None,
        has_id(game.leave(player).join(player).pool.members, player.id),
        game.leave(player).join(player).pool.members.len() == game.pool.members.len(),
{
    lemma_without(game.pool.members, player.id);
    lemma_leave_wf(game, player);
    let left = game.leave(player);
    assert(left.pool.members == without(game.pool.members, player.id));
    let back = left.join(player);
    let at = left.pool.members.len() as int;
    assert(back.pool.members[at].id == player.id);
}

/// In a complete game the index is empty and every member of the closed
/// queue has exactly one position on exactly one team.
pub proof fn law_complete_game_partitions_members(game: GameView)
    requires
        game.wf(),
        game.phase == Phases::Complete,
    ensures
        game.pool.available == Map::<usize, Player>::empty(),
        forall|j: int|
            0 <= j < game.pool.members.len() ==> on_a_team(game.teams, #[trigger] game.pool.members[j]),
        forall|t: int, p: int, u: int, q: int|
            #![trigger seated(game.teams, t, p), seated(game.teams, u, q)]
            seated(game.teams, t, p) && seated(game.teams, u, q) && seat(game.teams, t, p).id
                == seat(game.teams, u, q).id ==> t == u && p == q,
{
    assert(game.pool.available.dom() =~= Set::<usize>::empty()) by {
        if game.pool.available.dom().len() == 0 {
            game.pool.available.dom().lemma_len0_is_empty();
        }
    }
    assert(game.pool.available =~= Map::<usize, Player>::empty());
}

/// Once the queue has closed, the teams and the index together hold
/// exactly its members: everyone on a team, captains included, is a member;
/// every member is either in the index under the number at which the member
/// joined or on a team; and nobody has two positions.
pub proof fn law_teams_and_index_hold_the_members(game: GameView)
    requires
        game.wf(),
        game.pool.generated,
    ensures
        forall|t: int, p: int| #[trigger]
            seated(game.teams, t, p) ==> has_id(game.pool.members, seat(game.teams, t, p).id),
        forall|j: int|
            0 <= j < game.pool.members.len() ==> (game.pool.available.contains_key(
                (j + 1) as usize,
            ) <==> !on_a_team(game.teams, #[trigger] game.pool.members[j])),
        forall|t: int, p: int, u: int, q: int|
            #![trigger seated(game.teams, t, p), seated(game.teams, u, q)]
            seated(game.teams, t, p) && seated(game.teams, u, q) && seat(game.teams, t, p).id
                == seat(game.teams, u, q).id ==> t == u && p == q,
{
    assert forall|t: int, p: int| #[trigger] seated(game.teams, t, p) implies has_id(
        game.pool.members,
        seat(game.teams, t, p).id,
    ) by {
        let who = seat(game.teams, t, p);
        let j = place_of(game.pool, who);
        assert(game.pool.members[j].id == who.id);
    }
    assert forall|j: int| 0 <= j < game.pool.members.len() implies (
    game.pool.available.contains_key((j + 1) as usize) <==> !on_a_team(
        game.teams,
        #[trigger] game.pool.members[j],
    )) by {
        let member = game.pool.members[j];
        if on_a_team(game.teams, member) {
            let (t, p) = choose|t: int, p: int| #[trigger]
                seated(game.teams, t, p) && seat(game.teams, t, p) == member;
            assert(taken(game.pool, member));
            let i = place_of(game.pool, member);
            if i < j {
                assert(game.pool.members[i].id != game.pool.members[j].id);
            } else if j < i {
                assert(game.pool.members[j].id != game.pool.members[i].id);
            }
        }
    }
}

/// Captains pick in strict rotation, so no team is more than one pick ahead
/// of another, and no team outgrows the configured team size.
pub proof fn law_teams_within_size(game: GameView)
    requires
        game.wf(),
    ensures
        forall|t: int|
            0 <= t < game.teams.len() ==> (#[trigger] game.teams[t]).roster().len()
                <= game.team_size,
        forall|t: int, u: int|
            0 <= t < game.teams.len() && 0 <= u < game.teams.len() ==> (
            #[trigger] game.teams[t]).picks.len() <= (#[trigger] game.teams[u]).picks.len() + 1,
{
    let count = game.teams.len();
    let rounds = game.rounds();
    let turn = game.turn;
    if count > 0 {
        // seats + available == members <= capacity <= captains * team_size
        assert(count * (1 + rounds) + turn <= game.num_captains * game.team_size);
        assert(count <= game.num_captains);
        assert(1 + rounds + (if turn > 0 {
            1nat
        } else {
            0nat
        }) <= game.team_size) by (nonlinear_arith)
            requires
                count * (1 + rounds) + turn <= game.num_captains * game.team_size,
                0 < count <= game.num_captains,
                count < game.num_captains ==> rounds == 0 && turn == 0,
                turn < count,
        ;
    }
}

/// A colour value read as a number: red counts 65536, green 256, blue 1.
pub proof fn law_colour_is_positional(red: u8, green: u8, blue: u8)
    ensures
        rgb(red, green, blue) == red * 65536 + green * 256 + blue,
{
    assert((red as u32) << 16 | (green as u32) << 8 | (blue as u32) == (red as u32) * 65536 + (
    green as u32) * 256 + (blue as u32)) by (bit_vector);
}

} // verus!
