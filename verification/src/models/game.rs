//! The game state machine: one draft pool, the captains' teams and the
//! phase that decides which command is accepted.
//!
//! Decisions taken here:
//! - captains are named by pick number while the phase is
//!   `CaptainSelection`; who is named is the caller's decision;
//! - captains pick in strict rotation in the order in which they were
//!   named; anyone else who tries, captain or not, gets `NotYourTurn`;
//! - a team counts its captain, so that the teams and the index together
//!   always hold exactly the members of the closed queue;
//! - the configuration must leave room for everyone:
//!   `max_members <= num_captains * team_size`.

use vstd::prelude::*;
use vstd::string::*;
use crate::models::draft_pool::{
    lemma_add_member_wf,
    lemma_numbered_len,
    lemma_pop_wf,
    lemma_remove_member_wf,
    DraftPool,
    DraftPoolView,
};
use crate::models::notification::{
    build_draft_update,
    draft_update,
    names_of,
    queue_notice,
    EventKind,
    Field,
    FieldView,
    NotificationPayload,
    PayloadView,
    NOTICE_BLUE,
    NOTICE_GREEN,
    NOTICE_RED,
};
use crate::models::player::{has_id, index_of, lemma_index_of_unique, names, Player};
use crate::models::team::{Team, TeamView};
use crate::text::{decimal, decimal_string};
use crate::traits::has_members::{AddOutcome, HasMembers, RemoveOutcome};
use crate::traits::pool_availability::PoolAvailability;

verus! {

/// The stage of a game.
#[derive(Clone, Copy, Debug, PartialEq, Eq, Structural)]
pub enum Phases {
    /// Players join and leave the queue.
    PlayerRegistration,
    /// The queue is closed and captains are being named.
    CaptainSelection,
    /// Captains pick in turn.
    Drafting,
    /// Everyone is on a team; no command changes the game any more.
    Complete,
}

/// The commands that change a game.
#[derive(Clone, Copy, Debug, PartialEq, Eq, Structural)]
pub enum Command {
    Join,
    Leave,
    SelectCaptain,
    Pick,
}

/// Why a command was refused. A refused command changes nothing.
#[derive(Clone, Copy, Debug, PartialEq, Eq, Structural)]
pub enum GameError {
    /// The player who asked to join is queued already.
    AlreadyMember,
    /// The player who asked to leave is not queued.
    NotAMember,
    /// The phase does not take the command.
    InvalidPhaseTransition { phase: Phases, command: Command },
    /// The pick number is not in the index: it never was, or it was taken.
    PickNotFound { pick_number: usize },
    /// Someone other than the captain whose turn it is tried to pick.
    NotYourTurn,
    /// A pick was tried while captains were still being named.
    CaptainSlotsUnfilled,
}

/// The mathematical content of a `Game`.
pub struct GameView {
    pub phase: Phases,
    pub pool: DraftPoolView,
    /// The teams in the order in which their captains were named.
    pub teams: Seq<TeamView>,
    pub num_captains: nat,
    pub team_size: nat,
    /// The position in `teams` of the captain who picks next.
    pub turn: nat,
}

/// Position `p` on team `t` exists.
pub open spec fn seated(teams: Seq<TeamView>, t: int, p: int) -> bool {
    0 <= t < teams.len() && 0 <= p < teams[t].roster().len()
}

/// Who has position `p` on team `t`.
pub open spec fn seat(teams: Seq<TeamView>, t: int, p: int) -> Player {
    teams[t].roster()[p]
}

/// `player` has a position on some team.
pub open spec fn on_a_team(teams: Seq<TeamView>, player: Player) -> bool {
    exists|t: int, p: int| #[trigger] seated(teams, t, p) && seat(teams, t, p) == player
}

/// `player` is a member whose pick number is no longer in the index.
pub open spec fn taken(pool: DraftPoolView, player: Player) -> bool {
    exists|j: int|
        0 <= j < pool.members.len() && (#[trigger] pool.members[j]) == player
            && !pool.available.contains_key((j + 1) as usize)
}

/// The place in the queue of a `player` who is [`taken`].
pub open spec fn place_of(pool: DraftPoolView, player: Player) -> int {
    choose|j: int|
        0 <= j < pool.members.len() && (#[trigger] pool.members[j]) == player
            && !pool.available.contains_key((j + 1) as usize)
}

/// The lines that list the index: one per available player, by ascending
/// pick number among the first `upto` numbers, each the number, a full stop,
/// a space and the display name.
pub open spec fn available_lines(pool: DraftPoolView, upto: nat) -> Seq<Seq<char>>
    decreases upto,
{
    if upto == 0 {
        Seq::empty()
    } else {
        let before = available_lines(pool, (upto - 1) as nat);
        if pool.available.contains_key(upto as usize) {
            before.push(decimal(upto) + ". "@ + pool.available[upto as usize].name@)
        } else {
            before
        }
    }
}

/// One field per team: under the captain's name, the names on the roster.
pub open spec fn team_fields(teams: Seq<TeamView>) -> Seq<FieldView> {
    teams.map_values(
        |team: TeamView| FieldView { name: team.captain.name@, lines: names(team.roster()) },
    )
}

impl GameView {
    /// What `Game::new` asks of its arguments: a pool whose index has not
    /// been generated, at least one captain, no more captains than the
    /// queue has places, and room on the teams for everyone in the queue.
    pub open spec fn admits(pool: DraftPoolView, num_captains: nat, team_size: nat) -> bool {
        &&& pool.wf()
        &&& !pool.generated
        &&& 1 <= num_captains <= pool.max_members
        &&& team_size <= u32::MAX
        &&& pool.max_members <= num_captains * team_size
    }

    /// The game that `Game::new` makes: in registration while the queue has
    /// room, and with the index generated and captains to be named if the
    /// pool came full.
    pub open spec fn start(pool: DraftPoolView, num_captains: nat, team_size: nat) -> GameView {
        GameView {
            phase: if pool.is_open() {
                Phases::PlayerRegistration
            } else {
                Phases::CaptainSelection
            },
            pool: pool.generate(),
            teams: Seq::empty(),
            num_captains,
            team_size,
            turn: 0,
        }
    }

    /// The captains in the order in which they were named.
    pub open spec fn captains(self) -> Seq<Player> {
        self.teams.map_values(|team: TeamView| team.captain)
    }

    /// The rosters by captain.
    pub open spec fn rosters(self) -> Map<u64, Seq<Player>> {
        Map::new(
            |id: u64| has_id(self.captains(), id),
            |id: u64| self.teams[index_of(self.captains(), id)].roster(),
        )
    }

    /// How many full rounds of picks have been made.
    pub open spec fn rounds(self) -> nat {
        if self.teams.len() == 0 {
            0
        } else {
            self.teams.last().picks.len()
        }
    }

    /// How many players have a position on a team.
    pub open spec fn seats(self) -> nat {
        self.teams.len() * (1 + self.rounds()) + self.turn
    }

    /// The phase agrees with the pool and the teams.
    pub open spec fn phase_fits(self) -> bool {
        match self.phase {
            Phases::PlayerRegistration => {
                &&& self.pool.is_open()
                &&& self.teams.len() == 0
                &&& self.turn == 0
            },
            Phases::CaptainSelection => {
                &&& self.pool.generated
                &&& self.teams.len() < self.num_captains
                &&& self.turn == 0
                &&& self.rounds() == 0
            },
            Phases::Drafting => {
                &&& self.pool.generated
                &&& self.teams.len() == self.num_captains
                &&& self.turn < self.teams.len()
                &&& self.pool.available.len() > 0
            },
            Phases::Complete => {
                &&& self.pool.generated
                &&& self.teams.len() == self.num_captains
                &&& self.turn < self.teams.len()
                &&& self.pool.available.len() == 0
            },
        }
    }

    /// Strict rotation: the captains before the one on turn have picked
    /// once more than the others.
    pub open spec fn balanced(self) -> bool {
        forall|t: int|
            0 <= t < self.teams.len() ==> (#[trigger] self.teams[t]).picks.len() == self.rounds()
                + (if t < self.turn {
                1nat
            } else {
                0nat
            })
    }

    /// Everyone on a team is a member whose number has left the index; once
    /// the index exists every member is in it or on a team; and nobody has
    /// two positions.
    pub open spec fn placed(self) -> bool {
        &&& forall|t: int, p: int| #[trigger]
            seated(self.teams, t, p) ==> taken(self.pool, seat(self.teams, t, p))
        &&& self.pool.generated ==> forall|j: int|
            0 <= j < self.pool.members.len() ==> self.pool.available.contains_key((j + 1) as usize)
                || on_a_team(self.teams, #[trigger] self.pool.members[j])
        &&& forall|t: int, p: int, u: int, q: int|
            #![trigger seated(self.teams, t, p), seated(self.teams, u, q)]
            seated(self.teams, t, p) && seated(self.teams, u, q) && (t != u || p != q) ==> seat(
                self.teams,
                t,
                p,
            ).id != seat(self.teams, u, q).id
    }

    /// The invariant of a game.
    pub open spec fn wf(self) -> bool {
        &&& self.pool.wf()
        &&& 1 <= self.num_captains <= self.pool.max_members
        &&& self.team_size <= u32::MAX
        &&& self.pool.max_members <= self.num_captains * self.team_size
        &&& self.phase_fits()
        &&& self.balanced()
        &&& self.placed()
        &&& self.pool.generated ==> self.seats() + self.pool.available.len()
            == self.pool.members.len()
    }

    /// The notification about the queue: progress while it has room, the
    /// full notice otherwise.
    pub open spec fn queue_notice(self) -> PayloadView {
        queue_notice(self.pool.members, self.pool.max_members, !self.pool.is_open())
    }

    /// The notification about the draft: the index and the rosters.
    pub open spec fn draft_notice(self) -> PayloadView {
        draft_update(
            available_lines(self.pool, self.pool.members.len()),
            self.pool.available.len(),
            self.pool.members.len(),
            team_fields(self.teams),
            NOTICE_RED,
            NOTICE_GREEN,
            NOTICE_BLUE,
        )
    }

    /// The notification of the given kind about the game as it is.
    pub open spec fn notice(self, kind: EventKind) -> PayloadView {
        match kind {
            EventKind::QueueProgress => queue_notice(
                self.pool.members,
                self.pool.max_members,
                false,
            ),
            EventKind::QueueFull => queue_notice(self.pool.members, self.pool.max_members, true),
            EventKind::DraftUpdate => self.draft_notice(),
        }
    }

    /// Why `join(player)` is refused, if it is.
    pub open spec fn join_error(self, player: Player) -> Option<GameError> {
        if self.phase != Phases::PlayerRegistration {
            Some(GameError::InvalidPhaseTransition { phase: self.phase, command: Command::Join })
        } else if has_id(self.pool.members, player.id) {
            Some(GameError::AlreadyMember)
        } else {
            None
        }
    }

    /// The game after `join(player)`.
    pub open spec fn join(self, player: Player) -> GameView {
        if self.join_error(player) is Some {
            self
        } else {
            let pool = self.pool.add_member(player);
            GameView {
                pool,
                phase: if pool.is_open() {
                    Phases::PlayerRegistration
                } else {
                    Phases::CaptainSelection
                },
                ..self
            }
        }
    }

    /// Why `leave(player)` is refused, if it is.
    pub open spec fn leave_error(self, player: Player) -> Option<GameError> {
        if self.phase != Phases::PlayerRegistration {
            Some(GameError::InvalidPhaseTransition { phase: self.phase, command: Command::Leave })
        } else if !has_id(self.pool.members, player.id) {
            Some(GameError::NotAMember)
        } else {
            None
        }
    }

    /// The game after `leave(player)`.
    pub open spec fn leave(self, player: Player) -> GameView {
        if self.leave_error(player) is Some {
            self
        } else {
            GameView { pool: self.pool.remove_member(player.id), ..self }
        }
    }

    /// The phase after a player has left the index for a team.
    pub open spec fn phase_after_seating(self, teams: nat, available: nat) -> Phases {
        if teams < self.num_captains {
            Phases::CaptainSelection
        } else if available == 0 {
            Phases::Complete
        } else {
            Phases::Drafting
        }
    }

    /// Why `select_captain(pick_number)` is refused, if it is.
    pub open spec fn select_captain_error(self, pick_number: usize) -> Option<GameError> {
        if self.phase != Phases::CaptainSelection {
            Some(
                GameError::InvalidPhaseTransition {
                    phase: self.phase,
                    command: Command::SelectCaptain,
                },
            )
        } else if !self.pool.available.contains_key(pick_number) {
            Some(GameError::PickNotFound { pick_number })
        } else {
            None
        }
    }

    /// The game after `select_captain(pick_number)`.
    pub open spec fn select_captain(self, pick_number: usize) -> GameView {
        if self.select_captain_error(pick_number) is Some {
            self
        } else {
            let pool = self.pool.pop(pick_number);
            let teams = self.teams.push(TeamView::led_by(self.pool.available[pick_number]));
            GameView {
                pool,
                teams,
                phase: self.phase_after_seating(teams.len(), pool.available.len()),
                ..self
            }
        }
    }

    /// Why `pick(captain, pick_number)` is refused, if it is.
    pub open spec fn pick_error(self, captain: Player, pick_number: usize) -> Option<GameError> {
        match self.phase {
            Phases::PlayerRegistration | Phases::Complete => Some(
                GameError::InvalidPhaseTransition { phase: self.phase, command: Command::Pick },
            ),
            Phases::CaptainSelection => Some(GameError::CaptainSlotsUnfilled),
            Phases::Drafting => {
                if self.teams[self.turn as int].captain.id != captain.id {
                    Some(GameError::NotYourTurn)
                } else if !self.pool.available.contains_key(pick_number) {
                    Some(GameError::PickNotFound { pick_number })
                } else {
                    None
                }
            },
        }
    }

    /// The position of the captain who picks after the one on turn.
    pub open spec fn next_turn(self) -> nat {
        if self.turn + 1 < self.teams.len() {
            self.turn + 1
        } else {
            0
        }
    }

    /// The game after `pick(captain, pick_number)`.
    pub open spec fn pick(self, captain: Player, pick_number: usize) -> GameView {
        if self.pick_error(captain, pick_number) is Some {
            self
        } else {
            let pool = self.pool.pop(pick_number);
            let team = self.teams[self.turn as int].with_pick(self.pool.available[pick_number]);
            GameView {
                pool,
                teams: self.teams.update(self.turn as int, team),
                phase: self.phase_after_seating(self.teams.len(), pool.available.len()),
                turn: self.next_turn(),
                ..self
            }
        }
    }
}

/// While the index is the full numbering of the members, every member is
/// in it, whatever the teams are.
proof fn lemma_full_index_holds_everyone(pool: DraftPoolView, teams: Seq<TeamView>)
    requires
        pool.members.len() <= u32::MAX,
        pool.available == pool.snapshot(),
    ensures
        forall|j: int|
            0 <= j < pool.members.len() ==> pool.available.contains_key((j + 1) as usize)
                || on_a_team(teams, #[trigger] pool.members[j]),
{
    assert forall|j: int| 0 <= j < pool.members.len() implies pool.available.contains_key(
        (j + 1) as usize,
    ) || on_a_team(teams, #[trigger] pool.members[j]) by {
        assert(pool.available.contains_key((j + 1) as usize));
    }
}

/// A game as `Game::new` makes it is well formed.
pub proof fn lemma_start_wf(pool: DraftPoolView, num_captains: nat, team_size: nat)
    requires
        GameView::admits(pool, num_captains, team_size),
    ensures
        GameView::start(pool, num_captains, team_size).wf(),
{
    lemma_numbered_len(pool.members, pool.members.len());
    let game = GameView::start(pool, num_captains, team_size);
    if !pool.is_open() {
        lemma_full_index_holds_everyone(game.pool, game.teams);
    }
}

/// Joining keeps a game well formed.
pub proof fn lemma_join_wf(game: GameView, player: Player)
    requires
        game.wf(),
    ensures
        game.join(player).wf(),
{
    if game.join_error(player) is None {
        lemma_add_member_wf(game.pool, player);
        let after = game.join(player);
        if !after.pool.is_open() {
            lemma_numbered_len(after.pool.members, after.pool.members.len());
            lemma_full_index_holds_everyone(after.pool, after.teams);
        }
    }
}

/// Leaving keeps a game well formed.
pub proof fn lemma_leave_wf(game: GameView, player: Player)
    requires
        game.wf(),
    ensures
        game.leave(player).wf(),
{
    if game.leave_error(player) is None {
        lemma_remove_member_wf(game.pool, player.id);
        crate::models::player::lemma_without(game.pool.members, player.id);
    }
}

/// Seating the player with number `number` at a position that did not exist
/// before keeps everyone placed. `teams` is the teams after the change:
/// every earlier position is still what it was, and the one new position,
/// `p` on team `t`, is the player who left the index.
proof fn lemma_seating_placed(game: GameView, after: GameView, number: usize, t: int, p: int)
    requires
        game.wf(),
        game.pool.generated,
        game.pool.available.contains_key(number),
        after.pool == game.pool.pop(number),
        seated(after.teams, t, p),
        !seated(game.teams, t, p),
        seat(after.teams, t, p) == game.pool.available[number],
        forall|u: int, q: int| #[trigger]
            seated(after.teams, u, q) <==> seated(game.teams, u, q) || (u == t && q == p),
        forall|u: int, q: int| #[trigger]
            seated(game.teams, u, q) ==> seat(after.teams, u, q) == seat(game.teams, u, q),
    ensures
        after.placed(),
{
    let player = game.pool.available[number];
    let at = number - 1;
    assert(game.pool.members[at] == player);
    assert forall|u: int, q: int| #[trigger] seated(after.teams, u, q) implies taken(
        after.pool,
        seat(after.teams, u, q),
    ) by {
        if seated(game.teams, u, q) {
            assert(taken(game.pool, seat(game.teams, u, q)));
            let j = place_of(game.pool, seat(game.teams, u, q));
            assert(after.pool.members[j] == seat(after.teams, u, q));
            assert(!after.pool.available.contains_key((j + 1) as usize));
        } else {
            assert(after.pool.members[at] == seat(after.teams, u, q));
            assert(!after.pool.available.contains_key((at + 1) as usize));
        }
    }
    assert forall|j: int|
        0 <= j < after.pool.members.len() implies after.pool.available.contains_key(
        (j + 1) as usize,
    ) || on_a_team(after.teams, #[trigger] after.pool.members[j]) by {
        if j == at {
            assert(seated(after.teams, t, p));
        } else if !game.pool.available.contains_key((j + 1) as usize) {
            assert(on_a_team(game.teams, game.pool.members[j]));
            let (u, q) = choose|u: int, q: int| #[trigger]
                seated(game.teams, u, q) && seat(game.teams, u, q) == game.pool.members[j];
            assert(seated(after.teams, u, q));
        } else {
            assert(after.pool.available.contains_key((j + 1) as usize));
        }
    }
    assert forall|u: int, q: int, v: int, r: int|
        #![trigger seated(after.teams, u, q), seated(after.teams, v, r)]
        seated(after.teams, u, q) && seated(after.teams, v, r) && (u != v || q != r) implies seat(
        after.teams,
        u,
        q,
    ).id != seat(after.teams, v, r).id by {
        let new_u = u == t && q == p;
        let new_v = v == t && r == p;
        if !new_u && !new_v {
            assert(seated(game.teams, u, q) && seated(game.teams, v, r));
        } else {
            // one of the two is the new position; the other was taken before
            let (w, s) = if new_u {
                (v, r)
            } else {
                (u, q)
            };
            assert(seated(game.teams, w, s));
            assert(taken(game.pool, seat(game.teams, w, s)));
            let j = place_of(game.pool, seat(game.teams, w, s));
            assert(j != at);
            if j < at {
                assert(game.pool.members[j].id != game.pool.members[at].id);
            } else {
                assert(game.pool.members[at].id != game.pool.members[j].id);
            }
        }
    }
}

/// The roster of team `t` before a change that may have created the team.
spec fn roster_before(teams: Seq<TeamView>, t: int) -> Seq<Player> {
    if 0 <= t < teams.len() {
        teams[t].roster()
    } else {
        Seq::empty()
    }
}

/// Putting the player with number `number` at the end of the roster of team
/// `t`, which is an existing team or the new last one, and leaving every
/// other team as it is, keeps everyone placed.
proof fn lemma_one_more_on_team(game: GameView, after: GameView, number: usize, t: int)
    requires
        game.wf(),
        game.pool.generated,
        game.pool.available.contains_key(number),
        after.pool == game.pool.pop(number),
        0 <= t <= game.teams.len(),
        after.teams.len() == if t == game.teams.len() {
            game.teams.len() + 1
        } else {
            game.teams.len()
        },
        forall|u: int|
            0 <= u < game.teams.len() && u != t ==> #[trigger] after.teams[u] == game.teams[u],
        after.teams[t].roster() == roster_before(game.teams, t).push(
            game.pool.available[number],
        ),
    ensures
        after.placed(),
{
    let p = roster_before(game.teams, t).len() as int;
    assert forall|u: int, q: int| #[trigger]
        seated(after.teams, u, q) <==> seated(game.teams, u, q) || (u == t && q == p) by {
        if 0 <= u < game.teams.len() && u != t {
            assert(after.teams[u] == game.teams[u]);
        }
    }
    assert forall|u: int, q: int| #[trigger] seated(game.teams, u, q) implies seat(
        after.teams,
        u,
        q,
    ) == seat(game.teams, u, q) by {
        if u != t {
            assert(after.teams[u] == game.teams[u]);
        }
    }
    lemma_seating_placed(game, after, number, t, p);
}

/// Naming a captain keeps a game well formed.
pub proof fn lemma_select_captain_wf(game: GameView, pick_number: usize)
    requires
        game.wf(),
    ensures
        game.select_captain(pick_number).wf(),
{
    if game.select_captain_error(pick_number) is None {
        let after = game.select_captain(pick_number);
        let t = game.teams.len() as int;
        lemma_pop_wf(game.pool, pick_number);
        assert(after.teams[t].roster() =~= roster_before(game.teams, t).push(
            game.pool.available[pick_number],
        ));
        lemma_one_more_on_team(game, after, pick_number, t);
        assert(after.rounds() == 0);
        assert(after.seats() == game.seats() + 1) by (nonlinear_arith)
            requires
                after.seats() == (t + 1) * (1 + 0) + 0,
                game.seats() == t * (1 + 0) + 0,
        ;
    }
}

/// A pick keeps a game well formed.
pub proof fn lemma_pick_wf(game: GameView, captain: Player, pick_number: usize)
    requires
        game.wf(),
    ensures
        game.pick(captain, pick_number).wf(),
{
    if game.pick_error(captain, pick_number) is None {
        let after = game.pick(captain, pick_number);
        let t = game.turn as int;
        lemma_pop_wf(game.pool, pick_number);
        assert(after.teams[t].roster() =~= roster_before(game.teams, t).push(
            game.pool.available[pick_number],
        ));
        lemma_one_more_on_team(game, after, pick_number, t);
        lemma_pick_keeps_rotation(game, captain, pick_number);
    }
}

/// A pick keeps the rotation: the team on turn has one pick more, the turn
/// passes on, and one more player has a position.
proof fn lemma_pick_keeps_rotation(game: GameView, captain: Player, pick_number: usize)
    requires
        game.wf(),
        game.pick_error(captain, pick_number) is None,
    ensures
        game.pick(captain, pick_number).balanced(),
        game.pick(captain, pick_number).seats() == game.seats() + 1,
{
    let after = game.pick(captain, pick_number);
    let t = game.turn as int;
    let count = game.teams.len() as int;
    let last = count - 1;
    assert(game.teams[last].picks.len() == game.rounds());
    assert(game.teams[t].picks.len() == game.rounds());
    if t + 1 < count {
        assert(after.teams[last] == game.teams[last]);
        assert(after.rounds() == game.rounds());
        assert(after.seats() == game.seats() + 1);
    } else {
        assert(after.rounds() == game.rounds() + 1);
        assert(after.seats() == game.seats() + 1) by (nonlinear_arith)
            requires
                after.seats() == count * (1 + (game.rounds() + 1)) + 0,
                game.seats() == count * (1 + game.rounds()) + (count - 1),
        ;
    }
    assert forall|u: int| 0 <= u < after.teams.len() implies (
    #[trigger] after.teams[u]).picks.len() == after.rounds() + (if u < after.turn {
        1nat
    } else {
        0nat
    }) by {
        if u != t {
            assert(after.teams[u] == game.teams[u]);
            assert(game.teams[u].picks.len() == game.rounds() + (if u < game.turn {
                1nat
            } else {
                0nat
            }));
        }
    }
}

/// One game: the pool, the teams and the phase.
pub struct Game {
    phase: Phases,
    draft_pool: DraftPool,
    teams: Vec<Team>,
    num_captains: u32,
    team_size: u32,
    turn: usize,
}

impl View for Game {
    type V = GameView;

    closed spec fn view(&self) -> GameView {
        GameView {
            phase: self.phase,
            pool: self.draft_pool@,
            teams: self.teams@.map_values(|team: Team| team@),
            num_captains: self.num_captains as nat,
            team_size: self.team_size as nat,
            turn: self.turn as nat,
        }
    }
}

impl Game {
    /// The invariant that every constructor establishes and every command
    /// keeps.
    pub open spec fn wf(&self) -> bool {
        self@.wf()
    }

    /// Whether `new` accepts this configuration for this pool.
    pub fn admits(draft_pool: &DraftPool, num_captains: u32, team_size: u32) -> (ok: bool)
        requires
            draft_pool.wf(),
        ensures
            ok == GameView::admits(draft_pool@, num_captains as nat, team_size as nat),
    {
        let capacity: u64 = draft_pool.max_members() as u64;
        assert(num_captains * team_size <= 0xffff_ffff * 0xffff_ffff) by (nonlinear_arith)
            requires
                0 <= num_captains <= 0xffff_ffff,
                0 <= team_size <= 0xffff_ffff,
        ;
        let places: u64 = (num_captains as u64) * (team_size as u64);
        !draft_pool.is_generated() && 1 <= num_captains && num_captains as u64 <= capacity
            && capacity <= places
    }

    /// Starts a game on `draft_pool` with `num_captains` teams of at most
    /// `team_size` players. A pool that comes full is closed at once: its
    /// index is generated and captains are to be named.
    pub fn new(draft_pool: DraftPool, num_captains: u32, team_size: u32) -> (game: Game)
        requires
            GameView::admits(draft_pool@, num_captains as nat, team_size as nat),
        ensures
            game.wf(),
            game@ == GameView::start(draft_pool@, num_captains as nat, team_size as nat),
    {
        proof {
            lemma_start_wf(draft_pool@, num_captains as nat, team_size as nat);
        }
        let mut draft_pool = draft_pool;
        let phase = if draft_pool.is_open() {
            Phases::PlayerRegistration
        } else {
            Phases::CaptainSelection
        };
        draft_pool.generate_available_players();
        let game = Game { phase, draft_pool, teams: Vec::new(), num_captains, team_size, turn: 0 };
        assert(game@.teams =~= Seq::<TeamView>::empty());
        game
    }

    /// Starts a game as `new` does where `new` accepts the configuration,
    /// and none otherwise.
    pub fn try_new(draft_pool: DraftPool, num_captains: u32, team_size: u32) -> (made: Option<Game>)
        requires
            draft_pool.wf(),
        ensures
            made is Some <==> GameView::admits(
                draft_pool@,
                num_captains as nat,
                team_size as nat,
            ),
            made matches Some(game) ==> game.wf() && game@ == GameView::start(
                draft_pool@,
                num_captains as nat,
                team_size as nat,
            ),
    {
        if Game::admits(&draft_pool, num_captains, team_size) {
            Some(Game::new(draft_pool, num_captains, team_size))
        } else {
            None
        }
    }

    /// The phase the game is in.
    pub fn phase(&self) -> (phase: Phases)
        ensures
            phase == self@.phase,
    {
        self.phase
    }

    /// The pool of the game.
    pub fn draft_pool(&self) -> (pool: &DraftPool)
        ensures
            pool@ == self@.pool,
    {
        &self.draft_pool
    }

    /// How many captains the game is configured for.
    pub fn num_captains(&self) -> (count: u32)
        ensures
            count == self@.num_captains,
    {
        self.num_captains
    }

    /// How many players a team may hold, its captain counted.
    pub fn team_size(&self) -> (size: u32)
        ensures
            size == self@.team_size,
    {
        self.team_size
    }

    /// The teams in the order in which their captains were named.
    pub fn teams(&self) -> (teams: Vec<Team>)
        ensures
            teams@.map_values(|team: Team| team@) == self@.teams,
    {
        let mut teams: Vec<Team> = Vec::new();
        let mut i: usize = 0;
        while i < self.teams.len()
            invariant
                i <= self.teams.len(),
                teams.len() == i,
                forall|j: int| 0 <= j < i ==> (#[trigger] teams@[j])@ == self.teams@[j]@,
            decreases self.teams.len() - i,
        {
            teams.push(self.teams[i].clone());
            i = i + 1;
        }
        assert(teams@.map_values(|team: Team| team@) =~= self@.teams);
        teams
    }

    /// The captains in the order in which they were named.
    pub fn captains(&self) -> (captains: Vec<Player>)
        ensures
            captains@ == self@.captains(),
    {
        let mut captains: Vec<Player> = Vec::new();
        let mut i: usize = 0;
        while i < self.teams.len()
            invariant
                i <= self.teams.len(),
                captains.len() == i,
                forall|j: int| 0 <= j < i ==> (#[trigger] captains@[j]) == self.teams@[j].captain,
            decreases self.teams.len() - i,
        {
            captains.push(self.teams[i].captain.clone());
            i = i + 1;
        }
        assert(captains@ =~= self@.captains());
        captains
    }

    /// The roster of the team that `captain` leads: the captain first, then
    /// the picks. None for someone who leads no team.
    pub fn roster_of(&self, captain: &Player) -> (roster: Option<Vec<Player>>)
        requires
            self.wf(),
        ensures
            roster is Some <==> self@.rosters().contains_key(captain.id),
            roster matches Some(players) ==> players@ == self@.rosters()[captain.id],
    {
        let mut i: usize = 0;
        while i < self.teams.len()
            invariant
                self.wf(),
                i <= self.teams.len(),
                forall|j: int| 0 <= j < i ==> (#[trigger] self@.captains()[j]).id != captain.id,
            decreases self.teams.len() - i,
        {
            if self.teams[i].captain.id == captain.id {
                proof {
                    let captains = self@.captains();
                    assert(captains[i as int] == self.teams@[i as int].captain);
                    assert forall|a: int, b: int| 0 <= a < b < captains.len() implies (
                    #[trigger] captains[a]).id != (#[trigger] captains[b]).id by {
                        let teams = self@.teams;
                        assert(teams[a].roster()[0] == captains[a]);
                        assert(teams[b].roster()[0] == captains[b]);
                        assert(seated(teams, a, 0) && seated(teams, b, 0));
                        assert(seat(teams, a, 0).id != seat(teams, b, 0).id);
                    }
                    lemma_index_of_unique(captains, captain.id, i as int);
                }
                return Some(self.teams[i].roster());
            }
            assert(self@.captains()[i as int] == self.teams@[i as int].captain);
            i = i + 1;
        }
        assert(!has_id(self@.captains(), captain.id));
        None
    }

    /// The captain who picks next, while the draft runs.
    pub fn captain_on_turn(&self) -> (captain: Option<Player>)
        requires
            self.wf(),
        ensures
            captain == if self@.phase == Phases::Drafting {
                Some(self@.teams[self@.turn as int].captain)
            } else {
                None
            },
    {
        if self.phase == Phases::Drafting {
            Some(self.teams[self.turn].captain.clone())
        } else {
            None
        }
    }

    /// The lines that list the index, by ascending pick number.
    fn available_lines(&self) -> (lines: Vec<String>)
        requires
            self.wf(),
        ensures
            lines.deep_view() == available_lines(self@.pool, self@.pool.members.len()),
    {
        let total: usize = self.draft_pool.len();
        let mut lines: Vec<String> = Vec::new();
        let mut number: usize = 0;
        while number < total
            invariant
                number <= total <= u32::MAX,
                total == self.draft_pool@.members.len(),
                lines.deep_view() == available_lines(self.draft_pool@, number as nat),
            decreases total - number,
        {
            number = number + 1;
            let ghost before = lines.deep_view();
            match self.draft_pool.available_player(number) {
                Some(player) => {
                    let mut line = decimal_string(number as u64);
                    line.append(". ");
                    line.append(player.name.as_str());
                    lines.push(line);
                    assert(lines.deep_view() =~= before.push(line@));
                },
                None => {},
            }
        }
        lines
    }

    /// One field per team: under the captain's name, the names on the
    /// roster.
    fn team_fields(&self) -> (fields: Vec<Field>)
        ensures
            fields@.map_values(|f: Field| f@) == team_fields(self@.teams),
    {
        let mut fields: Vec<Field> = Vec::new();
        let mut i: usize = 0;
        while i < self.teams.len()
            invariant
                i <= self.teams.len(),
                fields.len() == i,
                forall|j: int|
                    0 <= j < i ==> (#[trigger] fields@[j])@ == (FieldView {
                        name: self.teams@[j].captain.name@,
                        lines: names(self.teams@[j]@.roster()),
                    }),
            decreases self.teams.len() - i,
        {
            let roster = self.teams[i].roster();
            let field = Field { name: self.teams[i].captain.name.clone(), lines: names_of(&roster) };
            fields.push(field);
            i = i + 1;
        }
        assert(fields@.map_values(|f: Field| f@) =~= team_fields(self@.teams));
        fields
    }

    /// The notification of the given kind about the game as it is: who is
    /// queued and how far the queue has filled, that the queue is full, or
    /// who can still be picked and who is on which team.
    pub fn notification(&self, kind: EventKind) -> (payload: NotificationPayload)
        requires
            self.wf(),
        ensures
            payload@ == self@.notice(kind),
    {
        match kind {
            EventKind::QueueProgress => self.draft_pool.members_changed_embed(
                NOTICE_RED,
                NOTICE_GREEN,
                NOTICE_BLUE,
            ),
            EventKind::QueueFull => self.draft_pool.members_full_embed(
                NOTICE_RED,
                NOTICE_GREEN,
                NOTICE_BLUE,
            ),
            EventKind::DraftUpdate => self.draft_embed(),
        }
    }

    /// The notification about the draft: who can still be picked, and the
    /// rosters.
    fn draft_embed(&self) -> (payload: NotificationPayload)
        requires
            self.wf(),
        ensures
            payload@ == self@.draft_notice(),
    {
        build_draft_update(
            self.available_lines(),
            self.draft_pool.available_count(),
            self.draft_pool.len(),
            self.team_fields(),
            NOTICE_RED,
            NOTICE_GREEN,
            NOTICE_BLUE,
        )
    }

    /// Queues `player`. Taken only during registration and only from a
    /// player who is not queued. The player who takes the last place closes
    /// the queue: the index is generated, the phase becomes
    /// `CaptainSelection`, and the notification is the full notice.
    ///
    /// A refusal carries the error alone. The notice about the unchanged
    /// queue is `notification(EventKind::QueueProgress)`; the `add` command
    /// hands it back for a player who was queued already.
    pub fn join(&mut self, player: Player) -> (result: Result<NotificationPayload, GameError>)
        requires
            old(self).wf(),
        ensures
            final(self).wf(),
            final(self)@ == old(self)@.join(player),
            match result {
                Ok(payload) => old(self)@.join_error(player) is None
                    && payload@ == final(self)@.queue_notice(),
                Err(error) => old(self)@.join_error(player) == Some(error)
                    && final(self)@ == old(self)@,
            },
    {
        proof {
            lemma_join_wf(old(self)@, player);
        }
        if self.phase != Phases::PlayerRegistration {
            return Err(
                GameError::InvalidPhaseTransition { phase: self.phase, command: Command::Join },
            );
        }
        let (outcome, notice) = self.draft_pool.add_member(player);
        match outcome {
            AddOutcome::AlreadyMember => Err(GameError::AlreadyMember),
            AddOutcome::AddedQueueNowFull => {
                self.phase = Phases::CaptainSelection;
                Ok(notice)
            },
            _ => Ok(notice),
        }
    }

    /// Takes `player` out of the queue. Taken only during registration and
    /// only from a player who is queued.
    ///
    /// A refusal carries the error alone. The notice about the unchanged
    /// queue is `notification(EventKind::QueueProgress)`; the `remove`
    /// command hands it back for a player who was not queued.
    pub fn leave(&mut self, player: Player) -> (result: Result<NotificationPayload, GameError>)
        requires
            old(self).wf(),
        ensures
            final(self).wf(),
            final(self)@ == old(self)@.leave(player),
            match result {
                Ok(payload) => old(self)@.leave_error(player) is None
                    && payload@ == final(self)@.queue_notice(),
                Err(error) => old(self)@.leave_error(player) == Some(error)
                    && final(self)@ == old(self)@,
            },
    {
        proof {
            lemma_leave_wf(old(self)@, player);
        }
        if self.phase != Phases::PlayerRegistration {
            return Err(
                GameError::InvalidPhaseTransition { phase: self.phase, command: Command::Leave },
            );
        }
        let (outcome, notice) = self.draft_pool.remove_member(player);
        match outcome {
            RemoveOutcome::Removed => Ok(notice),
            _ => Err(GameError::NotAMember),
        }
    }

    /// The phase after a player has left the index for a team.
    fn phase_after_seating(&self) -> (phase: Phases)
        ensures
            phase == self@.phase_after_seating(self@.teams.len(), self@.pool.available.len()),
    {
        if self.teams.len() < self.num_captains as usize {
            Phases::CaptainSelection
        } else if self.draft_pool.available_count() == 0 {
            Phases::Complete
        } else {
            Phases::Drafting
        }
    }

    /// Names the player with `pick_number` a captain: the player leaves the
    /// index and leads a new team. Taken only while captains are being
    /// named. With the last captain named the draft starts, or the game is
    /// complete if nobody is left to pick.
    pub fn select_captain(&mut self, pick_number: usize) -> (result: Result<
        NotificationPayload,
        GameError,
    >)
        requires
            old(self).wf(),
        ensures
            final(self).wf(),
            final(self)@ == old(self)@.select_captain(pick_number),
            match result {
                Ok(payload) => old(self)@.select_captain_error(pick_number) is None && payload@
                    == final(self)@.draft_notice(),
                Err(error) => old(self)@.select_captain_error(pick_number) == Some(error)
                    && final(self)@ == old(self)@,
            },
    {
        proof {
            lemma_select_captain_wf(old(self)@, pick_number);
        }
        if self.phase != Phases::CaptainSelection {
            return Err(
                GameError::InvalidPhaseTransition {
                    phase: self.phase,
                    command: Command::SelectCaptain,
                },
            );
        }
        match self.draft_pool.pop_available_player(&pick_number) {
            None => Err(GameError::PickNotFound { pick_number }),
            Some(captain) => {
                self.teams.push(Team::led_by(captain));
                assert(self@.teams =~= old(self)@.teams.push(TeamView::led_by(captain)));
                self.phase = self.phase_after_seating();
                Ok(self.draft_embed())
            },
        }
    }

    /// Drafts the player with `pick_number` onto the team of `captain`.
    /// Taken only while the draft runs, only from the captain whose turn it
    /// is, and only for a number that is in the index. The turn then passes
    /// to the next captain, and with the index empty the game is complete.
    pub fn pick(&mut self, captain: &Player, pick_number: usize) -> (result: Result<
        NotificationPayload,
        GameError,
    >)
        requires
            old(self).wf(),
        ensures
            final(self).wf(),
            final(self)@ == old(self)@.pick(*captain, pick_number),
            match result {
                Ok(payload) => old(self)@.pick_error(*captain, pick_number) is None && payload@
                    == final(self)@.draft_notice(),
                Err(error) => old(self)@.pick_error(*captain, pick_number) == Some(error)
                    && final(self)@ == old(self)@,
            },
    {
        proof {
            lemma_pick_wf(old(self)@, *captain, pick_number);
        }
        match self.phase {
            Phases::PlayerRegistration | Phases::Complete => {
                return Err(
                    GameError::InvalidPhaseTransition { phase: self.phase, command: Command::Pick },
                );
            },
            Phases::CaptainSelection => {
                return Err(GameError::CaptainSlotsUnfilled);
            },
            Phases::Drafting => {},
        }
        if self.teams[self.turn].captain.id != captain.id {
            return Err(GameError::NotYourTurn);
        }
        match self.draft_pool.pop_available_player(&pick_number) {
            None => Err(GameError::PickNotFound { pick_number }),
            Some(player) => {
                let turn: usize = self.turn;
                self.teams[turn].picks.push(player);
                assert(self@.teams =~= old(self)@.teams.update(
                    turn as int,
                    old(self)@.teams[turn as int].with_pick(player),
                ));
                self.turn = if turn + 1 < self.teams.len() {
                    turn + 1
                } else {
                    0
                };
                self.phase = self.phase_after_seating();
                Ok(self.draft_embed())
            },
        }
    }
}

} // verus!
