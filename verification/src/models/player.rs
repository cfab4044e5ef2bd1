//! A queued player: a stable identifier and a display name.

use vstd::prelude::*;

verus! {

/// A participant as supplied by the chat platform.
///
/// Two players are the same participant exactly when their `id`s agree; the
/// `name` is shown to users and takes no part in any rule.
#[derive(Debug)]
pub struct Player {
    pub id: u64,
    pub name: String,
}

impl Player {
    /// Builds a player from its identifier and display name.
    pub fn new(id: u64, name: String) -> (player: Player)
        ensures
            player.id == id,
            player.name == name,
    {
        Player { id, name }
    }
}

impl PartialEq for Player {
    /// Players compare by identifier alone.
    fn eq(&self, other: &Player) -> (same: bool) {
        self.id == other.id
    }
}

impl Eq for Player {

}

impl vstd::std_specs::cmp::PartialEqSpecImpl for Player {
    open spec fn obeys_eq_spec() -> bool {
        true
    }

    open spec fn eq_spec(&self, other: &Player) -> bool {
        self.id == other.id
    }
}

impl Clone for Player {
    fn clone(&self) -> (copy: Player)
        ensures
            copy == *self,
    {
        Player { id: self.id, name: self.name.clone() }
    }
}

/// The display names of a sequence of players, in the same order.
pub open spec fn names(players: Seq<Player>) -> Seq<Seq<char>> {
    players.map_values(|p: Player| p.name@)
}

/// No participant occurs twice in `players`.
pub open spec fn distinct(players: Seq<Player>) -> bool {
    forall|i: int, j: int|
        0 <= i < j < players.len() ==> (#[trigger] players[i]).id != (#[trigger] players[j]).id
}

/// Whether a participant with identifier `id` occurs in `players`.
pub open spec fn has_id(players: Seq<Player>, id: u64) -> bool {
    exists|i: int| 0 <= i < players.len() && (#[trigger] players[i]).id == id
}

/// A position at which the participant `id` stands in `players`; where
/// `players` is [`distinct`] and holds `id`, it is the only one.
pub open spec fn index_of(players: Seq<Player>, id: u64) -> int {
    choose|i: int| 0 <= i < players.len() && (#[trigger] players[i]).id == id
}

/// `players` with the participant `id` taken out, the others in their order.
pub open spec fn without(players: Seq<Player>, id: u64) -> Seq<Player> {
    if has_id(players, id) {
        players.remove(index_of(players, id))
    } else {
        players
    }
}

/// In a sequence without repetition a participant stands at one position
/// only, so finding it anywhere finds `index_of`.
pub proof fn lemma_index_of_unique(players: Seq<Player>, id: u64, i: int)
    requires
        distinct(players),
        0 <= i < players.len(),
        players[i].id == id,
    ensures
        has_id(players, id),
        index_of(players, id) == i,
{
    let j = index_of(players, id);
    assert(0 <= j < players.len() && players[j].id == id);
    if j < i {
        assert(players[j].id != players[i].id);
    } else if i < j {
        assert(players[i].id != players[j].id);
    }
}

/// Where in the longer sequence the entry stands that is at `i` once the
/// entry at `at` has been taken out.
spec fn stepped_over(at: int, i: int) -> int {
    if i < at {
        i
    } else {
        i + 1
    }
}

/// Taking a participant out of a sequence without repetition leaves a
/// sequence without repetition that no longer holds the participant and is
/// shorter by one if it did.
pub proof fn lemma_without(players: Seq<Player>, id: u64)
    requires
        distinct(players),
    ensures
        distinct(without(players, id)),
        !has_id(without(players, id), id),
        has_id(players, id) ==> without(players, id).len() == players.len() - 1,
        !has_id(players, id) ==> without(players, id) == players,
        forall|other: u64|
            other != id ==> (has_id(without(players, id), other) <==> has_id(players, other)),
{
    let rest = without(players, id);
    if has_id(players, id) {
        let at = index_of(players, id);
        assert(0 <= at < players.len() && players[at].id == id);
        assert forall|i: int| 0 <= i < rest.len() implies #[trigger] rest[i] == players[stepped_over(
            at,
            i,
        )] by {}
        assert forall|i: int, j: int| 0 <= i < j < rest.len() implies (#[trigger] rest[i]).id != (
        #[trigger] rest[j]).id by {
            assert(players[stepped_over(at, i)].id != players[stepped_over(at, j)].id);
        }
        assert forall|i: int| 0 <= i < rest.len() implies (#[trigger] rest[i]).id != id by {
            if i < at {
                assert(players[i].id != players[at].id);
            } else {
                assert(players[at].id != players[i + 1].id);
            }
        }
        assert forall|other: u64| other != id implies (has_id(rest, other) <==> has_id(
            players,
            other,
        )) by {
            if has_id(rest, other) {
                let i = index_of(rest, other);
                assert(players[stepped_over(at, i)].id == other);
            }
            if has_id(players, other) {
                let from = index_of(players, other);
                let i = if from < at {
                    from
                } else {
                    from - 1
                };
                assert(rest[i].id == other);
            }
        }
    }
}

} // verus!
