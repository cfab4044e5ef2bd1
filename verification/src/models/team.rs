//! A team: its captain and the players the captain has drafted.

use vstd::prelude::*;
use crate::models::player::Player;

verus! {

/// A captain and the captain's picks in the order in which they were made.
#[derive(Debug, PartialEq, Eq)]
pub struct Team {
    pub captain: Player,
    pub picks: Vec<Player>,
}

/// The mathematical content of a [`Team`].
pub struct TeamView {
    pub captain: Player,
    pub picks: Seq<Player>,
}

impl TeamView {
    /// Everyone on the team: the captain first, then the picks.
    pub open spec fn roster(self) -> Seq<Player> {
        seq![self.captain] + self.picks
    }

    /// The team of a captain who has not picked yet.
    pub open spec fn led_by(captain: Player) -> TeamView {
        TeamView { captain, picks: Seq::empty() }
    }

    /// The team after its captain has picked `player`.
    pub open spec fn with_pick(self, player: Player) -> TeamView {
        TeamView { picks: self.picks.push(player), ..self }
    }
}

impl View for Team {
    type V = TeamView;

    open spec fn view(&self) -> TeamView {
        TeamView { captain: self.captain, picks: self.picks@ }
    }
}

impl Clone for Team {
    fn clone(&self) -> (copy: Team)
        ensures
            copy@ == self@,
    {
        let picks = self.picks.clone();
        assert(picks@ =~= self.picks@);
        Team { captain: self.captain.clone(), picks }
    }
}

impl Team {
    /// The team of a captain who has not picked yet.
    pub fn led_by(captain: Player) -> (team: Team)
        ensures
            team@ == TeamView::led_by(captain),
    {
        Team { captain, picks: Vec::new() }
    }

    /// Everyone on the team: the captain first, then the picks.
    pub fn roster(&self) -> (roster: Vec<Player>)
        ensures
            roster@ == self@.roster(),
    {
        let mut roster: Vec<Player> = Vec::new();
        roster.push(self.captain.clone());
        let mut i: usize = 0;
        while i < self.picks.len()
            invariant
                i <= self.picks.len(),
                roster@ == seq![self.captain] + self.picks@.subrange(0, i as int),
            decreases self.picks.len() - i,
        {
            roster.push(self.picks[i].clone());
            i = i + 1;
            assert(roster@ =~= seq![self.captain] + self.picks@.subrange(0, i as int));
        }
        assert(self.picks@.subrange(0, i as int) =~= self.picks@);
        roster
    }
}

} // verus!
