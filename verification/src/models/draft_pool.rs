//! The draft pool: the queue of players up to its capacity and, once the
//! queue has closed, the numbered index that captains draft from.
//!
//! Decisions taken here:
//! - a player who would not fit is turned away (`AddOutcome::QueueFull`);
//! - the index is generated once, on a full queue, and generating again
//!   changes nothing, also after picks have emptied it;
//! - once the index exists the membership is frozen: removing a member is
//!   refused (`RemoveOutcome::QueueClosed`).

use std::collections::HashMap;
use vstd::prelude::*;
use crate::models::notification::{
    build_queue_full,
    build_queue_progress,
    NotificationPayload,
    NOTICE_BLUE,
    NOTICE_GREEN,
    NOTICE_RED,
};
use crate::models::player::{
    distinct,
    has_id,
    lemma_index_of_unique,
    lemma_without,
    Player,
};
use crate::traits::has_members::{
    add_outcome,
    queue_after_remove,
    remove_outcome,
    AddOutcome,
    HasMembers,
    RemoveOutcome,
};
use crate::traits::pool_availability::PoolAvailability;

verus! {

broadcast use vstd::std_specs::hash::group_hash_axioms;

/// The queue and the index of available players.
pub struct DraftPool {
    members: Vec<Player>,
    available_players: HashMap<usize, Player>,
    max_members: u32,
    generated: bool,
}

/// The mathematical content of a [`DraftPool`].
pub struct DraftPoolView {
    /// The queued players in the order in which they joined.
    pub members: Seq<Player>,
    /// The players that can still be picked, by pick number.
    pub available: Map<usize, Player>,
    /// The capacity of the queue.
    pub max_members: nat,
    /// Whether the index has been generated.
    pub generated: bool,
}

impl DraftPoolView {
    /// The invariant of a pool: a positive capacity that is not exceeded, no
    /// player queued twice, no index before the queue is full, and a finite
    /// index whose every entry is the member who joined at that number.
    pub open spec fn wf(self) -> bool {
        &&& 0 < self.max_members <= u32::MAX
        &&& self.members.len() <= self.max_members
        &&& distinct(self.members)
        &&& self.generated ==> self.members.len() == self.max_members
        &&& !self.generated ==> self.available == Map::<usize, Player>::empty()
        &&& self.available.dom().finite()
        &&& forall|k: usize| #[trigger]
            self.available.contains_key(k) ==> 1 <= k <= self.members.len() && self.available[k]
                == self.members[k - 1]
    }

    /// A pool as `DraftPool::new` makes it.
    pub open spec fn fresh(members: Seq<Player>, max_members: nat) -> DraftPoolView {
        DraftPoolView {
            members,
            available: Map::<usize, Player>::empty(),
            max_members,
            generated: false,
        }
    }

    /// What `DraftPool::new` asks of its arguments.
    pub open spec fn admits(members: Seq<Player>, max_members: nat) -> bool {
        &&& 0 < max_members <= u32::MAX
        &&& members.len() <= max_members
        &&& distinct(members)
    }

    /// The queue has room.
    pub open spec fn is_open(self) -> bool {
        self.members.len() < self.max_members
    }

    /// The index over the current members: numbers 1 to N in joining order.
    pub open spec fn snapshot(self) -> Map<usize, Player> {
        numbered(self.members, self.members.len())
    }

    /// The pool after `generate_available_players`.
    pub open spec fn generate(self) -> DraftPoolView {
        if self.generated || self.is_open() {
            self
        } else {
            DraftPoolView { available: self.snapshot(), generated: true, ..self }
        }
    }

    /// The pool after `pop_available_player(number)`.
    pub open spec fn pop(self, number: usize) -> DraftPoolView {
        DraftPoolView { available: self.available.remove(number), ..self }
    }

    /// What `pop_available_player(number)` returns.
    pub open spec fn picked(self, number: usize) -> Option<Player> {
        if self.available.contains_key(number) {
            Some(self.available[number])
        } else {
            None
        }
    }

    /// What `add_member(player)` reports.
    pub open spec fn add_outcome(self, player: Player) -> AddOutcome {
        add_outcome(self.members, self.max_members, player)
    }

    /// The pool after `add_member(player)`.
    pub open spec fn add_member(self, player: Player) -> DraftPoolView {
        match self.add_outcome(player) {
            AddOutcome::AlreadyMember | AddOutcome::QueueFull => self,
            AddOutcome::AddedQueueOpen => DraftPoolView {
                members: self.members.push(player),
                ..self
            },
            AddOutcome::AddedQueueNowFull => DraftPoolView {
                members: self.members.push(player),
                ..self
            }.generate(),
        }
    }

    /// What `remove_member` reports for the player `id`.
    pub open spec fn remove_outcome(self, id: u64) -> RemoveOutcome {
        remove_outcome(self.members, self.generated, id)
    }

    /// The pool after `remove_member` for the player `id`: once the index
    /// exists the membership is frozen.
    pub open spec fn remove_member(self, id: u64) -> DraftPoolView {
        DraftPoolView { members: queue_after_remove(self.members, self.generated, id), ..self }
    }
}

/// The first `count` of `members` under the numbers 1 to `count`.
pub open spec fn numbered(members: Seq<Player>, count: nat) -> Map<usize, Player> {
    Map::new(|k: usize| 1 <= k <= count, |k: usize| members[k - 1])
}

/// Numbering `count` members gives a finite index of `count` entries.
pub proof fn lemma_numbered_len(members: Seq<Player>, count: nat)
    requires
        count <= u32::MAX,
    ensures
        numbered(members, count).dom().finite(),
        numbered(members, count).len() == count,
    decreases count,
{
    if count == 0 {
        assert(numbered(members, count) =~= Map::<usize, Player>::empty());
    } else {
        let before = (count - 1) as nat;
        lemma_numbered_len(members, before);
        assert(numbered(members, count) =~= numbered(members, before).insert(
            count as usize,
            members[count - 1],
        ));
    }
}

/// Generating the index keeps a pool well formed.
pub proof fn lemma_generate_wf(pool: DraftPoolView)
    requires
        pool.wf(),
    ensures
        pool.generate().wf(),
{
    lemma_numbered_len(pool.members, pool.members.len());
}

/// Popping a number keeps a pool well formed.
pub proof fn lemma_pop_wf(pool: DraftPoolView, number: usize)
    requires
        pool.wf(),
    ensures
        pool.pop(number).wf(),
{
    let after = pool.pop(number);
    if !pool.generated {
        assert(after.available =~= Map::<usize, Player>::empty());
    }
}

/// Adding a member keeps a pool well formed.
pub proof fn lemma_add_member_wf(pool: DraftPoolView, player: Player)
    requires
        pool.wf(),
    ensures
        pool.add_member(player).wf(),
{
    match pool.add_outcome(player) {
        AddOutcome::AlreadyMember | AddOutcome::QueueFull => {},
        _ => {
            let grown = DraftPoolView { members: pool.members.push(player), ..pool };
            assert forall|i: int, j: int| 0 <= i < j < grown.members.len() implies (
            #[trigger] grown.members[i]).id != (#[trigger] grown.members[j]).id by {
                if j < pool.members.len() {
                    assert(pool.members[i].id != pool.members[j].id);
                } else {
                    assert(pool.members[i].id != player.id);
                }
            }
            assert(grown.wf());
            lemma_generate_wf(grown);
        },
    }
}

/// Removing a member keeps a pool well formed.
pub proof fn lemma_remove_member_wf(pool: DraftPoolView, id: u64)
    requires
        pool.wf(),
    ensures
        pool.remove_member(id).wf(),
{
    lemma_without(pool.members, id);
}

impl View for DraftPool {
    type V = DraftPoolView;

    closed spec fn view(&self) -> DraftPoolView {
        DraftPoolView {
            members: self.members@,
            available: self.available_players@,
            max_members: self.max_members as nat,
            generated: self.generated,
        }
    }
}

impl DraftPool {
    /// The invariant that every constructor establishes and every method
    /// keeps.
    pub open spec fn wf(&self) -> bool {
        self@.wf()
    }

    /// Whether `new` accepts these arguments: a positive capacity, no more
    /// members than that, and no player twice.
    pub fn admits(members: &Vec<Player>, max_members: u32) -> (ok: bool)
        ensures
            ok == DraftPoolView::admits(members@, max_members as nat),
    {
        if max_members == 0 || members.len() > max_members as usize {
            return false;
        }
        let mut j: usize = 0;
        while j < members.len()
            invariant
                j <= members.len(),
                forall|a: int, b: int|
                    0 <= a < b < j ==> (#[trigger] members@[a]).id != (#[trigger] members@[b]).id,
            decreases members.len() - j,
        {
            let mut i: usize = 0;
            while i < j
                invariant
                    i <= j < members.len(),
                    forall|a: int| 0 <= a < i ==> (#[trigger] members@[a]).id != members@[j as int].id,
                decreases j - i,
            {
                if members[i].id == members[j].id {
                    assert(!distinct(members@)) by {
                        if distinct(members@) {
                            assert(members@[i as int].id != members@[j as int].id);
                        }
                    }
                    return false;
                }
                i = i + 1;
            }
            j = j + 1;
        }
        true
    }

    /// Makes a pool of `members` with room for `max_members`, its index not
    /// yet generated.
    pub fn new(members: Vec<Player>, max_members: u32) -> (pool: DraftPool)
        requires
            DraftPoolView::admits(members@, max_members as nat),
        ensures
            pool.wf(),
            pool@ == DraftPoolView::fresh(members@, max_members as nat),
    {
        DraftPool { members, available_players: HashMap::new(), max_members, generated: false }
    }

    /// Makes a pool as `new` does where `new` accepts the arguments, and
    /// none otherwise.
    pub fn try_new(members: Vec<Player>, max_members: u32) -> (made: Option<DraftPool>)
        ensures
            made is Some <==> DraftPoolView::admits(members@, max_members as nat),
            made matches Some(pool) ==> pool.wf() && pool@ == DraftPoolView::fresh(
                members@,
                max_members as nat,
            ),
    {
        if DraftPool::admits(&members, max_members) {
            Some(DraftPool::new(members, max_members))
        } else {
            None
        }
    }

    /// Gives up the pool for its index of available players.
    pub fn available_players(self) -> (index: HashMap<usize, Player>)
        ensures
            index@ == self@.available,
    {
        self.available_players
    }

    /// The capacity of the queue.
    pub fn max_members(&self) -> (capacity: u32)
        ensures
            capacity == self@.max_members,
    {
        self.max_members
    }

    /// How many players are queued.
    pub fn len(&self) -> (count: usize)
        ensures
            count == self@.members.len(),
    {
        self.members.len()
    }

    /// Whether the index has been generated.
    pub fn is_generated(&self) -> (generated: bool)
        ensures
            generated == self@.generated,
    {
        self.generated
    }

    /// How many players can still be picked.
    pub fn available_count(&self) -> (count: usize)
        ensures
            count == self@.available.len(),
    {
        self.available_players.len()
    }

    /// The player who can be picked under `number`, if there is one.
    pub fn available_player(&self, number: usize) -> (player: Option<Player>)
        ensures
            player == self@.picked(number),
    {
        match self.available_players.get(&number) {
            Some(player) => Some(player.clone()),
            None => None,
        }
    }

    /// Numbers the members 1 to N in joining order, once, on a full queue.
    /// On a queue with room, or when the index has been generated before,
    /// nothing changes.
    pub fn generate_available_players(&mut self)
        requires
            old(self).wf(),
        ensures
            final(self).wf(),
            final(self)@ == old(self)@.generate(),
    {
        if self.generated || self.is_open() {
            return ;
        }
        let mut index: HashMap<usize, Player> = HashMap::new();
        let mut idx: usize = 0;
        while idx < self.members.len()
            invariant
                idx <= self.members.len() <= u32::MAX,
                index@ == numbered(self.members@, idx as nat),
            decreases self.members.len() - idx,
        {
            let member = self.members[idx].clone();
            index.insert(idx + 1, member);
            idx = idx + 1;
            assert(index@ =~= numbered(self.members@, idx as nat));
        }
        proof {
            lemma_generate_wf(old(self)@);
        }
        self.available_players = index;
        self.generated = true;
    }

    /// Takes the player with pick number `player_number` out of the index
    /// and returns it; `None`, and no change, where the number is not in the
    /// index (never was, or was picked before).
    pub fn pop_available_player(&mut self, player_number: &usize) -> (player: Option<Player>)
        requires
            old(self).wf(),
        ensures
            final(self).wf(),
            final(self)@ == old(self)@.pop(*player_number),
            player == old(self)@.picked(*player_number),
            player is None ==> final(self)@ == old(self)@,
    {
        let player = self.available_players.remove(player_number);
        proof {
            lemma_pop_wf(old(self)@, *player_number);
            if player is None {
                assert(self@.available =~= old(self)@.available);
            }
        }
        player
    }

    /// Where in the queue the player `id` stands, if queued.
    pub fn position(&self, id: u64) -> (at: Option<usize>)
        ensures
            match at {
                Some(i) => {
                    &&& i < self@.members.len()
                    &&& self@.members[i as int].id == id
                    &&& forall|j: int| 0 <= j < i ==> (#[trigger] self@.members[j]).id != id
                },
                None => !has_id(self@.members, id),
            },
    {
        let mut i: usize = 0;
        while i < self.members.len()
            invariant
                i <= self.members.len(),
                forall|j: int| 0 <= j < i ==> (#[trigger] self.members@[j]).id != id,
            decreases self.members.len() - i,
        {
            if self.members[i].id == id {
                return Some(i);
            }
            i = i + 1;
        }
        None
    }
}

impl HasMembers for DraftPool {
    open spec fn valid(&self) -> bool {
        self.wf()
    }

    open spec fn queued(&self) -> Seq<Player> {
        self@.members
    }

    open spec fn capacity(&self) -> nat {
        self@.max_members
    }

    open spec fn frozen(&self) -> bool {
        self@.generated
    }

    /// The queued players in joining order.
    fn members(&self) -> (members: Vec<Player>) {
        let members = self.members.clone();
        assert(members@ =~= self.members@);
        members
    }

    /// Appends `user` to the queue unless the player is queued already or
    /// the queue is full. The player who takes the last place closes the
    /// queue: the index of available players is generated in the same call.
    fn add_member(&mut self, user: Player) -> (reply: (AddOutcome, NotificationPayload))
        ensures
            final(self)@ == old(self)@.add_member(user),
    {
        proof {
            lemma_add_member_wf(old(self)@, user);
        }
        if self.position(user.id).is_some() {
            return (
                AddOutcome::AlreadyMember,
                self.members_changed_embed(NOTICE_RED, NOTICE_GREEN, NOTICE_BLUE),
            );
        }
        if !self.is_open() {
            return (
                AddOutcome::QueueFull,
                self.members_changed_embed(NOTICE_RED, NOTICE_GREEN, NOTICE_BLUE),
            );
        }
        self.members.push(user);
        if self.members.len() == self.max_members as usize {
            assert(self@ == (DraftPoolView { members: old(self)@.members.push(user), ..old(self)@ }));
            assert(self@.wf());
            self.generate_available_players();
            (
                AddOutcome::AddedQueueNowFull,
                self.members_full_embed(NOTICE_RED, NOTICE_GREEN, NOTICE_BLUE),
            )
        } else {
            (
                AddOutcome::AddedQueueOpen,
                self.members_changed_embed(NOTICE_RED, NOTICE_GREEN, NOTICE_BLUE),
            )
        }
    }

    /// Takes `user` out of the queue. A player who is not queued, or a queue
    /// whose index exists, is left as it is.
    fn remove_member(&mut self, user: Player) -> (reply: (RemoveOutcome, NotificationPayload))
        ensures
            final(self)@ == old(self)@.remove_member(user.id),
    {
        proof {
            lemma_remove_member_wf(old(self)@, user.id);
        }
        let outcome = match self.position(user.id) {
            None => RemoveOutcome::NotMember,
            Some(at) => {
                if self.generated {
                    RemoveOutcome::QueueClosed
                } else {
                    proof {
                        lemma_index_of_unique(self.members@, user.id, at as int);
                    }
                    let _ = self.members.remove(at);
                    RemoveOutcome::Removed
                }
            },
        };
        (outcome, self.members_changed_embed(NOTICE_RED, NOTICE_GREEN, NOTICE_BLUE))
    }

    /// The payload that reports who is queued and how far the queue has
    /// filled, in the colour given by its components.
    fn members_changed_embed(&self, r: u8, g: u8, b: u8) -> (payload: NotificationPayload) {
        build_queue_progress(&self.members, self.max_members, r, g, b)
    }
}

impl PoolAvailability for DraftPool {
    /// Whether the queue has room.
    fn is_open(&self) -> (open: bool) {
        self.members.len() < self.max_members as usize
    }

    /// The payload that reports that the queue is full, in the colour given
    /// by its components.
    fn members_full_embed(&self, r: u8, g: u8, b: u8) -> (payload: NotificationPayload) {
        build_queue_full(&self.members, r, g, b)
    }
}

} // verus!
