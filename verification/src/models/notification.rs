//! Notification payloads: what the messaging side needs in order to tell the
//! chat about the queue and the draft. Building one reads state and performs
//! no I/O.

use vstd::prelude::*;
use vstd::string::*;
use crate::models::colour::{colour_from_rgb, rgb};
use crate::models::player::{names, Player};
use crate::text::{decimal, decimal_string};

verus! {

/// The red component of the notices that the queue and the game send.
pub const NOTICE_RED: u8 = 165;

/// The green component of the notices that the queue and the game send.
pub const NOTICE_GREEN: u8 = 255;

/// The blue component of the notices that the queue and the game send.
pub const NOTICE_BLUE: u8 = 241;

/// The occasion a payload was built for.
#[derive(Clone, Copy, Debug, PartialEq, Eq, Structural)]
pub enum EventKind {
    /// The queue changed and still has room.
    QueueProgress,
    /// The queue just filled up.
    QueueFull,
    /// A captain was chosen or a player was drafted.
    DraftUpdate,
}

/// A named block of lines below the description; the draft update carries
/// one per team.
#[derive(Debug, PartialEq, Eq)]
pub struct Field {
    pub name: String,
    pub lines: Vec<String>,
}

/// What is handed to the messaging side for rendering and delivery.
#[derive(Debug, PartialEq, Eq)]
pub struct NotificationPayload {
    pub kind: EventKind,
    pub title: String,
    pub description: Vec<String>,
    pub footer: String,
    pub colour: u32,
    pub fields: Vec<Field>,
}

/// The mathematical content of a [`Field`].
pub struct FieldView {
    pub name: Seq<char>,
    pub lines: Seq<Seq<char>>,
}

/// The mathematical content of a [`NotificationPayload`].
pub struct PayloadView {
    pub kind: EventKind,
    pub title: Seq<char>,
    pub description: Seq<Seq<char>>,
    pub footer: Seq<char>,
    pub colour: u32,
    pub fields: Seq<FieldView>,
}

impl View for Field {
    type V = FieldView;

    open spec fn view(&self) -> FieldView {
        FieldView { name: self.name@, lines: self.lines.deep_view() }
    }
}

impl View for NotificationPayload {
    type V = PayloadView;

    open spec fn view(&self) -> PayloadView {
        PayloadView {
            kind: self.kind,
            title: self.title@,
            description: self.description.deep_view(),
            footer: self.footer@,
            colour: self.colour,
            fields: self.fields@.map_values(|f: Field| f@),
        }
    }
}

/// The title of both queue notifications.
pub open spec fn queue_title() -> Seq<char> {
    "Members in queue:"@
}

/// The footer of a queue that still has room: how many of how many.
pub open spec fn progress_footer(queued: nat, capacity: nat) -> Seq<char> {
    decimal(queued) + " of "@ + decimal(capacity) + " users in queue"@
}

/// The footer of the queue that just filled up.
pub open spec fn full_footer() -> Seq<char> {
    "The queue is full! Now picking captains!"@
}

/// The payload that reports who is queued and how far the queue has filled.
pub open spec fn queue_progress(
    members: Seq<Player>,
    capacity: nat,
    red: u8,
    green: u8,
    blue: u8,
) -> PayloadView {
    PayloadView {
        kind: EventKind::QueueProgress,
        title: queue_title(),
        description: names(members),
        footer: progress_footer(members.len(), capacity),
        colour: rgb(red, green, blue),
        fields: Seq::empty(),
    }
}

/// The payload that reports that the queue is full: the same members under
/// another footer.
pub open spec fn queue_full(members: Seq<Player>, red: u8, green: u8, blue: u8) -> PayloadView {
    PayloadView {
        kind: EventKind::QueueFull,
        title: queue_title(),
        description: names(members),
        footer: full_footer(),
        colour: rgb(red, green, blue),
        fields: Seq::empty(),
    }
}

/// The notice that reports the occupancy of a queue: the full notice in
/// the call that filled the queue, the progress notice in every other.
pub open spec fn queue_notice(members: Seq<Player>, capacity: nat, now_full: bool) -> PayloadView {
    if now_full {
        queue_full(members, NOTICE_RED, NOTICE_GREEN, NOTICE_BLUE)
    } else {
        queue_progress(members, capacity, NOTICE_RED, NOTICE_GREEN, NOTICE_BLUE)
    }
}

/// The title of the draft update.
pub open spec fn draft_title() -> Seq<char> {
    "Available players:"@
}

/// The footer of the draft update: how many of how many are left to pick.
pub open spec fn draft_footer(remaining: nat, total: nat) -> Seq<char> {
    decimal(remaining) + " of "@ + decimal(total) + " players left to pick"@
}

/// The payload that reports the draft: `lines` lists who can still be
/// picked, `fields` holds the rosters.
pub open spec fn draft_update(
    lines: Seq<Seq<char>>,
    remaining: nat,
    total: nat,
    fields: Seq<FieldView>,
    red: u8,
    green: u8,
    blue: u8,
) -> PayloadView {
    PayloadView {
        kind: EventKind::DraftUpdate,
        title: draft_title(),
        description: lines,
        footer: draft_footer(remaining, total),
        colour: rgb(red, green, blue),
        fields,
    }
}

/// The display names of `players`, in order.
pub fn names_of(players: &Vec<Player>) -> (out: Vec<String>)
    ensures
        out.deep_view() == names(players@),
{
    let mut out: Vec<String> = Vec::new();
    let mut i: usize = 0;
    while i < players.len()
        invariant
            i <= players.len(),
            out.len() == i,
            forall|j: int| 0 <= j < i ==> (#[trigger] out@[j])@ == players@[j].name@,
        decreases players.len() - i,
    {
        out.push(players[i].name.clone());
        i = i + 1;
    }
    assert(out.deep_view() =~= names(players@));
    out
}

/// Renders the footer of a queue that still has room.
pub fn progress_text(queued: usize, capacity: u32) -> (text: String)
    ensures
        text@ == progress_footer(queued as nat, capacity as nat),
{
    let mut text = decimal_string(queued as u64);
    text.append(" of ");
    let capacity_text = decimal_string(capacity as u64);
    text.append(capacity_text.as_str());
    text.append(" users in queue");
    text
}

/// Builds the queue-progress payload for `members` and `capacity`.
pub fn build_queue_progress(
    members: &Vec<Player>,
    capacity: u32,
    red: u8,
    green: u8,
    blue: u8,
) -> (payload: NotificationPayload)
    ensures
        payload@ == queue_progress(members@, capacity as nat, red, green, blue),
{
    let payload = NotificationPayload {
        kind: EventKind::QueueProgress,
        title: String::from_str("Members in queue:"),
        description: names_of(members),
        footer: progress_text(members.len(), capacity),
        colour: colour_from_rgb(red, green, blue),
        fields: Vec::new(),
    };
    assert(payload@.fields =~= Seq::empty());
    payload
}

/// Builds the draft update from the lines that list the index, the counts
/// for the footer and one field per team.
pub fn build_draft_update(
    lines: Vec<String>,
    remaining: usize,
    total: usize,
    fields: Vec<Field>,
    red: u8,
    green: u8,
    blue: u8,
) -> (payload: NotificationPayload)
    ensures
        payload@ == draft_update(
            lines.deep_view(),
            remaining as nat,
            total as nat,
            fields@.map_values(|f: Field| f@),
            red,
            green,
            blue,
        ),
{
    let mut footer = decimal_string(remaining as u64);
    footer.append(" of ");
    let total_text = decimal_string(total as u64);
    footer.append(total_text.as_str());
    footer.append(" players left to pick");
    NotificationPayload {
        kind: EventKind::DraftUpdate,
        title: String::from_str("Available players:"),
        description: lines,
        footer,
        colour: colour_from_rgb(red, green, blue),
        fields,
    }
}

/// Builds the queue-full payload for `members`.
pub fn build_queue_full(members: &Vec<Player>, red: u8, green: u8, blue: u8) -> (payload:
    NotificationPayload)
    ensures
        payload@ == queue_full(members@, red, green, blue),
{
    let payload = NotificationPayload {
        kind: EventKind::QueueFull,
        title: String::from_str("Members in queue:"),
        description: names_of(members),
        footer: String::from_str("The queue is full! Now picking captains!"),
        colour: colour_from_rgb(red, green, blue),
        fields: Vec::new(),
    };
    assert(payload@.fields =~= Seq::empty());
    payload
}

} // verus!
