use pugbot::models::draft_pool::DraftPool;
use pugbot::models::notification::{
    build_draft_update, build_queue_full, build_queue_progress, names_of, progress_text,
    EventKind, Field,
};
use pugbot::models::player::Player;
use pugbot::text::decimal_string;
use pugbot::traits::has_members::HasMembers;
use pugbot::traits::pool_availability::PoolAvailability;

fn named(id: u64, name: &str) -> Player {
    Player::new(id, name.to_string())
}

#[test]
fn decimal_of_single_digits() {
    let expected = ["0", "1", "2", "3", "4", "5", "6", "7", "8", "9"];
    for n in 0..10u64 {
        assert_eq!(decimal_string(n), expected[n as usize]);
    }
}

#[test]
fn decimal_of_longer_numbers() {
    assert_eq!(decimal_string(10), "10");
    assert_eq!(decimal_string(12), "12");
    assert_eq!(decimal_string(100), "100");
    assert_eq!(decimal_string(1_234_567_890), "1234567890");
    assert_eq!(decimal_string(4_294_967_295), "4294967295");
    assert_eq!(decimal_string(u64::MAX), "18446744073709551615");
}

#[test]
fn decimal_agrees_with_std_formatting() {
    for n in (0..5000u64).chain([65_535, 65_536, 999_999, 1_000_000]) {
        assert_eq!(decimal_string(n), format!("{}", n));
    }
}

#[test]
fn progress_text_counts_queued_of_capacity() {
    assert_eq!(progress_text(0, 12), "0 of 12 users in queue");
    assert_eq!(progress_text(1, 12), "1 of 12 users in queue");
    assert_eq!(progress_text(11, 12), "11 of 12 users in queue");
}

#[test]
fn names_keep_their_order() {
    let members = vec![named(3, "cy"), named(1, "ann"), named(2, "bob")];
    assert_eq!(names_of(&members), vec!["cy", "ann", "bob"]);
    assert!(names_of(&vec![]).is_empty());
}

#[test]
fn queue_progress_payload() {
    let members = vec![named(1, "ann"), named(2, "bob")];
    let payload = build_queue_progress(&members, 12, 165, 255, 241);
    assert_eq!(payload.kind, EventKind::QueueProgress);
    assert_eq!(payload.title, "Members in queue:");
    assert_eq!(payload.description, vec!["ann", "bob"]);
    assert_eq!(payload.footer, "2 of 12 users in queue");
    assert_eq!(payload.colour, 0xA5FFF1);
    assert!(payload.fields.is_empty());
}

#[test]
fn queue_full_payload() {
    let members = vec![named(1, "ann"), named(2, "bob")];
    let payload = build_queue_full(&members, 165, 255, 241);
    assert_eq!(payload.kind, EventKind::QueueFull);
    assert_eq!(payload.title, "Members in queue:");
    assert_eq!(payload.description, vec!["ann", "bob"]);
    assert_eq!(payload.footer, "The queue is full! Now picking captains!");
    assert_eq!(payload.colour, 10_878_961);
    assert!(payload.fields.is_empty());
}

#[test]
fn colour_packs_red_green_blue() {
    let none: Vec<Player> = vec![];
    assert_eq!(build_queue_full(&none, 255, 0, 0).colour, 0xFF0000);
    assert_eq!(build_queue_full(&none, 0, 255, 0).colour, 0x00FF00);
    assert_eq!(build_queue_full(&none, 0, 0, 255).colour, 0x0000FF);
    assert_eq!(build_queue_full(&none, 217, 23, 211).colour, 0xD917D3);
    assert_eq!(build_queue_full(&none, 0, 0, 0).colour, 0);
    assert_eq!(build_queue_progress(&none, 1, 1, 2, 3).colour, 0x010203);
}

#[test]
fn draft_update_payload() {
    let fields = vec![Field { name: "ann".to_string(), lines: vec!["ann".to_string()] }];
    let payload = build_draft_update(
        vec!["2. bob".to_string(), "3. cy".to_string()],
        2,
        3,
        fields,
        1,
        2,
        3,
    );
    assert_eq!(payload.kind, EventKind::DraftUpdate);
    assert_eq!(payload.title, "Available players:");
    assert_eq!(payload.description, vec!["2. bob", "3. cy"]);
    assert_eq!(payload.footer, "2 of 3 players left to pick");
    assert_eq!(payload.colour, 0x010203);
    assert_eq!(payload.fields.len(), 1);
    assert_eq!(payload.fields[0].name, "ann");
    assert_eq!(payload.fields[0].lines, vec!["ann"]);
}

#[test]
fn pool_embeds_read_the_queue() {
    let pool = DraftPool::new(vec![named(1, "ann"), named(2, "bob"), named(3, "cy")], 12);
    let changed = pool.members_changed_embed(165, 255, 241);
    assert_eq!(changed.kind, EventKind::QueueProgress);
    assert_eq!(changed.description, vec!["ann", "bob", "cy"]);
    assert_eq!(changed.footer, "3 of 12 users in queue");
    assert_eq!(changed.colour, 0xA5FFF1);
    let full = pool.members_full_embed(10, 20, 30);
    assert_eq!(full.kind, EventKind::QueueFull);
    assert_eq!(full.description, vec!["ann", "bob", "cy"]);
    assert_eq!(full.footer, "The queue is full! Now picking captains!");
    assert_eq!(full.colour, 0x0A141E);
}

#[test]
fn embed_of_an_empty_queue() {
    let pool = DraftPool::new(vec![], 1);
    let changed = pool.members_changed_embed(0, 0, 0);
    assert!(changed.description.is_empty());
    assert_eq!(changed.footer, "0 of 1 users in queue");
}
