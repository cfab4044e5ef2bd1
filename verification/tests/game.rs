use pugbot::models::draft_pool::DraftPool;
use pugbot::models::game::{Command, Game, GameError, Phases};
use pugbot::models::notification::EventKind;
use pugbot::models::player::Player;
use pugbot::traits::has_members::HasMembers;

fn p(id: u64) -> Player {
    Player::new(id, format!("player{}", id))
}

fn open_game(max_members: u32, num_captains: u32, team_size: u32) -> Game {
    Game::new(DraftPool::new(vec![], max_members), num_captains, team_size)
}

fn closed_game(max_members: u32, num_captains: u32, team_size: u32) -> Game {
    let mut game = open_game(max_members, num_captains, team_size);
    for id in 1..=max_members as u64 {
        game.join(p(id)).unwrap();
    }
    game
}

fn drafting_game(max_members: u32, num_captains: u32, team_size: u32) -> Game {
    let mut game = closed_game(max_members, num_captains, team_size);
    for number in 1..=num_captains as usize {
        game.select_captain(number).unwrap();
    }
    game
}

fn roster_ids(game: &Game) -> Vec<Vec<u64>> {
    game.teams().iter().map(|t| t.roster().iter().map(|m| m.id).collect()).collect()
}

#[test]
fn new_game_starts_in_registration() {
    let game = open_game(12, 2, 6);
    assert_eq!(game.phase(), Phases::PlayerRegistration);
    assert_eq!(game.num_captains(), 2);
    assert_eq!(game.team_size(), 6);
    assert!(game.teams().is_empty());
    assert!(game.captains().is_empty());
    assert!(game.captain_on_turn().is_none());
    assert_eq!(game.draft_pool().len(), 0);
}

#[test]
fn game_on_a_full_pool_starts_with_captain_selection() {
    let pool = DraftPool::new(vec![p(1), p(2)], 2);
    let game = Game::new(pool, 1, 2);
    assert_eq!(game.phase(), Phases::CaptainSelection);
    assert!(game.draft_pool().is_generated());
    assert_eq!(game.draft_pool().available_player(2).unwrap().id, 2);
}

#[test]
fn configuration_is_checked() {
    assert!(Game::admits(&DraftPool::new(vec![], 12), 2, 6));
    assert!(Game::admits(&DraftPool::new(vec![], 12), 2, 7));
    // no captain
    assert!(!Game::admits(&DraftPool::new(vec![], 12), 0, 6));
    // more captains than places in the queue
    assert!(!Game::admits(&DraftPool::new(vec![], 2), 3, 6));
    // teams too small for the queue
    assert!(!Game::admits(&DraftPool::new(vec![], 12), 2, 5));
    assert!(Game::try_new(DraftPool::new(vec![], 12), 2, 5).is_none());
    assert!(Game::try_new(DraftPool::new(vec![], 12), 2, 6).is_some());
    // a pool whose index exists already
    let mut used = DraftPool::new(vec![p(1)], 1);
    used.generate_available_players();
    assert!(!Game::admits(&used, 1, 1));
    assert!(Game::try_new(used, 1, 1).is_none());
}

#[test]
fn large_configuration_does_not_overflow() {
    assert!(Game::admits(&DraftPool::new(vec![], u32::MAX), u32::MAX, u32::MAX));
    assert!(!Game::admits(&DraftPool::new(vec![], u32::MAX), 1, u32::MAX - 1));
}

#[test]
fn queue_of_two_scenario() {
    let mut game = open_game(2, 1, 2);
    let first = game.join(Player::new(1, "A".to_string())).unwrap();
    assert_eq!(game.phase(), Phases::PlayerRegistration);
    assert_eq!(game.draft_pool().len(), 1);
    assert_eq!(first.kind, EventKind::QueueProgress);
    assert_eq!(first.description, vec!["A"]);
    assert_eq!(first.footer, "1 of 2 users in queue");
    assert_eq!(first.colour, 0xA5FFF1);

    let second = game.join(Player::new(2, "B".to_string())).unwrap();
    assert_eq!(game.phase(), Phases::CaptainSelection);
    assert_eq!(game.draft_pool().len(), 2);
    assert_eq!(second.kind, EventKind::QueueFull);
    assert_eq!(second.description, vec!["A", "B"]);
    assert_eq!(second.footer, "The queue is full! Now picking captains!");
    let index = game.draft_pool().available_player(1).unwrap();
    assert_eq!((index.id, index.name.as_str()), (1, "A"));
    let index = game.draft_pool().available_player(2).unwrap();
    assert_eq!((index.id, index.name.as_str()), (2, "B"));
    assert_eq!(game.draft_pool().available_count(), 2);

    let third = game.join(Player::new(3, "C".to_string()));
    assert_eq!(
        third,
        Err(GameError::InvalidPhaseTransition {
            phase: Phases::CaptainSelection,
            command: Command::Join
        })
    );
    assert_eq!(game.draft_pool().len(), 2);
    // a member who asks again is refused the same way
    let again = game.join(Player::new(1, "A".to_string()));
    assert_eq!(
        again,
        Err(GameError::InvalidPhaseTransition {
            phase: Phases::CaptainSelection,
            command: Command::Join
        })
    );
}

#[test]
fn distinct_joins_stop_at_capacity() {
    let mut game = open_game(4, 2, 2);
    let mut accepted = 0;
    for id in 1..=9u64 {
        if game.join(p(id)).is_ok() {
            accepted += 1;
        }
        assert!(game.draft_pool().len() <= 4);
    }
    assert_eq!(accepted, 4);
    assert_eq!(game.draft_pool().len(), 4);
    let queued: Vec<u64> = game.draft_pool().members().iter().map(|m| m.id).collect();
    assert_eq!(queued, vec![1, 2, 3, 4]);
}

#[test]
fn joining_twice_is_refused_and_changes_nothing() {
    let mut game = open_game(4, 2, 2);
    game.join(p(1)).unwrap();
    assert_eq!(game.join(p(1)), Err(GameError::AlreadyMember));
    assert_eq!(game.draft_pool().len(), 1);
    assert_eq!(game.phase(), Phases::PlayerRegistration);
}

#[test]
fn leaving_shortens_the_queue_and_allows_rejoining() {
    let mut game = open_game(4, 2, 2);
    game.join(p(1)).unwrap();
    game.join(p(2)).unwrap();
    game.join(p(3)).unwrap();
    let note = game.leave(p(2)).unwrap();
    assert_eq!(note.kind, EventKind::QueueProgress);
    assert_eq!(note.footer, "2 of 4 users in queue");
    assert_eq!(note.description, vec!["player1", "player3"]);
    assert_eq!(game.draft_pool().len(), 2);
    let back = game.join(p(2)).unwrap();
    assert_eq!(back.description, vec!["player1", "player3", "player2"]);
    assert_eq!(game.draft_pool().len(), 3);
}

#[test]
fn leaving_without_being_queued_is_refused() {
    let mut game = open_game(4, 2, 2);
    game.join(p(1)).unwrap();
    assert_eq!(game.leave(p(9)), Err(GameError::NotAMember));
    assert_eq!(game.draft_pool().len(), 1);
}

#[test]
fn leaving_after_the_queue_closed_is_refused() {
    let mut game = closed_game(2, 1, 2);
    assert_eq!(
        game.leave(p(1)),
        Err(GameError::InvalidPhaseTransition {
            phase: Phases::CaptainSelection,
            command: Command::Leave
        })
    );
    assert_eq!(game.draft_pool().len(), 2);
    assert_eq!(game.draft_pool().available_count(), 2);
}

#[test]
fn captains_leave_the_index_and_lead_teams() {
    let mut game = closed_game(4, 2, 2);
    let note = game.select_captain(3).unwrap();
    assert_eq!(game.phase(), Phases::CaptainSelection);
    assert_eq!(note.kind, EventKind::DraftUpdate);
    assert_eq!(note.title, "Available players:");
    assert_eq!(note.description, vec!["1. player1", "2. player2", "4. player4"]);
    assert_eq!(note.footer, "3 of 4 players left to pick");
    assert_eq!(note.fields.len(), 1);
    assert_eq!(note.fields[0].name, "player3");
    assert_eq!(note.fields[0].lines, vec!["player3"]);
    assert!(game.draft_pool().available_player(3).is_none());

    game.select_captain(1).unwrap();
    assert_eq!(game.phase(), Phases::Drafting);
    let captains: Vec<u64> = game.captains().iter().map(|c| c.id).collect();
    assert_eq!(captains, vec![3, 1]);
    assert_eq!(game.captain_on_turn().unwrap().id, 3);
    assert_eq!(roster_ids(&game), vec![vec![3], vec![1]]);
}

#[test]
fn captain_cannot_be_named_twice() {
    let mut game = closed_game(4, 2, 2);
    game.select_captain(3).unwrap();
    assert_eq!(game.select_captain(3), Err(GameError::PickNotFound { pick_number: 3 }));
    assert_eq!(game.select_captain(0), Err(GameError::PickNotFound { pick_number: 0 }));
    assert_eq!(game.select_captain(5), Err(GameError::PickNotFound { pick_number: 5 }));
    assert_eq!(game.captains().len(), 1);
    assert_eq!(game.phase(), Phases::CaptainSelection);
}

#[test]
fn captains_are_named_only_during_captain_selection() {
    let mut game = open_game(4, 2, 2);
    assert_eq!(
        game.select_captain(1),
        Err(GameError::InvalidPhaseTransition {
            phase: Phases::PlayerRegistration,
            command: Command::SelectCaptain
        })
    );
    let mut game = drafting_game(4, 2, 2);
    assert_eq!(
        game.select_captain(3),
        Err(GameError::InvalidPhaseTransition {
            phase: Phases::Drafting,
            command: Command::SelectCaptain
        })
    );
    assert_eq!(game.draft_pool().available_count(), 2);
}

#[test]
fn pick_before_the_draft_is_refused() {
    let mut game = open_game(4, 2, 2);
    assert_eq!(
        game.pick(&p(1), 1),
        Err(GameError::InvalidPhaseTransition {
            phase: Phases::PlayerRegistration,
            command: Command::Pick
        })
    );
    let mut game = closed_game(4, 2, 2);
    assert_eq!(game.pick(&p(1), 2), Err(GameError::CaptainSlotsUnfilled));
    game.select_captain(1).unwrap();
    assert_eq!(game.pick(&p(1), 2), Err(GameError::CaptainSlotsUnfilled));
    assert_eq!(game.draft_pool().available_count(), 3);
}

#[test]
fn pick_of_a_missing_number_changes_nothing() {
    // six in the queue, two captains, so the numbers 3 to 6 can be picked;
    // the captain on turn asks for 5 after it has been taken, and for 9
    let mut game = drafting_game(6, 2, 3);
    game.pick(&p(1), 5).unwrap();
    let before = roster_ids(&game);
    assert_eq!(game.pick(&p(2), 5), Err(GameError::PickNotFound { pick_number: 5 }));
    assert_eq!(game.pick(&p(2), 9), Err(GameError::PickNotFound { pick_number: 9 }));
    assert_eq!(roster_ids(&game), before);
    assert_eq!(game.draft_pool().available_count(), 3);
    assert_eq!(game.captain_on_turn().unwrap().id, 2);
    assert_eq!(game.phase(), Phases::Drafting);
}

#[test]
fn pick_number_five_that_never_existed() {
    let mut game = drafting_game(4, 2, 2);
    let before = roster_ids(&game);
    assert_eq!(game.pick(&p(1), 5), Err(GameError::PickNotFound { pick_number: 5 }));
    assert_eq!(roster_ids(&game), before);
    assert_eq!(before, vec![vec![1], vec![2]]);
}

#[test]
fn pick_out_of_turn_is_refused() {
    let mut game = drafting_game(6, 2, 3);
    assert_eq!(game.pick(&p(2), 3), Err(GameError::NotYourTurn));
    // someone who is no captain
    assert_eq!(game.pick(&p(4), 3), Err(GameError::NotYourTurn));
    // out of turn wins over a missing number
    assert_eq!(game.pick(&p(2), 99), Err(GameError::NotYourTurn));
    assert_eq!(game.draft_pool().available_count(), 4);
    game.pick(&p(1), 3).unwrap();
    assert_eq!(game.pick(&p(1), 4), Err(GameError::NotYourTurn));
    game.pick(&p(2), 4).unwrap();
    assert_eq!(roster_ids(&game), vec![vec![1, 3], vec![2, 4]]);
}

#[test]
fn round_robin_draft_of_six_with_two_captains() {
    // eight queue up, two become captains, six are left to pick
    let mut game = drafting_game(8, 2, 4);
    assert_eq!(game.draft_pool().available_count(), 6);
    let order = [(1u64, 8usize), (2, 3), (1, 4), (2, 7), (1, 5), (2, 6)];
    for (turn, (captain, number)) in order.iter().enumerate() {
        assert_eq!(game.phase(), Phases::Drafting);
        assert_eq!(game.captain_on_turn().unwrap().id, *captain);
        let note = game.pick(&p(*captain), *number).unwrap();
        assert_eq!(note.kind, EventKind::DraftUpdate);
        assert_eq!(note.description.len(), 5 - turn);
    }
    assert_eq!(game.phase(), Phases::Complete);
    assert_eq!(game.draft_pool().available_count(), 0);
    assert!(game.captain_on_turn().is_none());
    assert_eq!(roster_ids(&game), vec![vec![1, 8, 4, 5], vec![2, 3, 7, 6]]);
    let mut everyone: Vec<u64> = roster_ids(&game).into_iter().flatten().collect();
    everyone.sort();
    assert_eq!(everyone, vec![1, 2, 3, 4, 5, 6, 7, 8]);
}

#[test]
fn six_numbers_empty_a_closed_pool_of_six() {
    // two of the six numbers name the captains, four are picked in rotation
    let mut game = closed_game(6, 2, 3);
    assert_eq!(game.draft_pool().available_count(), 6);
    game.select_captain(4).unwrap();
    game.select_captain(2).unwrap();
    assert_eq!(game.phase(), Phases::Drafting);
    game.pick(&p(4), 1).unwrap();
    game.pick(&p(2), 6).unwrap();
    game.pick(&p(4), 5).unwrap();
    assert_eq!(game.phase(), Phases::Drafting);
    game.pick(&p(2), 3).unwrap();
    assert_eq!(game.phase(), Phases::Complete);
    assert_eq!(game.draft_pool().available_count(), 0);
    for number in 0..8usize {
        assert!(game.draft_pool().available_player(number).is_none());
    }
    assert_eq!(roster_ids(&game), vec![vec![4, 1, 5], vec![2, 6, 3]]);
    for id in 1..=6u64 {
        let seats = roster_ids(&game).iter().flatten().filter(|member| **member == id).count();
        assert_eq!(seats, 1);
    }
    assert_eq!(game.roster_of(&p(4)).unwrap().len(), 3);
    assert_eq!(game.roster_of(&p(2)).unwrap()[1].id, 6);
    assert!(game.roster_of(&p(1)).is_none());
}

#[test]
fn complete_game_takes_no_command() {
    let mut game = drafting_game(3, 1, 3);
    game.pick(&p(1), 2).unwrap();
    game.pick(&p(1), 3).unwrap();
    assert_eq!(game.phase(), Phases::Complete);
    let refused = |command| Err(GameError::InvalidPhaseTransition { phase: Phases::Complete, command });
    assert_eq!(game.join(p(9)), refused(Command::Join));
    assert_eq!(game.leave(p(1)), refused(Command::Leave));
    assert_eq!(game.select_captain(1), refused(Command::SelectCaptain));
    assert_eq!(game.pick(&p(1), 1), refused(Command::Pick));
    assert_eq!(roster_ids(&game), vec![vec![1, 2, 3]]);
}

#[test]
fn everyone_a_captain_completes_without_a_draft() {
    let mut game = closed_game(2, 2, 1);
    game.select_captain(2).unwrap();
    assert_eq!(game.phase(), Phases::CaptainSelection);
    let note = game.select_captain(1).unwrap();
    assert_eq!(game.phase(), Phases::Complete);
    assert!(note.description.is_empty());
    assert_eq!(note.footer, "0 of 2 players left to pick");
    assert_eq!(roster_ids(&game), vec![vec![2], vec![1]]);
}

#[test]
fn draft_update_lists_index_and_rosters() {
    let mut game = drafting_game(5, 2, 3);
    game.pick(&p(1), 4).unwrap();
    let note = game.notification(EventKind::DraftUpdate);
    assert_eq!(note.description, vec!["3. player3", "5. player5"]);
    assert_eq!(note.footer, "2 of 5 players left to pick");
    assert_eq!(note.colour, 0xA5FFF1);
    assert_eq!(note.fields.len(), 2);
    assert_eq!(note.fields[0].name, "player1");
    assert_eq!(note.fields[0].lines, vec!["player1", "player4"]);
    assert_eq!(note.fields[1].name, "player2");
    assert_eq!(note.fields[1].lines, vec!["player2"]);
}

#[test]
fn teams_never_outgrow_the_team_size() {
    let mut game = drafting_game(7, 3, 3);
    let mut captain = 0;
    for number in 4..=7usize {
        let on_turn = game.captain_on_turn().unwrap();
        assert_eq!(on_turn.id, captain % 3 + 1);
        game.pick(&on_turn, number).unwrap();
        captain += 1;
        for team in game.teams() {
            assert!(team.roster().len() <= 3);
        }
    }
    assert_eq!(game.phase(), Phases::Complete);
    assert_eq!(roster_ids(&game), vec![vec![1, 4, 7], vec![2, 5], vec![3, 6]]);
}

#[test]
fn notification_of_each_kind() {
    let mut game = open_game(2, 1, 2);
    let note = game.notification(EventKind::QueueProgress);
    assert_eq!(note.kind, EventKind::QueueProgress);
    assert_eq!(note.footer, "0 of 2 users in queue");
    game.join(p(1)).unwrap();
    let note = game.notification(EventKind::QueueProgress);
    assert_eq!(note.description, vec!["player1"]);
    assert_eq!(note.footer, "1 of 2 users in queue");
    let note = game.notification(EventKind::QueueFull);
    assert_eq!(note.kind, EventKind::QueueFull);
    assert_eq!(note.description, vec!["player1"]);
    assert_eq!(note.footer, "The queue is full! Now picking captains!");
    let note = game.notification(EventKind::DraftUpdate);
    assert_eq!(note.kind, EventKind::DraftUpdate);
    assert!(note.description.is_empty());
    assert_eq!(note.footer, "0 of 1 players left to pick");
    assert!(note.fields.is_empty());
}
