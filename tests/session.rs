use std::cell::RefCell;
use std::rc::Rc;

use ppoker::app::{App, Config, VoteAverage};
use ppoker::client::{ClientError, NotificationHandler, PokerClient};
use ppoker::models::{GamePhase, LogEntry, LogLevel, LogSource, Player, Room, UserType, Vote, VoteData};

#[derive(Debug, Clone, PartialEq)]
enum Call {
    Vote(Option<String>),
    ChangeName(String),
    Chat(String),
    Reveal,
    Reset,
    GetUpdates,
}

#[derive(Default)]
struct MockClient {
    calls: Rc<RefCell<Vec<Call>>>,
    updates: Vec<(Vec<Room>, Vec<LogEntry>)>,
    fail: bool,
}

impl MockClient {
    fn answer(&self) -> Result<(), ClientError> {
        if self.fail {
            Err(ClientError::Transport("send failed".to_string()))
        } else {
            Ok(())
        }
    }
}

impl PokerClient for MockClient {
    fn get_updates(&mut self) -> Result<(Vec<Room>, Vec<LogEntry>), ClientError> {
        self.calls.borrow_mut().push(Call::GetUpdates);
        if self.updates.is_empty() {
            Ok((vec![], vec![]))
        } else {
            Ok(self.updates.remove(0))
        }
    }
    fn vote(&mut self, card_value: Option<&str>) -> Result<(), ClientError> {
        self.calls.borrow_mut().push(Call::Vote(card_value.map(|s| s.to_string())));
        self.answer()
    }
    fn change_name(&mut self, name: &str) -> Result<(), ClientError> {
        self.calls.borrow_mut().push(Call::ChangeName(name.to_string()));
        self.answer()
    }
    fn chat(&mut self, message: &str) -> Result<(), ClientError> {
        self.calls.borrow_mut().push(Call::Chat(message.to_string()));
        self.answer()
    }
    fn reveal_cards(&mut self) -> Result<(), ClientError> {
        self.calls.borrow_mut().push(Call::Reveal);
        self.answer()
    }
    fn reset(&mut self) -> Result<(), ClientError> {
        self.calls.borrow_mut().push(Call::Reset);
        self.answer()
    }
}

#[derive(Default)]
struct MockNotifier {
    alerts: Rc<RefCell<Vec<(String, String)>>>,
}

impl NotificationHandler for MockNotifier {
    fn notify(&self, summary: &str, body: &str) {
        self.alerts.borrow_mut().push((summary.to_string(), body.to_string()));
    }
    fn notify_with_bell(&self, summary: &str, body: &str) {
        self.notify(summary, body);
    }
}

fn deck(cards: &[&str]) -> Vec<String> {
    cards.iter().map(|c| c.to_string()).collect()
}

fn create_test_room_with_deck(deck: Vec<String>) -> Room {
    Room {
        name: "test-room".to_string(),
        deck,
        phase: GamePhase::Playing,
        players: vec![Player {
            name: "Test User".to_string(),
            vote: Vote::Missing,
            is_you: true,
            user_type: UserType::Player,
        }],
    }
}

fn create_test_room() -> Room {
    create_test_room_with_deck(deck(&["1", "2", "3", "5", "8", "13"]))
}

fn test_config() -> Config {
    Config {
        name: "test".to_string(),
        room: "test-room".to_string(),
        server: "wss://mocked".to_string(),
        skip_update_check: false,
        disable_notifications: false,
        disable_auto_reveal: false,
        keep_backup_on_update: true,
    }
}

struct Harness {
    calls: Rc<RefCell<Vec<Call>>>,
    alerts: Rc<RefCell<Vec<(String, String)>>>,
}

fn create_test_app_with(
    room: Room,
    updates: Vec<(Vec<Room>, Vec<LogEntry>)>,
) -> (App<MockClient, MockNotifier>, Harness) {
    let client = MockClient { updates, ..MockClient::default() };
    let notifier = MockNotifier::default();
    let harness = Harness { calls: client.calls.clone(), alerts: notifier.alerts.clone() };
    let mut app = App::new(test_config(), client, room, vec![], notifier, 0);
    app.name = "Test User".to_string();
    (app, harness)
}

fn create_test_app() -> (App<MockClient, MockNotifier>, Harness) {
    create_test_app_with(create_test_room(), vec![])
}

fn other(name: &str, vote: Vote, user_type: UserType) -> Player {
    Player { name: name.to_string(), vote, is_you: false, user_type }
}

fn calls(h: &Harness) -> Vec<Call> {
    h.calls.borrow().clone()
}

#[test]
fn test_vote_success() {
    let (mut app, h) = create_test_app();
    app.vote("5", 0).unwrap();
    assert!(app.vote.is_some());
    if let Some(VoteData::Number(n)) = app.vote {
        assert_eq!(n, 5);
    } else {
        panic!("Expected numeric vote");
    }
    assert_eq!(calls(&h), vec![Call::Vote(Some("5".to_string()))]);
}

#[test]
fn test_update_merges_room_data() {
    let mut updated_room = create_test_room();
    updated_room.phase = GamePhase::Revealed;
    updated_room.players[0].vote = Vote::Revealed(VoteData::Number(5));
    let (mut app, h) = create_test_app_with(create_test_room(), vec![(vec![updated_room], vec![])]);

    assert_eq!(app.room.phase, GamePhase::Playing);
    assert_eq!(app.room.players[0].vote, Vote::Missing);
    assert!(app.history.is_empty());

    app.update(100).unwrap();

    assert_eq!(app.room.phase, GamePhase::Revealed);
    assert_eq!(app.room.players[0].vote, Vote::Revealed(VoteData::Number(5)));
    assert_eq!(app.history.len(), 1);
    assert_eq!(app.history[0].round_number, 1);
    assert_eq!(app.history[0].votes.len(), 1);
    assert_eq!(app.history[0].votes[0].vote, Vote::Revealed(VoteData::Number(5)));
    assert_eq!(calls(&h), vec![Call::GetUpdates]);
}

#[test]
fn app_test_chat_message() {
    let (mut app, h) = create_test_app();
    app.chat("Hello!".to_string()).unwrap();
    assert_eq!(calls(&h), vec![Call::Chat("Hello!".to_string())]);
}

#[test]
fn test_autoreveal_triggers_when_last_to_vote() {
    let (mut app, h) = create_test_app();
    app.room.players.push(other("Other Player", Vote::Hidden, UserType::Player));

    app.vote("5", 1_000).unwrap();
    assert!(app.auto_reveal_at.is_some());

    // three seconds later the reveal is due
    app.check_auto_reveal(4_001).unwrap();
    assert_eq!(calls(&h), vec![Call::Vote(Some("5".to_string())), Call::Reveal]);
}

#[test]
fn test_autoreveal_not_triggered_when_others_not_voted() {
    let (mut app, h) = create_test_app();
    app.room.players.push(other("Other Player", Vote::Missing, UserType::Player));

    app.vote("5", 0).unwrap();
    assert!(app.auto_reveal_at.is_none());
    assert_eq!(calls(&h), vec![Call::Vote(Some("5".to_string()))]);
}

#[test]
fn test_autoreveal_not_affected_by_spectators() {
    let (mut app, h) = create_test_app();
    app.room.players.push(other("Other Player", Vote::Hidden, UserType::Player));
    app.room.players.push(other("Spectator", Vote::Missing, UserType::Spectator));

    app.vote("5", 1_000).unwrap();
    assert!(app.auto_reveal_at.is_some());

    app.check_auto_reveal(4_001).unwrap();
    assert_eq!(calls(&h), vec![Call::Vote(Some("5".to_string())), Call::Reveal]);
}

#[test]
fn test_autoreveal_respects_config_disable() {
    let (mut app, h) = create_test_app();
    app.room.players.push(other("Other Player", Vote::Hidden, UserType::Player));
    app.config.disable_auto_reveal = true;

    app.vote("5", 0).unwrap();
    assert!(app.auto_reveal_at.is_none());
    assert_eq!(calls(&h), vec![Call::Vote(Some("5".to_string()))]);
}

#[test]
fn test_autoreveal_cancels_when_new_player_joins() {
    let (mut app, _h) = create_test_app();
    app.room.players.push(other("Other Player", Vote::Hidden, UserType::Player));

    app.vote("5", 0).unwrap();
    assert!(app.auto_reveal_at.is_some());

    let mut updated_room = app.room.clone();
    updated_room.players.push(other("New Player", Vote::Missing, UserType::Player));
    app.merge_update(updated_room, 500);

    assert!(app.auto_reveal_at.is_none());
}

#[test]
fn test_autoreveal_cancels_when_vote_retracted() {
    let (mut app, _h) = create_test_app();
    app.room.players.push(other("Other Player", Vote::Hidden, UserType::Player));

    app.vote("5", 0).unwrap();
    assert!(app.auto_reveal_at.is_some());

    let mut updated_room = app.room.clone();
    updated_room.players[1].vote = Vote::Missing;
    app.merge_update(updated_room, 500);

    assert!(app.auto_reveal_at.is_none());
}

#[test]
fn test_vote_with_special_values() {
    let (mut app, h) = create_test_app_with(create_test_room_with_deck(deck(&["1", "coffee", "?"])), vec![]);
    app.vote("coffee", 0).unwrap();
    assert!(app.vote.is_some());
    if let Some(VoteData::Special(value)) = &app.vote {
        assert_eq!(value, "coffee");
    } else {
        panic!("Expected special vote");
    }
    assert_eq!(calls(&h), vec![Call::Vote(Some("coffee".to_string()))]);
}

#[test]
fn test_vote_with_utf8_values() {
    let (mut app, h) = create_test_app_with(create_test_room_with_deck(deck(&["1", "☕", "🎲"])), vec![]);
    app.vote("☕", 0).unwrap();
    assert!(app.vote.is_some());
    if let Some(VoteData::Special(value)) = &app.vote {
        assert_eq!(value, "☕");
    } else {
        panic!("Expected special vote with UTF-8 character");
    }
    assert_eq!(calls(&h), vec![Call::Vote(Some("☕".to_string()))]);
}

#[test]
fn test_vote_retraction() {
    let (mut app, h) = create_test_app();
    app.vote = Some(VoteData::Number(5));
    app.vote("-", 0).unwrap();
    assert!(app.vote.is_none());
    assert_eq!(calls(&h), vec![Call::Vote(None)]);
}

#[test]
fn test_rename() {
    let (mut app, h) = create_test_app();
    app.rename("New Name".to_string()).unwrap();
    assert_eq!(app.name, "New Name");
    assert_eq!(calls(&h), vec![Call::ChangeName("New Name".to_string())]);
}

#[test]
fn test_notification_triggers_when_last_to_vote() {
    let (mut app, h) = create_test_app();
    app.has_focus = false;
    app.config.disable_notifications = false;

    let mut new_room = app.room.clone();
    new_room.players.push(other("Player 2", Vote::Missing, UserType::Player));
    new_room.players.push(other("Player 3", Vote::Missing, UserType::Player));

    app.merge_update(new_room.clone(), 0);
    app.tick(0).unwrap();
    assert!(app.notify_vote_at.is_none());
    assert!(!app.is_notified);

    let mut voted_room = new_room.clone();
    voted_room.players[1].vote = Vote::Hidden;
    voted_room.players[2].vote = Vote::Hidden;

    app.merge_update(voted_room, 1_000);
    assert!(app.notify_vote_at.is_some());
    assert!(!app.is_notified);

    // past the notification deadline
    app.tick(9_001).unwrap();
    assert!(app.is_notified);
    assert!(app.notify_vote_at.is_none());
    assert_eq!(
        h.alerts.borrow().clone(),
        vec![("Planning Poker".to_string(), "Your vote is the last one missing.".to_string())]
    );
}

// ---------------------------------------------------------------------------------------
// Further cases
// ---------------------------------------------------------------------------------------

#[test]
fn vote_outside_deck_logs_one_error_and_sends_nothing() {
    let (mut app, h) = create_test_app();
    app.vote = Some(VoteData::Number(3));
    app.vote("  7 ", 42).unwrap();
    assert_eq!(app.vote, Some(VoteData::Number(3)));
    assert!(calls(&h).is_empty());
    assert_eq!(app.log.len(), 1);
    assert_eq!(app.log[0].level, LogLevel::Error);
    assert_eq!(app.log[0].source, LogSource::Client);
    assert_eq!(app.log[0].message, "Card is not in the deck: 7");
    assert_eq!(app.log[0].timestamp, 42);
    assert_eq!(app.log[0].server_index, None);
}

#[test]
fn vote_matches_deck_ignoring_ascii_case_and_spaces() {
    let (mut app, h) = create_test_app_with(create_test_room_with_deck(deck(&["Coffee", "1"])), vec![]);
    app.vote(" coffee\n", 0).unwrap();
    assert_eq!(app.vote, Some(VoteData::Special("coffee".to_string())));
    assert_eq!(calls(&h), vec![Call::Vote(Some("coffee".to_string()))]);
}

#[test]
fn vote_numeric_card_is_sent_in_decimal() {
    let (mut app, h) = create_test_app_with(create_test_room_with_deck(deck(&["+13", "1"])), vec![]);
    app.vote("+13", 0).unwrap();
    assert_eq!(app.vote, Some(VoteData::Number(13)));
    assert_eq!(calls(&h), vec![Call::Vote(Some("13".to_string()))]);
}

#[test]
fn vote_retraction_ignores_the_deck() {
    let (mut app, h) = create_test_app_with(create_test_room_with_deck(vec![]), vec![]);
    app.vote = Some(VoteData::Number(1));
    app.vote(" - ", 0).unwrap();
    assert_eq!(app.vote, None);
    assert_eq!(calls(&h), vec![Call::Vote(None)]);
}

#[test]
fn vote_error_from_transport_keeps_old_vote() {
    let client = MockClient { fail: true, ..MockClient::default() };
    let mut app = App::new(test_config(), client, create_test_room(), vec![], MockNotifier::default(), 0);
    app.room.players.push(other("Other Player", Vote::Hidden, UserType::Player));
    let r = app.vote("5", 0);
    assert_eq!(r, Err(ClientError::Transport("send failed".to_string())));
    assert_eq!(app.vote, None);
    assert!(app.auto_reveal_at.is_none());
}

#[test]
fn auto_reveal_single_player_never_arms() {
    let (mut app, _h) = create_test_app();
    app.vote("5", 0).unwrap();
    assert!(app.auto_reveal_at.is_none());
}

#[test]
fn auto_reveal_armed_three_seconds_later() {
    let (mut app, h) = create_test_app();
    app.room.players.push(other("Other Player", Vote::Hidden, UserType::Player));
    app.vote("5", 1_000).unwrap();
    assert_eq!(app.auto_reveal_at, Some(4_000));
    app.tick(4_000).unwrap();
    assert_eq!(app.auto_reveal_at, Some(4_000));
    app.tick(4_001).unwrap();
    assert_eq!(app.auto_reveal_at, None);
    assert_eq!(calls(&h), vec![Call::Vote(Some("5".to_string())), Call::Reveal]);
}

#[test]
fn reveal_and_restart_are_idempotent() {
    let (mut app, h) = create_test_app();
    app.restart().unwrap();
    app.room.phase = GamePhase::Revealed;
    app.reveal_cards().unwrap();
    assert_eq!(calls(&h), vec![]);
    app.restart().unwrap();
    app.room.phase = GamePhase::Playing;
    app.reveal_cards().unwrap();
    assert_eq!(calls(&h), vec![Call::Reset, Call::Reveal]);
}

fn revealed_room(votes: Vec<Vote>) -> Room {
    let mut room = create_test_room();
    room.phase = GamePhase::Revealed;
    room.players = votes
        .into_iter()
        .enumerate()
        .map(|(i, v)| Player { name: format!("p{}", i), vote: v, is_you: i == 0, user_type: UserType::Player })
        .collect();
    room
}

#[test]
fn round_transition_records_history_and_starts_next_round() {
    let (mut app, _h) = create_test_app();
    app.vote("5", 100).unwrap();
    app.merge_update(revealed_room(vec![Vote::Revealed(VoteData::Number(5))]), 2_100);
    assert_eq!(app.history.len(), 1);
    assert_eq!(app.history[0].round_number, 1);
    assert_eq!(app.history[0].length, 2_100);
    assert_eq!(app.history[0].own_vote, Some(VoteData::Number(5)));
    assert_eq!(app.history[0].deck, deck(&["1", "2", "3", "5", "8", "13"]));
    assert!(app.has_updates);

    app.merge_update(create_test_room(), 3_000);
    assert_eq!(app.round_number, 2);
    assert_eq!(app.vote, None);
    assert_eq!(app.round_start, 3_000);
    assert_eq!(app.history.len(), 1);
}

#[test]
fn average_counts_only_revealed_numbers() {
    let (mut app, _h) = create_test_app();
    app.room = revealed_room(vec![
        Vote::Revealed(VoteData::Number(3)),
        Vote::Revealed(VoteData::Number(8)),
        Vote::Revealed(VoteData::Special("?".to_string())),
        Vote::Hidden,
        Vote::Missing,
    ]);
    let avg = app.average_votes().unwrap();
    assert_eq!(avg, VoteAverage { sum: 11, count: 2 });
    assert_eq!(avg.sum as f64 / avg.count as f64, 5.5);
}

#[test]
fn average_without_numbers_is_none() {
    let (mut app, _h) = create_test_app();
    app.room = revealed_room(vec![Vote::Revealed(VoteData::Special("?".to_string())), Vote::Missing]);
    assert_eq!(app.average_votes(), None);
}

#[test]
fn last_missing_is_scheduled_once() {
    let (mut app, _h) = create_test_app();
    let mut room = create_test_room();
    room.players.push(other("Other Player", Vote::Hidden, UserType::Player));
    app.merge_update(room.clone(), 1_000);
    assert_eq!(app.notify_vote_at, Some(9_000));
    assert_eq!(app.log.len(), 1);
    assert_eq!(app.log[0].message, "Your vote is the last one missing.");
    assert_eq!(app.log[0].level, LogLevel::Info);
    app.merge_update(room.clone(), 2_000);
    assert_eq!(app.notify_vote_at, Some(9_000));
    assert_eq!(app.log.len(), 1);
    app.tick(9_001).unwrap();
    assert!(app.is_notified);
    app.merge_update(room, 10_000);
    assert_eq!(app.notify_vote_at, None);
    assert_eq!(app.log.len(), 1);
}

#[test]
fn focused_window_suppresses_notification() {
    let (mut app, h) = create_test_app();
    app.has_focus = true;
    let mut room = create_test_room();
    room.players.push(other("Other Player", Vote::Hidden, UserType::Player));
    app.merge_update(room, 0);
    app.tick(8_001).unwrap();
    assert!(app.is_notified);
    assert!(h.alerts.borrow().is_empty());
}

#[test]
fn spectator_does_not_count_as_last_missing() {
    let (mut app, _h) = create_test_app();
    let mut room = create_test_room();
    room.players.push(other("Viewer", Vote::Missing, UserType::Spectator));
    room.players.push(other("Other Player", Vote::Missing, UserType::Player));
    app.merge_update(room, 0);
    assert!(!app.is_my_vote_last_missing());
    assert_eq!(app.notify_vote_at, None);
}

fn server_entry(i: u32, message: &str) -> LogEntry {
    LogEntry {
        timestamp: 0,
        level: LogLevel::Chat,
        message: message.to_string(),
        source: LogSource::Server,
        server_index: Some(i),
    }
}

#[test]
fn server_log_is_deduplicated_by_index() {
    let (mut app, _h) = create_test_app();
    let batch = vec![server_entry(0, "a"), server_entry(1, "b")];
    app.update_server_log(batch.clone());
    app.update_server_log(batch);
    assert_eq!(app.log.len(), 2);
    assert_eq!(app.log[0].message, "a");
    assert_eq!(app.log[1].message, "b");
}

#[test]
fn client_entries_are_never_deduplicated() {
    let (mut app, _h) = create_test_app();
    app.log_message(LogLevel::Info, "x".to_string(), 1);
    let mut e = server_entry(0, "y");
    e.server_index = None;
    app.update_server_log(vec![e.clone(), e]);
    assert_eq!(app.log.len(), 3);
}

#[test]
fn update_applies_snapshots_in_order() {
    let mut revealed = create_test_room();
    revealed.phase = GamePhase::Revealed;
    let playing = create_test_room();
    let (mut app, _h) = create_test_app_with(
        create_test_room(),
        vec![(vec![revealed, playing], vec![server_entry(0, "hi")])],
    );
    app.update(50).unwrap();
    assert_eq!(app.history.len(), 1);
    assert_eq!(app.round_number, 2);
    assert_eq!(app.room.phase, GamePhase::Playing);
    assert_eq!(app.log.len(), 1);
}

#[test]
fn end_to_end_single_player_round() {
    let mut room = create_test_room();
    room.players[0].name = "Alice".to_string();
    let (mut app, _h) = create_test_app_with(room.clone(), vec![]);
    app.vote("5", 0).unwrap();
    assert_eq!(app.vote, Some(VoteData::Number(5)));

    let mut revealed = room.clone();
    revealed.phase = GamePhase::Revealed;
    revealed.players[0].vote = Vote::Revealed(VoteData::Number(5));
    app.merge_update(revealed, 1_000);
    assert_eq!(app.history.len(), 1);
    let avg = app.history[0].average.unwrap();
    assert_eq!(avg.sum as f64 / avg.count as f64, 5.0);

    assert_eq!(app.round_number, 1);
    app.merge_update(room, 2_000);
    assert_eq!(app.round_number, 2);
    assert_eq!(app.vote, None);
}

#[test]
fn closed_connection_error_text() {
    assert_eq!(ClientError::ServerClosedConnection.to_string(), "Server closed connection.");
    assert_eq!(ClientError::ServerUpdateMissing.to_string(), "Server did not send room update in time.");
}

#[test]
fn focus_changes_are_recorded() {
    let (mut app, _h) = create_test_app();
    app.focus_changed(ppoker::app::FocusChange::Lost);
    assert!(!app.has_focus);
    app.focus_changed(ppoker::app::FocusChange::Gained);
    assert!(app.has_focus);
}
