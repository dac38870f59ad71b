use acronymia::client_state::{apply_server_message, apply_timer_to_game, is_host, judge_of, Judge};
use acronymia::constants::timer_duration;
use acronymia::timer::Timer;
use acronymia::transport::{heartbeat_action, should_close_connection, HeartbeatAction};
use acronymia::types::{
    ClientGameState, GameStep, Player, ServerMessage, SessionId, TimerTag,
};

#[test]
fn timer_tag_durations() {
    assert_eq!(TimerTag::Submission.secs(), 60);
    assert_eq!(TimerTag::Judging.secs(), 45);
    assert_eq!(TimerTag::ShowRoundWinner.secs(), 10);
    assert_eq!(timer_duration(), 60);
}

#[test]
fn remaining_secs_rounds_at_the_midpoint() {
    let t = Timer::new(1000, 1, TimerTag::Submission);
    // Untouched: the full minute.
    assert_eq!(t.remaining_secs(1000), Some(60));
    // 499 ms elapsed rounds up to the full minute; 500 ms starts rounding down.
    assert_eq!(t.remaining_secs(1499), Some(60));
    assert_eq!(t.remaining_secs(1501), Some(59));
    // 30.4 s elapsed: 29.6 s left rounds to 30; 30.6 s elapsed rounds to 29.
    assert_eq!(t.remaining_secs(31400), Some(30));
    assert_eq!(t.remaining_secs(31600), Some(29));
    // Expired.
    assert_eq!(t.remaining_secs(61000), None);
    assert_eq!(t.remaining_secs(100000), None);
}

#[test]
fn remaining_secs_is_monotone_and_absent_after_cancel() {
    let mut t = Timer::new(0, 1, TimerTag::Judging);
    let mut last = u64::MAX;
    let mut now = 0;
    while now <= 46000 {
        match t.remaining_secs(now) {
            Some(s) => {
                assert!(s <= last);
                last = s;
            },
            None => {
                // Once absent it stays absent.
                assert_eq!(t.remaining_secs(now + 1000), None);
            },
        }
        now += 700;
    }
    let mut armed = Timer::new(0, 2, TimerTag::Submission);
    assert!(armed.remaining_secs(100).is_some());
    armed.cancel();
    assert_eq!(armed.remaining_secs(100), None);
    t.cancel();
    assert_eq!(t.remaining_secs(0), None);
}

#[test]
fn heartbeat_closes_only_after_the_timeout() {
    assert_eq!(heartbeat_action(4000, 0), HeartbeatAction::Ping);
    assert_eq!(heartbeat_action(10000, 0), HeartbeatAction::Ping);
    assert_eq!(heartbeat_action(10001, 0), HeartbeatAction::Close);
    // A clock reading before the last heartbeat never closes.
    assert_eq!(heartbeat_action(0, 5000), HeartbeatAction::Ping);
}

#[test]
fn duplicate_session_closes_only_the_named_connection() {
    let msg = ServerMessage::DuplicateSession(SessionId("s7".to_owned()));
    assert!(should_close_connection(&msg, &SessionId("s7".to_owned())));
    assert!(!should_close_connection(&msg, &SessionId("s1".to_owned())));
    let other = ServerMessage::IncrementSubmissionCount;
    assert!(!should_close_connection(&other, &SessionId("s7".to_owned())));
}

#[test]
fn client_state_absorbs_broadcasts() {
    let mut s = ClientGameState::default();

    apply_server_message(
        &mut s,
        ServerMessage::PlayerJoined(Player { id: "p1".to_owned(), name: "alice".to_owned() }),
    );
    assert_eq!(s.players.len(), 1);
    assert_eq!(s.players[0].name, "alice");

    // A second join with the same id renames instead of duplicating.
    apply_server_message(
        &mut s,
        ServerMessage::PlayerJoined(Player { id: "p1".to_owned(), name: "alicia".to_owned() }),
    );
    assert_eq!(s.players.len(), 1);
    assert_eq!(s.players[0].name, "alicia");

    apply_server_message(&mut s, ServerMessage::IncrementSubmissionCount);
    apply_server_message(&mut s, ServerMessage::IncrementSubmissionCount);
    assert_eq!(s.submission_count, 2);

    apply_server_message(&mut s, ServerMessage::ShowRoundWinner("p1".to_owned()));
    assert_eq!(s.round_winner.as_deref(), Some("p1"));
    assert_eq!(s.timer, Some(10));

    apply_server_message(&mut s, ServerMessage::UpdateRemainingTime(Some(7)));
    assert_eq!(s.timer, Some(7));
    apply_server_message(&mut s, ServerMessage::UpdateRemainingTime(None));
    assert_eq!(s.timer, None);

    // The addressed rejection patches nothing.
    let before_players = s.players.len();
    apply_server_message(&mut s, ServerMessage::DuplicateSession(SessionId("x".to_owned())));
    assert_eq!(s.players.len(), before_players);

    // A full snapshot replaces everything.
    let mut snapshot = ClientGameState::default();
    snapshot.step = GameStep::Judging;
    snapshot.submission_count = 5;
    apply_server_message(&mut s, ServerMessage::GameState(snapshot));
    assert_eq!(s.step, GameStep::Judging);
    assert_eq!(s.submission_count, 5);
    assert_eq!(s.players.len(), 0);
}

#[test]
fn judge_resolution_from_the_client_view() {
    let mut s = ClientGameState::default();
    s.players = vec![
        Player { id: "p1".to_owned(), name: "alice".to_owned() },
        Player { id: "p2".to_owned(), name: "bob".to_owned() },
    ];
    assert!(judge_of(&s, &"p1".to_owned()).is_none());
    s.judge = Some("p1".to_owned());
    assert!(matches!(judge_of(&s, &"p1".to_owned()), Some(Judge::Me)));
    match judge_of(&s, &"p2".to_owned()) {
        Some(Judge::Name(name)) => assert_eq!(name, "alice"),
        other => panic!("expected the judge's name, got {:?}", other),
    }
    s.judge = Some("ghost".to_owned());
    assert!(judge_of(&s, &"p1".to_owned()).is_none());

    assert!(is_host(&s, &"p1".to_owned()));
    assert!(!is_host(&s, &"p2".to_owned()));
    s.players.clear();
    assert!(!is_host(&s, &"p1".to_owned()));
}

#[test]
fn client_countdown_ticks_to_zero_and_stops() {
    let mut s = ClientGameState::default();
    assert!(!apply_timer_to_game(&mut s));
    s.timer = Some(2);
    assert!(apply_timer_to_game(&mut s));
    assert_eq!(s.timer, Some(1));
    assert!(apply_timer_to_game(&mut s));
    assert_eq!(s.timer, Some(0));
    assert!(!apply_timer_to_game(&mut s));
    assert_eq!(s.timer, Some(0));
}
