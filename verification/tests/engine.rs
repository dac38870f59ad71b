use acronymia::engine::{handle_message, handle_timeout, TimerEffect};
use acronymia::prompts::game_state_init;
use acronymia::sessions::Sessions;
use acronymia::state::demo_init;
use acronymia::transport::should_close_connection;
use acronymia::types::{ClientMessage, Config, GameStep, ServerMessage, SessionId};

fn sid(s: &str) -> SessionId {
    SessionId(s.to_owned())
}

#[test]
fn duplicate_connect_rejects_only_the_new_connection() {
    let mut state = game_state_init("");
    let mut sessions = Sessions::new();
    let e1 = handle_message(sid("s1"), ClientMessage::Connect("p1".to_owned()), &mut state, &mut sessions, 0);
    assert_eq!(e1.broadcasts.len(), 1);
    assert!(matches!(e1.broadcasts[0], ServerMessage::GameState(_)));

    let e2 = handle_message(sid("s2"), ClientMessage::Connect("p1".to_owned()), &mut state, &mut sessions, 0);
    assert_eq!(e2.broadcasts.len(), 1);
    match &e2.broadcasts[0] {
        ServerMessage::DuplicateSession(s) => assert_eq!(s.0, "s2"),
        other => panic!("expected a duplicate-session rejection, got {:?}", other),
    }
    // Only the new connection must close on that broadcast.
    assert!(should_close_connection(&e2.broadcasts[0], &sid("s2")));
    assert!(!should_close_connection(&e2.broadcasts[0], &sid("s1")));
    // The original session mapping is unaffected.
    assert_eq!(sessions.player_id(&sid("s1")), Some(&"p1".to_owned()));
    assert_eq!(sessions.player_id(&sid("s2")), None);
}

#[test]
fn disconnect_frees_the_player_for_a_new_session() {
    let mut state = game_state_init("");
    let mut sessions = Sessions::new();
    handle_message(sid("s1"), ClientMessage::Connect("p1".to_owned()), &mut state, &mut sessions, 0);
    handle_message(sid("s1"), ClientMessage::Disconnect, &mut state, &mut sessions, 0);
    assert_eq!(sessions.player_id(&sid("s1")), None);
    let e = handle_message(sid("s2"), ClientMessage::Connect("p1".to_owned()), &mut state, &mut sessions, 0);
    assert!(matches!(e.broadcasts[0], ServerMessage::GameState(_)));
}

fn join(state: &mut acronymia::state::GameState, sessions: &mut Sessions, s: &str, p: &str, name: &str) {
    let e = handle_message(sid(s), ClientMessage::Connect(p.to_owned()), state, sessions, 0);
    assert!(matches!(e.broadcasts[0], ServerMessage::GameState(_)));
    let e = handle_message(sid(s), ClientMessage::JoinGame { name: name.to_owned() }, state, sessions, 0);
    assert_eq!(e.broadcasts.len(), 1);
    match &e.broadcasts[0] {
        ServerMessage::PlayerJoined(pl) => {
            assert_eq!(pl.id, p);
            assert_eq!(pl.name, name);
        },
        other => panic!("expected a player-joined delta, got {:?}", other),
    }
}

#[test]
fn full_game_round_advances_to_the_next_judge() {
    let mut state = game_state_init("");
    let mut sessions = Sessions::new();
    join(&mut state, &mut sessions, "s1", "p1", "alice");
    join(&mut state, &mut sessions, "s2", "p2", "bob");
    join(&mut state, &mut sessions, "s3", "p3", "carl");
    assert_eq!(state.step, GameStep::Setup);

    let e = handle_message(sid("s1"), ClientMessage::StartGame(Config::default()), &mut state, &mut sessions, 1000);
    assert_eq!(state.step, GameStep::Submission);
    assert_eq!(state.rounds.len(), 1);
    assert_eq!(state.rounds[0].judge, 0);
    assert!(matches!(e.timer, TimerEffect::Schedule(acronymia::types::TimerTag::Submission, _)));

    // The judge's own submission is dropped.
    let e = handle_message(
        sid("s1"),
        ClientMessage::SubmitAcronym(vec!["Zig".to_owned()]),
        &mut state,
        &mut sessions,
        2000,
    );
    assert_eq!(e.broadcasts.len(), 0);
    assert_eq!(state.rounds[0].submissions.len(), 0);

    let e = handle_message(
        sid("s2"),
        ClientMessage::SubmitAcronym(vec!["Big".to_owned(), "Cats".to_owned()]),
        &mut state,
        &mut sessions,
        3000,
    );
    assert!(matches!(e.broadcasts[0], ServerMessage::IncrementSubmissionCount));
    assert_eq!(state.step, GameStep::Submission);

    // A second submission from the same player overwrites, never double-counts.
    let e = handle_message(
        sid("s2"),
        ClientMessage::SubmitAcronym(vec!["Bigger".to_owned(), "Cats".to_owned()]),
        &mut state,
        &mut sessions,
        3500,
    );
    assert_eq!(e.broadcasts.len(), 0);
    assert_eq!(state.rounds[0].submissions.len(), 1);
    assert_eq!(state.step, GameStep::Submission);

    // The last required submission advances the phase without the timer.
    let e = handle_message(
        sid("s3"),
        ClientMessage::SubmitAcronym(vec!["Cool".to_owned(), "Dogs".to_owned()]),
        &mut state,
        &mut sessions,
        4000,
    );
    assert_eq!(state.step, GameStep::Judging);
    assert!(matches!(e.broadcasts[0], ServerMessage::GameState(_)));
    assert!(matches!(e.timer, TimerEffect::Schedule(acronymia::types::TimerTag::Judging, _)));
    assert_eq!(state.shuffled_submissions.len(), 2);

    // The judge picks a winner; picking again in the same round is a no-op.
    let e = handle_message(sid("s1"), ClientMessage::JudgeRound("p2".to_owned()), &mut state, &mut sessions, 5000);
    match &e.broadcasts[0] {
        ServerMessage::ShowRoundWinner(w) => assert_eq!(w, "p2"),
        other => panic!("expected the round-winner event, got {:?}", other),
    }
    let reveal_epoch = match e.timer {
        TimerEffect::Schedule(acronymia::types::TimerTag::ShowRoundWinner, ep) => ep,
        _ => panic!("expected the winner-reveal countdown"),
    };
    let e = handle_message(sid("s1"), ClientMessage::JudgeRound("p3".to_owned()), &mut state, &mut sessions, 5100);
    assert_eq!(e.broadcasts.len(), 0);
    assert_eq!(state.rounds[0].winner.as_deref(), Some("p2"));

    // The reveal countdown fires: a new round starts under the next judge.
    let e = handle_timeout(&mut state, reveal_epoch, 10000);
    assert_eq!(state.step, GameStep::Submission);
    assert_eq!(state.rounds.len(), 2);
    assert_eq!(state.rounds[1].judge, 1);
    assert!(matches!(e.timer, TimerEffect::Schedule(acronymia::types::TimerTag::Submission, _)));

    // The stale reveal countdown lost its race and does nothing.
    let e = handle_timeout(&mut state, reveal_epoch, 11000);
    assert_eq!(e.broadcasts.len(), 0);
    assert_eq!(state.step, GameStep::Submission);
    assert_eq!(state.rounds.len(), 2);
}

#[test]
fn out_of_phase_messages_are_dropped() {
    let mut state = game_state_init("");
    let mut sessions = Sessions::new();
    join(&mut state, &mut sessions, "s1", "p1", "alice");
    // Submitting during setup does nothing.
    let e = handle_message(
        sid("s1"),
        ClientMessage::SubmitAcronym(vec!["Nope".to_owned()]),
        &mut state,
        &mut sessions,
        0,
    );
    assert_eq!(e.broadcasts.len(), 0);
    assert_eq!(state.step, GameStep::Setup);
    // Judging during setup does nothing.
    let e = handle_message(sid("s1"), ClientMessage::JudgeRound("p1".to_owned()), &mut state, &mut sessions, 0);
    assert_eq!(e.broadcasts.len(), 0);
    // Starting twice does nothing the second time.
    handle_message(sid("s1"), ClientMessage::StartGame(Config::default()), &mut state, &mut sessions, 0);
    assert_eq!(state.step, GameStep::Submission);
    let e = handle_message(sid("s1"), ClientMessage::StartGame(Config::default()), &mut state, &mut sessions, 0);
    assert_eq!(e.broadcasts.len(), 0);
    assert_eq!(state.rounds.len(), 1);
    // Joining after the game started does nothing.
    let e = handle_message(sid("s1"), ClientMessage::JoinGame { name: "late".to_owned() }, &mut state, &mut sessions, 0);
    assert_eq!(e.broadcasts.len(), 0);
}

#[test]
fn judge_rotation_skips_quit_players() {
    // Rotation [a, b, c] with b quit: the judge sequence visits a, c, a, …
    let mut state = demo_init(vec!["a", "b", "c"]);
    state.rotation[1].quit = true;
    state.rounds.push(acronymia::state::Round { judge: 0, ..Default::default() });
    assert_eq!(state.next_judge(), 2);
    state.rounds[0].judge = 2;
    assert_eq!(state.next_judge(), 0);
    state.rounds[0].judge = 0;
    assert_eq!(state.next_judge(), 2);
}

#[test]
fn kicked_player_is_hidden_and_skipped() {
    let mut state = game_state_init("");
    let mut sessions = Sessions::new();
    join(&mut state, &mut sessions, "s1", "p1", "alice");
    join(&mut state, &mut sessions, "s2", "p2", "bob");
    join(&mut state, &mut sessions, "s3", "p3", "carl");
    let e = handle_message(sid("s1"), ClientMessage::KickPlayer("p2".to_owned()), &mut state, &mut sessions, 0);
    assert!(matches!(e.broadcasts[0], ServerMessage::GameState(_)));
    assert!(state.rotation[1].quit);
    // Hidden from the client-visible roster.
    let client = state.to_client_state(0);
    let ids: Vec<&str> = client.players.iter().map(|p| p.id.as_str()).collect();
    assert_eq!(ids, vec!["p1", "p3"]);
}

#[test]
fn get_remaining_time_reports_the_countdown() {
    let mut state = game_state_init("");
    let mut sessions = Sessions::new();
    join(&mut state, &mut sessions, "s1", "p1", "alice");
    join(&mut state, &mut sessions, "s2", "p2", "bob");
    handle_message(sid("s1"), ClientMessage::StartGame(Config::default()), &mut state, &mut sessions, 1000);
    let e = handle_message(sid("s2"), ClientMessage::GetRemainingTime, &mut state, &mut sessions, 31000);
    match &e.broadcasts[0] {
        ServerMessage::UpdateRemainingTime(t) => assert_eq!(*t, Some(30)),
        other => panic!("expected a remaining-time update, got {:?}", other),
    }
}

#[test]
fn debug_messages_are_dropped_in_production() {
    let mut state = game_state_init("");
    let mut sessions = Sessions::new();
    join(&mut state, &mut sessions, "s1", "p1", "alice");
    handle_message(sid("s1"), ClientMessage::StartGame(Config::default()), &mut state, &mut sessions, 0);
    let e = handle_message(sid("s1"), ClientMessage::ResetState, &mut state, &mut sessions, 0);
    assert_eq!(e.broadcasts.len(), 0);
    assert_eq!(state.step, GameStep::Submission);
    let e = handle_message(sid("s1"), ClientMessage::StopTimer, &mut state, &mut sessions, 0);
    assert_eq!(e.broadcasts.len(), 0);
    assert!(state.timer.0.is_some());
}

#[test]
fn debug_reset_returns_to_setup() {
    let mut state = demo_init(vec!["a", "b", "c"]);
    let mut sessions = Sessions::new();
    handle_message(sid("s1"), ClientMessage::Connect("a".to_owned()), &mut state, &mut sessions, 0);
    handle_message(sid("s1"), ClientMessage::StartGame(Config::default()), &mut state, &mut sessions, 0);
    assert_eq!(state.step, GameStep::Submission);
    let e = handle_message(sid("s1"), ClientMessage::ResetState, &mut state, &mut sessions, 0);
    assert!(matches!(e.broadcasts[0], ServerMessage::GameState(_)));
    assert_eq!(state.step, GameStep::Setup);
    assert_eq!(state.rounds.len(), 0);
    assert!(state.timer.0.is_none());
}

#[test]
fn invalid_config_is_rejected() {
    let mut state = game_state_init("");
    let mut sessions = Sessions::new();
    join(&mut state, &mut sessions, "s1", "p1", "alice");
    let bad = Config { letters_per_acronym: acronymia::types::Range { min: 5, max: 2 } };
    let e = handle_message(sid("s1"), ClientMessage::StartGame(bad), &mut state, &mut sessions, 0);
    assert_eq!(e.broadcasts.len(), 0);
    assert_eq!(state.step, GameStep::Setup);
}

#[test]
fn winner_must_have_submitted() {
    let mut state = game_state_init("");
    let mut sessions = Sessions::new();
    join(&mut state, &mut sessions, "s1", "p1", "alice");
    join(&mut state, &mut sessions, "s2", "p2", "bob");
    join(&mut state, &mut sessions, "s3", "p3", "carl");
    handle_message(sid("s1"), ClientMessage::StartGame(Config::default()), &mut state, &mut sessions, 0);
    handle_message(sid("s2"), ClientMessage::SubmitAcronym(vec!["One".to_owned()]), &mut state, &mut sessions, 0);
    handle_message(sid("s3"), ClientMessage::SubmitAcronym(vec!["Two".to_owned()]), &mut state, &mut sessions, 0);
    assert_eq!(state.step, GameStep::Judging);
    // Picking someone who never submitted is a no-op.
    let e = handle_message(sid("s1"), ClientMessage::JudgeRound("p1".to_owned()), &mut state, &mut sessions, 0);
    assert_eq!(e.broadcasts.len(), 0);
    assert_eq!(state.rounds[0].winner, None);
}
