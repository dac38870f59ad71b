use acronymia::scoring::{insert_or_add, lookup_score, submission_penalty};
use acronymia::state::{demo_init, GameState, Round};
use acronymia::types::Prompt;

fn subs(entries: Vec<(&str, Vec<&str>)>) -> Vec<(String, Vec<String>)> {
    entries
        .into_iter()
        .map(|(id, words)| {
            (id.to_owned(), words.into_iter().map(|w| w.to_owned()).collect())
        })
        .collect()
}

#[test]
fn scores() {
    let state = GameState {
        rounds: vec![
            Round {
                winner: Some("a".to_owned()),
                prompt: Prompt { acronym: "abc".to_owned(), ..Prompt::default() },
                submissions: subs(vec![("a", vec!["A", "B", "C"])]),
                ..Round::default()
            },
            Round {
                winner: Some("a".to_owned()),
                prompt: Prompt { acronym: "ef".to_owned(), ..Prompt::default() },
                submissions: subs(vec![("a", vec!["E", "F"])]),
                ..Round::default()
            },
            Round {
                winner: Some("b".to_owned()),
                prompt: Prompt { acronym: "four".to_owned(), ..Prompt::default() },
                submissions: subs(vec![("b", vec!["F", "O", "U", "R"])]),
                ..Round::default()
            },
            Round {
                winner: None,
                judge: 2,
                prompt: Prompt { acronym: "a".to_owned(), ..Prompt::default() },
                ..Round::default()
            },
        ],
        ..demo_init(vec!["a", "b", "c"])
    };
    assert_eq!(
        state.scores(),
        vec![("a".to_owned(), 5), ("b".to_owned(), 4), ("c".to_owned(), -1)]
    );
}

#[test]
fn scores_round_trip_example() {
    // One won round worth the acronym's length, one timed-out round that
    // costs the judge the prompt's length.
    let state = GameState {
        rounds: vec![
            Round {
                winner: Some("a".to_owned()),
                prompt: Prompt { acronym: "abc".to_owned(), ..Prompt::default() },
                submissions: subs(vec![("a", vec!["A", "B", "C"])]),
                ..Round::default()
            },
            Round {
                winner: None,
                judge: 2,
                prompt: Prompt { acronym: "xy".to_owned(), ..Prompt::default() },
                ..Round::default()
            },
        ],
        ..demo_init(vec!["a", "b", "c"])
    };
    let scores = state.scores();
    assert_eq!(
        scores,
        vec![("a".to_owned(), 3), ("b".to_owned(), 0), ("c".to_owned(), -2)]
    );
    // Deterministic: a second call answers the same.
    assert_eq!(state.scores(), scores);
    // Descending order.
    for w in scores.windows(2) {
        assert!(w[0].1 >= w[1].1);
    }
}

#[test]
fn scores_sorted_descending_with_negative_totals() {
    let state = GameState {
        rounds: vec![
            Round {
                winner: None,
                judge: 0,
                prompt: Prompt { acronym: "abcd".to_owned(), ..Prompt::default() },
                ..Round::default()
            },
            Round {
                winner: Some("c".to_owned()),
                judge: 1,
                prompt: Prompt { acronym: "ab".to_owned(), ..Prompt::default() },
                submissions: subs(vec![("c", vec!["Ax", "Bx"])]),
                ..Round::default()
            },
        ],
        ..demo_init(vec!["a", "b", "c"])
    };
    assert_eq!(
        state.scores(),
        vec![("c".to_owned(), 2), ("b".to_owned(), 0), ("a".to_owned(), -4)]
    );
}

#[test]
fn penalty_counts_flawed_words() {
    // Wrong first letter and a disallowed character each cost a point.
    let sub = vec!["Xpple".to_owned(), "Banana".to_owned(), "C4t!".to_owned()];
    assert_eq!(submission_penalty(&sub, "abc"), -2);
}

#[test]
fn penalty_zero_for_clean_submission() {
    let sub = vec!["apple".to_owned(), "Banana's".to_owned(), "cool-cat".to_owned()];
    assert_eq!(submission_penalty(&sub, "ABC"), 0);
}

#[test]
fn penalty_for_empty_and_extra_words() {
    // An empty word and a word beyond the acronym's length are flawed.
    let sub = vec!["".to_owned(), "Bee".to_owned(), "Extra".to_owned()];
    assert_eq!(submission_penalty(&sub, "ab"), -2);
}

#[test]
fn penalty_floors_round_score_at_zero() {
    let state = GameState {
        rounds: vec![Round {
            winner: Some("a".to_owned()),
            prompt: Prompt { acronym: "ab".to_owned(), ..Prompt::default() },
            submissions: subs(vec![("a", vec!["!!!", "???", "..."])]),
            judge: 1,
            ..Round::default()
        }],
        ..demo_init(vec!["a", "b", "c"])
    };
    // 2 points minus 3 penalties, floored at zero.
    assert_eq!(
        state.scores(),
        vec![("a".to_owned(), 0), ("b".to_owned(), 0), ("c".to_owned(), 0)]
    );
}

#[test]
fn insert_or_add_accumulates_per_key() {
    let mut map: Vec<(String, i64)> = Vec::new();
    insert_or_add(&mut map, "a".to_owned(), 3);
    insert_or_add(&mut map, "b".to_owned(), -1);
    insert_or_add(&mut map, "a".to_owned(), 4);
    assert_eq!(lookup_score(&map, &"a".to_owned()), 7);
    assert_eq!(lookup_score(&map, &"b".to_owned()), -1);
    assert_eq!(lookup_score(&map, &"c".to_owned()), 0);
    assert_eq!(map.len(), 2);
}
