use acronymia::letter_bag::random_initialism;
use acronymia::prompts::{game_state_init, parse_prompt_line, parse_prompts, split_lines};
use acronymia::random::shuffle;
use acronymia::state::demo_init;
use acronymia::strutil::decimal_string;
use acronymia::styles::{
    counter_class, judge_class, number_input_class, text_input_class, ButtonStyle,
};
use acronymia::types::{GameStep, Range};

#[test]
fn prompt_line_splits_at_its_only_separator() {
    assert_eq!(
        parse_prompt_line("What is ___ ?"),
        Some(("What is ".to_owned(), " ?".to_owned()))
    );
    assert_eq!(parse_prompt_line("____"), Some(("".to_owned(), "_".to_owned())));
    assert_eq!(parse_prompt_line("___"), Some(("".to_owned(), "".to_owned())));
    assert_eq!(parse_prompt_line("no separator"), None);
    assert_eq!(parse_prompt_line("a___b___c"), None);
    assert_eq!(parse_prompt_line(""), None);
}

#[test]
fn split_lines_matches_line_endings() {
    let lines = split_lines("first___a\nsecond\r\nthird");
    assert_eq!(lines, vec!["first___a", "second", "third"]);
    assert_eq!(split_lines(""), Vec::<String>::new());
    assert_eq!(split_lines("one\n"), vec!["one"]);
    assert_eq!(split_lines("\n"), vec![""]);
    assert_eq!(split_lines("bare\r"), vec!["bare\r"]);
}

#[test]
fn prompts_parse_discards_invalid_lines() {
    let prompts = parse_prompts("What is ___ ?\nnot a prompt\nBehold: ___!");
    assert_eq!(
        prompts,
        vec![
            ("What is ".to_owned(), " ?".to_owned()),
            ("Behold: ".to_owned(), "!".to_owned()),
        ]
    );
}

#[test]
fn initial_state_is_a_fresh_setup() {
    let state = game_state_init("A ___ b\nbad line\n");
    assert_eq!(state.step, GameStep::Setup);
    assert_eq!(state.rotation.len(), 0);
    assert_eq!(state.rounds.len(), 0);
    assert!(state.timer.0.is_none());
    assert!(!state.debug);
    assert_eq!(state.prompts, vec![("A ".to_owned(), " b".to_owned())]);
}

#[test]
fn initialism_length_and_alphabet() {
    for _ in 0..50 {
        let s = random_initialism(&Range { min: 2, max: 6 });
        assert!(s.len() >= 2 && s.len() <= 6);
        assert!(s.chars().all(|c| c.is_ascii_uppercase()));
    }
    let fixed = random_initialism(&Range { min: 4, max: 4 });
    assert_eq!(fixed.len(), 4);
}

#[test]
fn shuffle_keeps_exactly_the_elements() {
    let mut v: Vec<u32> = (0..40).collect();
    shuffle(&mut v);
    assert_eq!(v.len(), 40);
    let mut sorted = v.clone();
    sorted.sort();
    assert_eq!(sorted, (0..40).collect::<Vec<u32>>());
    let mut single = vec![9u32];
    shuffle(&mut single);
    assert_eq!(single, vec![9]);
}

#[test]
fn decimal_rendering() {
    assert_eq!(decimal_string(0), "0");
    assert_eq!(decimal_string(7), "7");
    assert_eq!(decimal_string(42), "42");
    assert_eq!(decimal_string(100), "100");
    assert_eq!(decimal_string(98765), "98765");
}

#[test]
fn round_counter_appears_in_the_client_snapshot() {
    let mut state = demo_init(vec!["a", "b", "c"]);
    state.rounds.push(acronymia::state::Round { judge: 0, ..Default::default() });
    state.step = GameStep::Submission;
    let client = state.to_client_state(0);
    assert_eq!(client.round_counter, "Round 1/6");
    assert_eq!(client.judge.as_deref(), Some("a"));
    assert_eq!(client.submission_count, 0);
}

#[test]
fn style_classes() {
    assert_eq!(
        ButtonStyle::Primary.class(),
        "bg-cyan-500 text-blue-50  rounded p-2 disabled:cursor-not-allowed disabled:bg-slate-600"
    );
    assert_eq!(
        ButtonStyle::Danger.class_with("m-2"),
        "bg-rose-400 text-blue-50 m-2 rounded p-2 disabled:cursor-not-allowed disabled:bg-slate-600"
    );
    assert_eq!(
        ButtonStyle::Nothing.class_with("x"),
        " x rounded p-2 disabled:cursor-not-allowed disabled:bg-slate-600"
    );
    assert_eq!(
        text_input_class("w-full"),
        "w-full border rounded border-slate-400 bg-slate-600 px-3"
    );
    assert_eq!(
        number_input_class(""),
        " border rounded border-slate-400 bg-slate-600 px-2"
    );
    assert_eq!(judge_class(), "font-bold text-amber-600");
    assert_eq!(counter_class(), "text-lime-100");
}
