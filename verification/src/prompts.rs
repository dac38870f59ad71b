//! Parsing of the prompt flavor file: one prompt per line, the text before
//! and after the acronym separated by a triple underscore.  Lines that do
//! not hold exactly one separator are discarded.

use vstd::prelude::*;

use crate::random::{lemma_map_values_multiset, shuffle};
use crate::state::GameState;
use crate::timer::Timer;
use crate::types::{Config, GameStep};

verus! {

/// A separator (three underscores) starts at index `i`.
pub open spec fn spec_is_sep(s: Seq<char>, i: int) -> bool {
    0 <= i && i + 3 <= s.len() && s[i] == '_' && s[i + 1] == '_' && s[i + 2] == '_'
}

/// The line splits into exactly two fragments: it has a separator, and no
/// further separator follows the first one.
pub open spec fn spec_valid_prompt_line(s: Seq<char>) -> bool {
    exists|i: int|
        spec_is_sep(s, i) && (forall|k: int| 0 <= k < i ==> !spec_is_sep(s, k)) && (forall|k: int|
            i + 3 <= k ==> !spec_is_sep(s, k))
}

/// The two fragments of a valid line, split at its only separator.
pub open spec fn spec_prompt_of(s: Seq<char>) -> (Seq<char>, Seq<char>) {
    let i = choose|i: int|
        spec_is_sep(s, i) && (forall|k: int| 0 <= k < i ==> !spec_is_sep(s, k)) && (forall|k: int|
            i + 3 <= k ==> !spec_is_sep(s, k));
    (s.subrange(0, i), s.subrange(i + 3, s.len() as int))
}

/// Splits a line into the text before and after its only separator.
/// Rejected when the line has no separator, or more than one.
pub fn parse_prompt_line(line: &str) -> (r: Option<(String, String)>)
    ensures
        r is Some <==> spec_valid_prompt_line(line@),
        r matches Some(p) ==> (p.0@, p.1@) == spec_prompt_of(line@),
{
    let n = line.unicode_len();
    if n < 3 {
        return None;
    }
    let mut i: usize = 0;
    let mut found = false;
    while i <= n - 3 && !found
        invariant
            3 <= n == line@.len(),
            i <= n - 2,
            !found ==> forall|k: int| 0 <= k < i ==> !spec_is_sep(line@, k),
            found ==> spec_is_sep(line@, i as int) && (forall|k: int|
                0 <= k < i ==> !spec_is_sep(line@, k)),
        decreases n - i + if found {
            0int
        } else {
            1int
        },
    {
        if line.get_char(i) == '_' && line.get_char(i + 1) == '_' && line.get_char(i + 2) == '_' {
            found = true;
        } else {
            i += 1;
        }
    }
    if !found {
        proof {
            assert(forall|k: int| spec_is_sep(line@, k) ==> 0 <= k <= n - 3);
        }
        return None;
    }
    let mut k: usize = i + 3;
    while k <= n - 3
        invariant
            3 <= n == line@.len(),
            i + 3 <= k,
            forall|t: int| i + 3 <= t < k ==> !spec_is_sep(line@, t),
            spec_is_sep(line@, i as int),
            forall|t: int| 0 <= t < i ==> !spec_is_sep(line@, t),
        decreases n - k,
    {
        if line.get_char(k) == '_' && line.get_char(k + 1) == '_' && line.get_char(k + 2) == '_' {
            proof {
                assert(spec_is_sep(line@, k as int));
            }
            return None;
        }
        k += 1;
    }
    proof {
        assert(forall|t: int| spec_is_sep(line@, t) ==> t <= n - 3);
        assert(spec_valid_prompt_line(line@));
        let j = choose|j: int|
            spec_is_sep(line@, j) && (forall|t: int| 0 <= t < j ==> !spec_is_sep(line@, t)) && (
            forall|t: int| j + 3 <= t ==> !spec_is_sep(line@, t));
        assert(!(j < i) && !(i < j));
    }
    let before = line.substring_char(0, i).to_owned();
    let after = line.substring_char(i + 3, n).to_owned();
    Some((before, after))
}

/// Index of the first line feed, or the length when there is none.
pub open spec fn spec_first_break(s: Seq<char>) -> nat
    decreases s.len(),
{
    if s.len() == 0 {
        0
    } else if s[0] == '\n' {
        0
    } else {
        1 + spec_first_break(s.drop_first())
    }
}

proof fn lemma_first_break_is(s: Seq<char>, m: int)
    requires
        0 <= m <= s.len(),
        forall|k: int| 0 <= k < m ==> s[k] != '\n',
        m < s.len() ==> s[m] == '\n',
    ensures
        spec_first_break(s) == m,
    decreases s.len(),
{
    if s.len() > 0 && m > 0 {
        lemma_first_break_is(s.drop_first(), m - 1);
    }
}

/// A line with its trailing carriage return removed.
pub open spec fn spec_strip_cr(s: Seq<char>) -> Seq<char> {
    if s.len() > 0 && s.last() == '\r' {
        s.drop_last()
    } else {
        s
    }
}

/// The text split at line feeds, each line stripped of a carriage return
/// left by a Windows line ending.  A final line without a line ending keeps
/// its characters as they are; a trailing line ending adds no empty line.
pub open spec fn spec_split_lines(s: Seq<char>) -> Seq<Seq<char>>
    decreases s.len(),
{
    if s.len() == 0 {
        Seq::empty()
    } else {
        let i = spec_first_break(s);
        if i < s.len() {
            seq![spec_strip_cr(s.take(i as int))] + spec_split_lines(s.skip(i as int + 1))
        } else {
            seq![s]
        }
    }
}

/// The character views of a list of lines.
pub open spec fn spec_lines_view(v: Seq<String>) -> Seq<Seq<char>> {
    v.map_values(|x: String| x@)
}

/// Splits a text at line feeds, the way the standard line iterator does.
pub fn split_lines(text: &str) -> (r: Vec<String>)
    ensures
        spec_lines_view(r@) == spec_split_lines(text@),
{
    let n = text.unicode_len();
    let mut r: Vec<String> = Vec::new();
    let mut pos: usize = 0;
    proof {
        assert(text@.skip(0) =~= text@);
        assert(spec_lines_view(r@) + spec_split_lines(text@) =~= spec_split_lines(text@));
    }
    while pos < n
        invariant
            n == text@.len(),
            pos <= n,
            spec_split_lines(text@) == spec_lines_view(r@) + spec_split_lines(
                text@.skip(pos as int),
            ),
        decreases n - pos,
    {
        let ghost suf = text@.skip(pos as int);
        let mut end: usize = pos;
        while end < n && text.get_char(end) != '\n'
            invariant
                n == text@.len(),
                pos <= end <= n,
                forall|k: int| pos <= k < end ==> text@[k] != '\n',
            decreases n - end,
        {
            end += 1;
        }
        proof {
            assert(forall|k: int| 0 <= k < end - pos ==> suf[k] == text@[pos + k]);
            lemma_first_break_is(suf, end - pos);
        }
        let line = if end < n {
            let stop = if end > pos && text.get_char(end - 1) == '\r' {
                end - 1
            } else {
                end
            };
            text.substring_char(pos, stop).to_owned()
        } else {
            text.substring_char(pos, n).to_owned()
        };
        proof {
            if end < n {
                assert(suf.take(end - pos) =~= text@.subrange(pos as int, end as int));
                if end > pos && text@[end - 1] == '\r' {
                    assert(line@ =~= spec_strip_cr(suf.take(end - pos)));
                } else {
                    assert(line@ =~= spec_strip_cr(suf.take(end - pos)));
                }
            } else {
                assert(line@ =~= suf);
            }
        }
        let ghost prev = r@;
        r.push(line);
        proof {
            assert(spec_lines_view(r@) =~= spec_lines_view(prev).push(line@));
        }
        if end < n {
            proof {
                assert(suf.skip((end - pos) as int + 1) =~= text@.skip(end + 1));
                assert(spec_split_lines(suf) == seq![spec_strip_cr(suf.take((end - pos) as int))]
                    + spec_split_lines(suf.skip((end - pos) as int + 1)));
                assert(spec_split_lines(text@) =~= spec_lines_view(r@) + spec_split_lines(
                    text@.skip(end + 1),
                ));
            }
            pos = end + 1;
        } else {
            proof {
                assert(spec_split_lines(suf) == seq![suf]);
                assert(text@.skip(n as int).len() == 0);
                assert(spec_split_lines(text@.skip(n as int)) =~= Seq::<Seq<char>>::empty());
                assert(spec_split_lines(text@) =~= spec_lines_view(r@) + spec_split_lines(
                    text@.skip(n as int),
                ));
            }
            pos = n;
        }
    }
    proof {
        assert(text@.skip(n as int).len() == 0);
        assert(spec_split_lines(text@) =~= spec_lines_view(r@));
    }
    r
}


/// The fragments of the valid lines, in order; invalid lines are dropped.
pub open spec fn spec_parsed_prompts(lines: Seq<Seq<char>>) -> Seq<(Seq<char>, Seq<char>)>
    decreases lines.len(),
{
    if lines.len() == 0 {
        Seq::empty()
    } else {
        let rest = spec_parsed_prompts(lines.drop_last());
        if spec_valid_prompt_line(lines.last()) {
            rest.push(spec_prompt_of(lines.last()))
        } else {
            rest
        }
    }
}

/// The fragment views of a list of prompt pairs.
pub open spec fn spec_pairs_view(v: Seq<(String, String)>) -> Seq<(Seq<char>, Seq<char>)> {
    v.map_values(|p: (String, String)| (p.0@, p.1@))
}

/// Parses every line of the flavor file, in order, discarding lines without
/// exactly one separator.
pub fn parse_prompts(text: &str) -> (r: Vec<(String, String)>)
    ensures
        spec_pairs_view(r@) == spec_parsed_prompts(spec_split_lines(text@)),
{
    let lines = split_lines(text);
    let n = lines.len();
    let mut r: Vec<(String, String)> = Vec::new();
    let mut i: usize = 0;
    proof {
        assert(spec_lines_view(lines@).take(0).len() == 0);
    }
    while i < n
        invariant
            n == lines@.len(),
            spec_lines_view(lines@) == spec_split_lines(text@),
            i <= n,
            spec_pairs_view(r@) == spec_parsed_prompts(spec_lines_view(lines@).take(i as int)),
        decreases n - i,
    {
        proof {
            assert(spec_lines_view(lines@).take(i + 1).drop_last() =~= spec_lines_view(
                lines@,
            ).take(i as int));
            assert(spec_lines_view(lines@).take(i + 1).last() == lines@[i as int]@);
        }
        let ghost prev = r@;
        match parse_prompt_line(lines[i].as_str()) {
            Some(p) => {
                r.push(p);
                proof {
                    assert(spec_pairs_view(r@) =~= spec_pairs_view(prev).push(
                        (r@.last().0@, r@.last().1@),
                    ));
                }
            },
            None => {},
        }
        proof {
            assert(spec_pairs_view(r@) =~= spec_parsed_prompts(
                spec_lines_view(lines@).take(i + 1),
            ));
        }
        i += 1;
    }
    proof {
        assert(spec_lines_view(lines@).take(n as int) =~= spec_split_lines(text@));
    }
    r
}

/// A fresh production state: setup phase, empty roster, default
/// configuration, and the flavor lines parsed from the given text and dealt
/// into a random order.
pub fn game_state_init(prompt_text: &str) -> (r: GameState)
    ensures
        r.wf(),
        r.step == GameStep::Setup,
        r.rotation@.len() == 0,
        r.rounds@.len() == 0,
        r.shuffled_submissions@.len() == 0,
        r.timer.0 is None,
        r.timer_epoch == 0,
        r.config.valid(),
        r.debug == false,
        spec_pairs_view(r.prompts@).to_multiset() == spec_parsed_prompts(
            spec_split_lines(prompt_text@),
        ).to_multiset(),
{
    let mut prompts = parse_prompts(prompt_text);
    let ghost before = prompts@;
    shuffle(&mut prompts);
    proof {
        lemma_map_values_multiset(prompts@, before, |p: (String, String)| (p.0@, p.1@));
    }
    GameState {
        step: GameStep::Setup,
        rotation: Vec::new(),
        rounds: Vec::new(),
        shuffled_submissions: Vec::new(),
        timer: Timer::default(),
        timer_epoch: 0,
        config: Config::default(),
        prompts,
        debug: false,
    }
}

} // verus!

