//! The authoritative server-side game state: roster and judge rotation,
//! round records, the cached shuffle of the current round's submissions, the
//! active countdown, and the scoring and projection functions over them.

use vstd::prelude::*;

use crate::letter_bag::random_initialism;
use crate::random::{lemma_map_values_multiset, shuffle};
use crate::scoring::{
    insert_or_add, lookup_score, sort_scores_desc, spec_entries, spec_keys_distinct, spec_lookup,
    spec_penalty, spec_sorted_desc, spec_words, submission_penalty,
};
use crate::strutil::{decimal_string, spec_decimal};
use crate::timer::Timer;
use crate::types::{
    ClientGameState, Config, GameStep, Player, PlayerId, PlayerName, Prompt, Submission,
    MAX_ACRONYM_LETTERS,
};

verus! {

/// Upper bound on the roster size; keeps every score sum small.
pub const MAX_PLAYERS: usize = 10000;

/// Upper bound on the number of words accepted in one submission.
pub const MAX_SUBMISSION_WORDS: usize = 64;

/// Index into the rotation vector.
pub type JudgeId = usize;

/// A roster entry.  If a player leaves mid-game they are left in place, so
/// the judge rotation and the end-of-game scores stay consistent; they are
/// only flagged.
#[derive(Debug)]
pub struct ServerPlayer {
    pub quit: bool,
    pub id: PlayerId,
    pub name: String,
}

impl Clone for ServerPlayer {
    fn clone(&self) -> (r: Self)
        ensures
            r.quit == self.quit,
            r.id@ == self.id@,
            r.name@ == self.name@,
    {
        ServerPlayer { quit: self.quit, id: self.id.clone(), name: self.name.clone() }
    }
}

/// One judge/prompt/submissions/winner cycle.
#[derive(Debug)]
pub struct Round {
    pub judge: JudgeId,
    pub prompt: Prompt,
    pub winner: Option<PlayerId>,
    pub submissions: Vec<(PlayerId, Submission)>,
}

impl Default for Round {
    fn default() -> (r: Self)
        ensures
            r.judge == 0,
            r.prompt.before@ == Seq::<char>::empty(),
            r.prompt.acronym@ == Seq::<char>::empty(),
            r.prompt.after@ == Seq::<char>::empty(),
            r.winner is None,
            r.submissions@.len() == 0,
    {
        Round { judge: 0, prompt: Prompt::default(), winner: None, submissions: Vec::new() }
    }
}

/// A submission list holds an entry for this player id.
pub open spec fn spec_sub_has(subs: Seq<(PlayerId, Submission)>, id: Seq<char>) -> bool {
    exists|i: int| 0 <= i < subs.len() && subs[i].0@ == id
}

/// No player id appears twice in a submission list.
pub open spec fn spec_subs_distinct(subs: Seq<(PlayerId, Submission)>) -> bool {
    forall|i: int, j: int| 0 <= i < j < subs.len() ==> subs[i].0@ != subs[j].0@
}

/// The word views of the entry a submission list holds for a player id;
/// empty when there is none.
pub open spec fn spec_sub_words(subs: Seq<(PlayerId, Submission)>, id: Seq<char>) -> Seq<
    Seq<char>,
> {
    if spec_sub_has(subs, id) {
        let i = choose|i: int| 0 <= i < subs.len() && subs[i].0@ == id;
        spec_words(subs[i].1@)
    } else {
        Seq::empty()
    }
}

/// The character-level view of a submission list: each entry as the
/// submitter's id characters and its words' characters.
pub open spec fn spec_subs_view(subs: Seq<(PlayerId, Submission)>) -> Seq<
    (Seq<char>, Seq<Seq<char>>),
> {
    subs.map_values(|e: (PlayerId, Submission)| (e.0@, spec_words(e.1@)))
}

impl Round {
    /// Round soundness relative to a roster: the judge index is in range,
    /// submitters are distinct registered non-judge players, a recorded
    /// winner is one of the submitters, and sizes respect the engine's caps.
    pub open spec fn wf(self, rotation: Seq<ServerPlayer>) -> bool {
        &&& (self.judge as int) < rotation.len()
        &&& spec_subs_distinct(self.submissions@)
        &&& forall|i: int|
            0 <= i < self.submissions@.len() ==> spec_roster_has(
                rotation,
                #[trigger] self.submissions@[i].0@,
            )
        &&& forall|i: int|
            0 <= i < self.submissions@.len() ==> (#[trigger] self.submissions@[i].0@) != rotation[
                self.judge as int
            ].id@
        &&& (self.winner matches Some(w) ==> spec_sub_has(self.submissions@, w@))
        &&& self.prompt.acronym@.len() <= MAX_ACRONYM_LETTERS
        &&& forall|i: int|
            0 <= i < self.submissions@.len() ==> (#[trigger] self.submissions@[i].1@).len()
                <= MAX_SUBMISSION_WORDS
    }
}

/// The roster holds an entry with this player id.
pub open spec fn spec_roster_has(rotation: Seq<ServerPlayer>, id: Seq<char>) -> bool {
    exists|i: int| 0 <= i < rotation.len() && rotation[i].id@ == id
}

/// The roster index of a player id.
pub open spec fn spec_roster_index(rotation: Seq<ServerPlayer>, id: Seq<char>) -> int {
    choose|i: int| 0 <= i < rotation.len() && rotation[i].id@ == id
}

/// No player id appears twice in the roster.
pub open spec fn spec_roster_distinct(rotation: Seq<ServerPlayer>) -> bool {
    forall|i: int, j: int| 0 <= i < j < rotation.len() ==> rotation[i].id@ != rotation[j].id@
}

/// Server game state.
///
/// The state is kept normalized: who the current judge is, for example, is a
/// function of the last round record rather than a separate field.  The
/// roster doubles as the judge rotation — players stand in join order, and
/// quitting only flags an entry, so judge-index arithmetic stays stable.
#[derive(Debug)]
pub struct GameState {
    pub step: GameStep,
    /// Player information, in the order they will be judge.
    pub rotation: Vec<ServerPlayer>,
    pub rounds: Vec<Round>,
    /// Cached random order of the current round's submissions, computed once
    /// per judging phase so every client sees the same shuffle.
    pub shuffled_submissions: Vec<(PlayerId, Submission)>,
    pub timer: Timer,
    /// Mints a fresh epoch for each armed countdown; a wake-up whose epoch
    /// no longer matches the active countdown is stale and must not act.
    pub timer_epoch: u64,
    pub config: Config,
    /// Flavor text for each round's prompt, in use order.
    pub prompts: Vec<(String, String)>,
    /// Enables the state-reset and timer-stop debug messages; never set in
    /// production.
    pub debug: bool,
}

impl GameState {
    /// What the scoring function needs of a state: indices in range, sizes
    /// within the engine's caps, and every recorded winner among that
    /// round's submitters.
    pub open spec fn scores_wf(self) -> bool {
        &&& self.rotation@.len() <= MAX_PLAYERS
        &&& self.rounds@.len() <= 2 * self.rotation@.len()
        &&& forall|k: int|
            0 <= k < self.rounds@.len() ==> (#[trigger] self.rounds@[k].judge as int)
                < self.rotation@.len()
        &&& forall|k: int|
            0 <= k < self.rounds@.len() ==> (#[trigger] self.rounds@[k].prompt.acronym@).len()
                <= MAX_ACRONYM_LETTERS
        &&& forall|k: int|
            0 <= k < self.rounds@.len() ==> spec_subs_distinct(
                #[trigger] self.rounds@[k].submissions@,
            )
        &&& forall|k: int|
            0 <= k < self.rounds@.len() ==> (#[trigger] self.rounds@[k].winner matches Some(w)
                ==> spec_sub_has(self.rounds@[k].submissions@, w@))
        &&& forall|k: int, i: int|
            0 <= k < self.rounds@.len() && 0 <= i < self.rounds@[k].submissions@.len() ==> (
            #[trigger] self.rounds@[k].submissions@[i].1@).len() <= MAX_SUBMISSION_WORDS
    }

    /// Full well-formedness, preserved by every engine operation.
    pub open spec fn wf(self) -> bool {
        &&& self.scores_wf()
        &&& spec_roster_distinct(self.rotation@)
        &&& self.config.valid()
        &&& forall|k: int|
            0 <= k < self.rounds@.len() ==> (#[trigger] self.rounds@[k]).wf(self.rotation@)
        &&& (self.step == GameStep::Submission || self.step == GameStep::Judging
            ==> self.rounds@.len() > 0)
        &&& (self.step == GameStep::Setup ==> self.rounds@.len() == 0)
        &&& (self.timer.0 matches Some(f) ==> match f.tag {
            crate::types::TimerTag::Submission => self.step == GameStep::Submission,
            crate::types::TimerTag::Judging => self.step == GameStep::Judging,
            crate::types::TimerTag::ShowRoundWinner => self.step == GameStep::Judging,
        })
        &&& (self.shuffled_submissions@.len() > 0 ==> self.step == GameStep::Judging)
        &&& (self.step == GameStep::Judging ==> spec_subs_view(
            self.shuffled_submissions@,
        ).to_multiset() == spec_subs_view(self.rounds@.last().submissions@).to_multiset())
    }

    /// The rotation index judging the current round, if a round exists.
    pub open spec fn spec_current_judge(self) -> Option<int> {
        if self.rounds@.len() > 0 {
            Some(self.rounds@.last().judge as int)
        } else {
            None
        }
    }

    pub fn current_judge(&self) -> (r: Option<JudgeId>)
        ensures
            match r {
                Some(j) => self.spec_current_judge() == Some(j as int),
                None => self.spec_current_judge() is None,
            },
    {
        let n = self.rounds.len();
        if n > 0 {
            Some(self.rounds[n - 1].judge)
        } else {
            None
        }
    }

    /// The rotation index `offset` steps past the current judge, wrapping
    /// around.
    pub open spec fn spec_rotated_index(self, offset: int) -> int {
        let n = self.rotation@.len() as int;
        let j = self.rounds@.last().judge as int;
        if j + offset >= n {
            j + offset - n
        } else {
            j + offset
        }
    }

    /// The first non-quit rotation index at or past `offset` steps from the
    /// current judge; 0 when every candidate through offset `n - 1` quit.
    pub open spec fn spec_scan_judge(self, offset: int) -> int
        decreases self.rotation@.len() - offset when offset >= 0
    {
        let n = self.rotation@.len() as int;
        if offset >= n {
            0
        } else if !self.rotation@[self.spec_rotated_index(offset)].quit {
            self.spec_rotated_index(offset)
        } else {
            self.spec_scan_judge(offset + 1)
        }
    }

    /// Who judges the next round: the first non-quit player after the
    /// current judge in rotation order, or 0 before the first round starts
    /// (and as a defensive fallback when everyone else quit).
    pub open spec fn spec_next_judge(self) -> int {
        if self.rounds@.len() == 0 || self.rotation@.len() == 0 {
            0
        } else {
            self.spec_scan_judge(1)
        }
    }

    pub fn next_judge(&self) -> (r: JudgeId)
        requires
            self.rounds@.len() > 0 ==> (self.rounds@.last().judge as int) < self.rotation@.len(),
        ensures
            r as int == self.spec_next_judge(),
            self.rotation@.len() > 0 ==> (r as int) < self.rotation@.len(),
    {
        let n = self.rotation.len();
        let rounds_len = self.rounds.len();
        if rounds_len == 0 || n == 0 {
            return 0;
        }
        let j = self.rounds[rounds_len - 1].judge;
        let mut offset: usize = 1;
        while offset < n
            invariant
                n == self.rotation@.len(),
                self.rounds@.len() > 0,
                j == self.rounds@.last().judge,
                (j as int) < n,
                1 <= offset <= n,
                self.spec_scan_judge(1) == self.spec_scan_judge(offset as int),
            decreases n - offset,
        {
            let index = if offset >= n - j {
                offset - (n - j)
            } else {
                j + offset
            };
            if !self.rotation[index].quit {
                return index;
            }
            offset += 1;
        }
        0
    }

    pub fn cancel_timer(&mut self)
        ensures
            *final(self) == (GameState { timer: final(self).timer, ..*old(self) }),
            final(self).timer.0 is None,
    {
        self.timer.cancel();
    }

    /// The next round's prompt: a fresh random initialism framed by the next
    /// unused flavor line, falling back to a neutral frame when the flavor
    /// lines run out.
    pub fn next_prompt(&self) -> (r: Prompt)
        requires
            self.config.valid(),
        ensures
            self.config.letters_per_acronym.min <= r.acronym@.len()
                <= self.config.letters_per_acronym.max,
            forall|k: int| 0 <= k < r.acronym@.len() ==> 'A' <= #[trigger] r.acronym@[k] <= 'Z',
            self.rounds@.len() < self.prompts@.len() ==> r.before@ == self.prompts@[self.rounds@.len() as int].0@
                && r.after@ == self.prompts@[self.rounds@.len() as int].1@,
            self.rounds@.len() >= self.prompts@.len() ==> r.before@ == "What is "@ && r.after@
                == " ?"@,
    {
        let acronym = random_initialism(&self.config.letters_per_acronym);
        let n = self.rounds.len();
        let (before, after) = if n < self.prompts.len() {
            (self.prompts[n].0.clone(), self.prompts[n].1.clone())
        } else {
            ("What is ".to_owned(), " ?".to_owned())
        };
        Prompt { acronym, before, after }
    }
}

/// The first non-quit candidate the scan settles on is itself non-quit,
/// provided any candidate in the scanned range is non-quit.  In particular
/// the judge rotation skips players who quit.
pub proof fn lemma_next_judge_skips_quit(s: GameState)
    requires
        s.rounds@.len() > 0,
        s.rotation@.len() > 0,
        (s.rounds@.last().judge as int) < s.rotation@.len(),
        exists|o: int|
            1 <= o < s.rotation@.len() && !s.rotation@[#[trigger] s.spec_rotated_index(o)].quit,
    ensures
        !s.rotation@[s.spec_next_judge()].quit,
{
    let o0 = choose|o: int|
        1 <= o < s.rotation@.len() && !s.rotation@[#[trigger] s.spec_rotated_index(o)].quit;
    lemma_scan_judge_finds(s, 1, o0);
}

proof fn lemma_scan_judge_finds(s: GameState, offset: int, o0: int)
    requires
        s.rounds@.len() > 0,
        s.rotation@.len() > 0,
        (s.rounds@.last().judge as int) < s.rotation@.len(),
        1 <= offset <= o0 < s.rotation@.len(),
        !s.rotation@[s.spec_rotated_index(o0)].quit,
    ensures
        !s.rotation@[s.spec_scan_judge(offset)].quit,
        0 <= s.spec_scan_judge(offset) < s.rotation@.len(),
    decreases s.rotation@.len() - offset,
{
    if !s.rotation@[s.spec_rotated_index(offset)].quit {
    } else {
        lemma_scan_judge_finds(s, offset + 1, o0);
    }
}


/// Clones a word list; the words' characters are preserved.
fn clone_words(v: &Submission) -> (r: Submission)
    ensures
        spec_words(r@) == spec_words(v@),
{
    let n = v.len();
    let mut r: Submission = Vec::new();
    let mut i: usize = 0;
    while i < n
        invariant
            n == v@.len(),
            i <= n,
            r@.len() == i,
            forall|k: int| 0 <= k < i ==> (#[trigger] r@[k])@ == v@[k]@,
        decreases n - i,
    {
        r.push(v[i].clone());
        i += 1;
    }
    proof {
        assert(spec_words(r@) =~= spec_words(v@));
    }
    r
}

/// Clones a submission list; ids and words are preserved character for
/// character.
fn clone_submissions(subs: &Vec<(PlayerId, Submission)>) -> (r: Vec<(PlayerId, Submission)>)
    ensures
        spec_subs_view(r@) == spec_subs_view(subs@),
        r@.len() == subs@.len(),
{
    let n = subs.len();
    let mut r: Vec<(PlayerId, Submission)> = Vec::new();
    let mut i: usize = 0;
    while i < n
        invariant
            n == subs@.len(),
            i <= n,
            r@.len() == i,
            forall|k: int|
                0 <= k < i ==> (#[trigger] r@[k]).0@ == subs@[k].0@ && spec_words(r@[k].1@)
                    == spec_words(subs@[k].1@),
        decreases n - i,
    {
        let id = subs[i].0.clone();
        let words = clone_words(&subs[i].1);
        r.push((id, words));
        i += 1;
    }
    proof {
        assert(spec_subs_view(r@) =~= spec_subs_view(subs@));
    }
    r
}

/// The submission a list holds for a player id, which must be present.
fn find_submission<'a>(subs: &'a Vec<(PlayerId, Submission)>, id: &PlayerId) -> (r: &'a Submission)
    requires
        spec_subs_distinct(subs@),
        spec_sub_has(subs@, id@),
    ensures
        spec_words(r@) == spec_sub_words(subs@, id@),
        r@.len() == spec_sub_words(subs@, id@).len(),
{
    let n = subs.len();
    let mut i: usize = 0;
    while i < n
        invariant
            spec_subs_distinct(subs@),
            spec_sub_has(subs@, id@),
            n == subs@.len(),
            i <= n,
            forall|k: int| 0 <= k < i ==> subs@[k].0@ != id@,
        decreases n - i,
    {
        if subs[i].0 == *id {
            proof {
                let j = choose|j: int| 0 <= j < subs@.len() && subs@[j].0@ == id@;
                assert(j == i);
            }
            return &subs[i].1;
        }
        i += 1;
    }
    proof {
        assert(false);
    }
    &subs[0].1
}

/// What one round contributes to a player's score: a recorded winner is
/// awarded the acronym's length less the penalty of their submission, never
/// below zero; in a round that timed out with no winner the judge loses the
/// acronym's length instead.
pub open spec fn spec_round_score(r: Round, rotation: Seq<ServerPlayer>, id: Seq<char>) -> int {
    match r.winner {
        Some(w) => if w@ == id {
            let pts = r.prompt.acronym@.len() + spec_penalty(
                spec_sub_words(r.submissions@, w@),
                r.prompt.acronym@,
            );
            if pts < 0 {
                0
            } else {
                pts
            }
        } else {
            0
        },
        None => if 0 <= r.judge < rotation.len() && rotation[r.judge as int].id@ == id {
            -(r.prompt.acronym@.len() as int)
        } else {
            0
        },
    }
}

/// A player's score over the first `n` rounds.
pub open spec fn spec_score_upto(
    rounds: Seq<Round>,
    rotation: Seq<ServerPlayer>,
    id: Seq<char>,
    n: int,
) -> int
    decreases n,
{
    if n <= 0 {
        0
    } else {
        spec_score_upto(rounds, rotation, id, n - 1) + spec_round_score(
            rounds[n - 1],
            rotation,
            id,
        )
    }
}

/// One round's contribution is at most the longest acronym in magnitude.
proof fn lemma_round_score_bound(r: Round, rotation: Seq<ServerPlayer>, id: Seq<char>)
    requires
        r.prompt.acronym@.len() <= MAX_ACRONYM_LETTERS,
    ensures
        -(MAX_ACRONYM_LETTERS as int) <= spec_round_score(r, rotation, id) <= MAX_ACRONYM_LETTERS
            as int,
{
    match r.winner {
        Some(w) => {
            crate::scoring::lemma_penalty_range(spec_sub_words(r.submissions@, w@), r.prompt.acronym@);
        },
        None => {},
    }
}

proof fn lemma_score_upto_bound(
    rounds: Seq<Round>,
    rotation: Seq<ServerPlayer>,
    id: Seq<char>,
    n: int,
)
    requires
        0 <= n <= rounds.len(),
        forall|k: int|
            0 <= k < rounds.len() ==> (#[trigger] rounds[k].prompt.acronym@).len()
                <= MAX_ACRONYM_LETTERS,
    ensures
        -(MAX_ACRONYM_LETTERS as int) * n <= spec_score_upto(rounds, rotation, id, n) <= (
        MAX_ACRONYM_LETTERS as int) * n,
    decreases n,
{
    if n > 0 {
        lemma_score_upto_bound(rounds, rotation, id, n - 1);
        lemma_round_score_bound(rounds[n - 1], rotation, id);
    }
}

impl GameState {
    /// A player's total score: the signed sum of their round contributions.
    pub open spec fn spec_score(self, id: Seq<char>) -> int {
        spec_score_upto(self.rounds@, self.rotation@, id, self.rounds@.len() as int)
    }

    /// The scoreboard before sorting: every rotation entry's display name
    /// paired with that player's total score, in rotation order.
    pub open spec fn spec_score_entries(self) -> Seq<(Seq<char>, int)> {
        Seq::new(
            self.rotation@.len(),
            |i: int| (self.rotation@[i].name@, self.spec_score(self.rotation@[i].id@)),
        )
    }

    /// Final scores: one entry per rotation slot (quit players included),
    /// resolved to display names and sorted by score, highest first.
    pub fn scores(&self) -> (r: Vec<(PlayerName, i64)>)
        requires
            self.scores_wf(),
        ensures
            r@.len() == self.rotation@.len(),
            spec_sorted_desc(r@),
            spec_entries(r@).to_multiset() == self.spec_score_entries().to_multiset(),
    {
        let nr = self.rounds.len();
        let mut score_map: Vec<(PlayerId, i64)> = Vec::new();
        let mut k: usize = 0;
        while k < nr
            invariant
                self.scores_wf(),
                nr == self.rounds@.len(),
                k <= nr,
                spec_keys_distinct(score_map@),
                forall|id: Seq<char>|
                    spec_lookup(score_map@, id) == spec_score_upto(
                        self.rounds@,
                        self.rotation@,
                        id,
                        k as int,
                    ),
            decreases nr - k,
        {
            let ghost prev_map = score_map@;
            let round = &self.rounds[k];
            let points = round.prompt.acronym.as_str().unicode_len();
            match &round.winner {
                Some(w) => {
                    let sub = find_submission(&round.submissions, w);
                    let pen = submission_penalty(sub, round.prompt.acronym.as_str());
                    let raw: i64 = points as i64 + pen;
                    let pts: i64 = if raw < 0 {
                        0
                    } else {
                        raw
                    };
                    proof {
                        lemma_score_upto_bound(self.rounds@, self.rotation@, w@, k as int);
                    }
                    let key = w.clone();
                    insert_or_add(&mut score_map, key, pts);
                    proof {
                        assert(pts as int == spec_round_score(self.rounds@[k as int], self.rotation@, w@));
                        assert forall|id: Seq<char>|
                            spec_lookup(score_map@, id) == spec_score_upto(
                                self.rounds@,
                                self.rotation@,
                                id,
                                k + 1,
                            ) by {
                            if id == w@ {
                            } else {
                                assert(spec_lookup(score_map@, id) == spec_lookup(prev_map, id));
                                assert(spec_round_score(self.rounds@[k as int], self.rotation@, id)
                                    == 0);
                            }
                        }
                    }
                },
                None => {
                    let key = self.rotation[round.judge].id.clone();
                    proof {
                        lemma_score_upto_bound(self.rounds@, self.rotation@, key@, k as int);
                    }
                    insert_or_add(&mut score_map, key, -(points as i64));
                    proof {
                        let jid = self.rotation@[self.rounds@[k as int].judge as int].id@;
                        assert(-(points as int) == spec_round_score(
                            self.rounds@[k as int],
                            self.rotation@,
                            jid,
                        ));
                        assert forall|id: Seq<char>|
                            spec_lookup(score_map@, id) == spec_score_upto(
                                self.rounds@,
                                self.rotation@,
                                id,
                                k + 1,
                            ) by {
                            if id == jid {
                            } else {
                                assert(spec_lookup(score_map@, id) == spec_lookup(prev_map, id));
                                assert(spec_round_score(self.rounds@[k as int], self.rotation@, id)
                                    == 0);
                            }
                        }
                    }
                },
            }
            k += 1;
        }
        let n = self.rotation.len();
        let mut base: Vec<(PlayerName, i64)> = Vec::new();
        let mut i: usize = 0;
        while i < n
            invariant
                self.scores_wf(),
                spec_keys_distinct(score_map@),
                forall|id: Seq<char>| spec_lookup(score_map@, id) == self.spec_score(id),
                n == self.rotation@.len(),
                i <= n,
                base@.len() == i,
                forall|k2: int|
                    0 <= k2 < i ==> (#[trigger] base@[k2]).0@ == self.rotation@[k2].name@
                        && base@[k2].1 as int == self.spec_score(self.rotation@[k2].id@),
            decreases n - i,
        {
            let score = lookup_score(&score_map, &self.rotation[i].id);
            base.push((self.rotation[i].name.clone(), score));
            i += 1;
        }
        proof {
            assert(spec_entries(base@) =~= self.spec_score_entries());
        }
        sort_scores_desc(&mut base);
        base
    }
}


/// The id and name views of a client-visible player list.
pub open spec fn spec_players_view(ps: Seq<Player>) -> Seq<(Seq<char>, Seq<char>)> {
    ps.map_values(|p: Player| (p.id@, p.name@))
}

/// The id and name views of the non-quit entries of a roster, in order.
pub open spec fn spec_visible_players(rotation: Seq<ServerPlayer>) -> Seq<(Seq<char>, Seq<char>)>
    decreases rotation.len(),
{
    if rotation.len() == 0 {
        Seq::empty()
    } else {
        let rest = spec_visible_players(rotation.drop_last());
        if rotation.last().quit {
            rest
        } else {
            rest.push((rotation.last().id@, rotation.last().name@))
        }
    }
}

impl GameState {
    /// The roster a client may see: quit players filtered out, in rotation
    /// order.
    pub open spec fn spec_client_players(self) -> Seq<(Seq<char>, Seq<char>)> {
        spec_visible_players(self.rotation@)
    }

    /// Caches a randomly ordered snapshot of the current round's
    /// submissions, computed once per judging phase so it is not reshuffled
    /// by every snapshot request.  Without a current round this is a no-op.
    pub fn shuffle_current_round_submissions(&mut self)
        ensures
            *final(self) == (GameState {
                shuffled_submissions: final(self).shuffled_submissions,
                ..*old(self)
            }),
            old(self).rounds@.len() > 0 ==> spec_subs_view(
                final(self).shuffled_submissions@,
            ).to_multiset() == spec_subs_view(old(self).rounds@.last().submissions@).to_multiset(),
            old(self).rounds@.len() == 0 ==> final(self).shuffled_submissions@ == old(
                self,
            ).shuffled_submissions@,
    {
        let n = self.rounds.len();
        if n > 0 {
            let mut subs = clone_submissions(&self.rounds[n - 1].submissions);
            let ghost cloned = subs@;
            shuffle(&mut subs);
            proof {
                lemma_map_values_multiset(
                    subs@,
                    cloned,
                    |e: (PlayerId, Submission)| (e.0@, spec_words(e.1@)),
                );
            }
            self.shuffled_submissions = subs;
        }
    }

    /// The read-only projection sent to clients: quit players hidden, the
    /// countdown resolved to remaining seconds, the submission list exposed
    /// only while judging, and scores only at the results step.
    pub fn to_client_state(&self, now_ms: u64) -> (r: ClientGameState)
        requires
            self.wf(),
        ensures
            r.step == self.step,
            r.config == self.config,
            r.timer == self.timer.spec_remaining_secs(now_ms),
            spec_players_view(r.players@) == self.spec_client_players(),
            self.rounds@.len() == 0 ==> r.judge is None && r.round_winner is None
                && r.submission_count == 0 && r.prompt.acronym@ == Seq::<char>::empty()
                && r.prompt.before@ == Seq::<char>::empty() && r.prompt.after@ == Seq::<
                char,
            >::empty(),
            self.rounds@.len() > 0 ==> (r.judge matches Some(j) && j@ == self.rotation@[
                self.rounds@.last().judge as int
            ].id@),
            self.rounds@.len() > 0 ==> match self.rounds@.last().winner {
                Some(w) => r.round_winner matches Some(x) && x@ == w@,
                None => r.round_winner is None,
            },
            self.rounds@.len() > 0 ==> r.submission_count == self.rounds@.last().submissions@.len()
                && r.prompt.before@ == self.rounds@.last().prompt.before@ && r.prompt.acronym@
                == self.rounds@.last().prompt.acronym@ && r.prompt.after@
                == self.rounds@.last().prompt.after@,
            self.step == GameStep::Judging ==> spec_subs_view(r.submissions@).to_multiset()
                == spec_subs_view(self.rounds@.last().submissions@).to_multiset(),
            self.step != GameStep::Judging ==> r.submissions@.len() == 0,
            self.step == GameStep::Results ==> r.scores@.len() == self.rotation@.len()
                && spec_sorted_desc(r.scores@) && spec_entries(r.scores@).to_multiset()
                == self.spec_score_entries().to_multiset(),
            self.step != GameStep::Results ==> r.scores@.len() == 0,
            r.round_counter@ == "Round "@ + spec_decimal(self.rounds@.len() as u64) + "/"@
                + spec_decimal((2 * self.rotation@.len()) as u64),
    {
        let nr = self.rounds.len();
        let judge: Option<PlayerId> = match self.current_judge() {
            Some(j) => Some(self.rotation[j].id.clone()),
            None => None,
        };
        let submissions: Vec<(PlayerId, Submission)> = if matches!(self.step, GameStep::Judging) {
            clone_submissions(&self.shuffled_submissions)
        } else {
            Vec::new()
        };
        let scores: Vec<(PlayerName, i64)> = if matches!(self.step, GameStep::Results) {
            self.scores()
        } else {
            Vec::new()
        };
        let mut round_counter = "Round ".to_owned();
        round_counter.append(decimal_string(nr as u64).as_str());
        round_counter.append("/");
        round_counter.append(decimal_string((2 * self.rotation.len()) as u64).as_str());
        let round_winner: Option<PlayerId> = if nr > 0 {
            match &self.rounds[nr - 1].winner {
                Some(w) => Some(w.clone()),
                None => None,
            }
        } else {
            None
        };
        let prompt = if nr > 0 {
            self.rounds[nr - 1].prompt.clone()
        } else {
            Prompt::default()
        };
        let submission_count = if nr > 0 {
            self.rounds[nr - 1].submissions.len()
        } else {
            0
        };
        let n = self.rotation.len();
        let mut players: Vec<Player> = Vec::new();
        let mut i: usize = 0;
        proof {
            assert(self.rotation@.take(0).len() == 0);
        }
        while i < n
            invariant
                n == self.rotation@.len(),
                i <= n,
                spec_players_view(players@) == spec_visible_players(self.rotation@.take(i as int)),
            decreases n - i,
        {
            proof {
                assert(self.rotation@.take(i + 1).drop_last() =~= self.rotation@.take(i as int));
                assert(self.rotation@.take(i + 1).last() == self.rotation@[i as int]);
            }
            let ghost before = players@;
            let p = &self.rotation[i];
            if !p.quit {
                players.push(Player { id: p.id.clone(), name: p.name.clone() });
                proof {
                    assert(spec_players_view(players@) =~= spec_players_view(before).push(
                        (self.rotation@[i as int].id@, self.rotation@[i as int].name@),
                    ));
                }
            }
            proof {
                assert(spec_players_view(players@) =~= spec_visible_players(
                    self.rotation@.take(i + 1),
                ));
            }
            i += 1;
        }
        proof {
            assert(self.rotation@.take(n as int) =~= self.rotation@);
        }
        ClientGameState {
            judge,
            submissions,
            scores,
            round_counter,
            config: self.config,
            timer: self.timer.remaining_secs(now_ms),
            round_winner,
            step: self.step,
            submission_count,
            prompt,
            players,
        }
    }
}

/// A fresh demo state: the named players already joined, in the given
/// order, with debug messages enabled.
pub fn demo_init(players: Vec<&str>) -> (r: GameState)
    ensures
        r.step == GameStep::Setup,
        r.rounds@.len() == 0,
        r.shuffled_submissions@.len() == 0,
        r.timer.0 is None,
        r.timer_epoch == 0,
        r.config.valid(),
        r.prompts@.len() == 0,
        r.debug == true,
        r.rotation@.len() == players@.len(),
        forall|i: int|
            0 <= i < players@.len() ==> (#[trigger] r.rotation@[i]).id@ == players@[i]@
                && r.rotation@[i].name@ == players@[i]@ && !r.rotation@[i].quit,
{
    let n = players.len();
    let mut rotation: Vec<ServerPlayer> = Vec::new();
    let mut i: usize = 0;
    while i < n
        invariant
            n == players@.len(),
            i <= n,
            rotation@.len() == i,
            forall|k: int|
                0 <= k < i ==> (#[trigger] rotation@[k]).id@ == players@[k]@ && rotation@[k].name@
                    == players@[k]@ && !rotation@[k].quit,
        decreases n - i,
    {
        rotation.push(
            ServerPlayer { quit: false, id: players[i].to_owned(), name: players[i].to_owned() },
        );
        i += 1;
    }
    GameState {
        step: GameStep::Setup,
        rotation,
        rounds: Vec::new(),
        shuffled_submissions: Vec::new(),
        timer: Timer::default(),
        timer_epoch: 0,
        config: Config::default(),
        prompts: Vec::new(),
        debug: true,
    }
}


/// However clients behave — the judge submitting, the same player
/// submitting twice — a round never holds more submissions than there are
/// players besides the judge: each accepted entry is a distinct registered
/// non-judge player.
pub proof fn lemma_submission_count_bounded(s: GameState, k: int)
    requires
        s.wf(),
        0 <= k < s.rounds@.len(),
    ensures
        s.rounds@[k].submissions@.len() < s.rotation@.len(),
{
    broadcast use vstd::set::group_set_axioms;
    broadcast use vstd::seq_lib::seq_to_set_is_finite;

    let subs = s.rounds@[k].submissions@;
    let rot = s.rotation@;
    let judge = s.rounds@[k].judge as int;
    let judge_id = rot[judge].id@;
    let key_seq = Seq::new(subs.len(), |i: int| subs[i].0@);
    let id_seq = Seq::new(rot.len(), |i: int| rot[i].id@);
    assert(key_seq.no_duplicates());
    key_seq.unique_seq_to_set();
    assert(id_seq.no_duplicates());
    id_seq.unique_seq_to_set();
    let target = id_seq.to_set().remove(judge_id);
    assert forall|x: Seq<char>| key_seq.to_set().contains(x) implies target.contains(x) by {
        let i = choose|i: int| 0 <= i < key_seq.len() && key_seq[i] == x;
        assert(subs[i].0@ == x);
        assert(spec_roster_has(rot, x));
        let w = choose|w: int| 0 <= w < rot.len() && rot[w].id@ == x;
        assert(id_seq[w] == x);
        assert(id_seq.to_set().contains(x));
        assert(x != judge_id);
    }
    assert(id_seq[judge] == judge_id);
    assert(id_seq.to_set().contains(judge_id));
    assert(target.len() == id_seq.to_set().len() - 1);
    vstd::set_lib::lemma_len_subset(key_seq.to_set(), target);
    assert(subs.len() == key_seq.to_set().len());
    assert(rot.len() == id_seq.to_set().len());
}


/// What a broadcast snapshot must say about the state it was taken from:
/// the phase, configuration, remaining time, visible roster and public
/// submission count all match.
pub open spec fn spec_snapshot_matches(g: ClientGameState, s: GameState, now_ms: u64) -> bool {
    &&& g.step == s.step
    &&& g.config == s.config
    &&& g.timer == s.timer.spec_remaining_secs(now_ms)
    &&& spec_players_view(g.players@) == s.spec_client_players()
    &&& g.submission_count as int == if s.rounds@.len() > 0 {
        s.rounds@.last().submissions@.len() as int
    } else {
        0int
    }
}

} // verus!




