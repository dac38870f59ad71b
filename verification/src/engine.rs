//! The game-state actor's logic: one function that applies a client message
//! to the authoritative state and says which broadcasts to send and what to
//! do about the countdown.  The surrounding runtime owns the queues, sockets
//! and sleeps; it feeds messages (and timer wake-ups) in one at a time and
//! carries the returned effects out, which keeps the whole engine free of
//! I/O and fully verified.

use vstd::pervasive::VecAdditionalExecFns;
use vstd::prelude::*;

use crate::sessions::Sessions;
use crate::state::{GameState, Round, ServerPlayer, spec_roster_has, spec_roster_index,
    spec_snapshot_matches, spec_sub_has, spec_subs_distinct, spec_subs_view, MAX_PLAYERS,
    MAX_SUBMISSION_WORDS};
use crate::timer::{Timer, TimerFields};
use crate::types::{
    ClientMessage, Config, GameStep, PlayerId, ServerMessage, SessionId, Submission, TimerTag,
};

verus! {

/// What the runtime must do about the single pending countdown after a
/// message was handled.
pub enum TimerEffect {
    /// Leave any pending wake-up as it is.
    Keep,
    /// Cancel any pending wake-up.
    Cancel,
    /// Cancel any pending wake-up, sleep the tag's duration, then feed the
    /// engine a timeout carrying this epoch.
    Schedule(TimerTag, u64),
}

/// The outward-visible result of handling one message: broadcasts for every
/// connected client, in order, and a countdown instruction.
pub struct Effects {
    pub broadcasts: Vec<ServerMessage>,
    pub timer: TimerEffect,
}

impl Effects {
    /// Effects of a rejected or ignored message: nothing is sent and the
    /// countdown is untouched.
    pub fn none() -> (e: Effects)
        ensures
            e.broadcasts@.len() == 0,
            e.timer is Keep,
    {
        Effects { broadcasts: Vec::new(), timer: TimerEffect::Keep }
    }

    fn one(message: ServerMessage, timer: TimerEffect) -> (e: Effects)
        ensures
            e.broadcasts@.len() == 1,
            e.broadcasts@[0] == message,
            e.timer == timer,
    {
        let mut broadcasts = Vec::new();
        broadcasts.push(message);
        Effects { broadcasts, timer }
    }
}

/// The phase transitions the state machine may take: stay put, or move along
/// Setup → Submission → Judging → (Submission | Results).
pub open spec fn spec_valid_step_edge(a: GameStep, b: GameStep) -> bool {
    ||| a == b
    ||| (a == GameStep::Setup && b == GameStep::Submission)
    ||| (a == GameStep::Submission && b == GameStep::Judging)
    ||| (a == GameStep::Judging && b == GameStep::Submission)
    ||| (a == GameStep::Judging && b == GameStep::Results)
}

/// Arms the countdown: records the start instant and tag under a fresh
/// epoch, displacing any previous countdown.
fn set_timer(state: &mut GameState, tag: TimerTag, now_ms: u64) -> (epoch: u64)
    ensures
        *final(state) == (GameState {
            timer: final(state).timer,
            timer_epoch: final(state).timer_epoch,
            ..*old(state)
        }),
        final(state).timer_epoch == epoch,
        final(state).timer.0 == Some(TimerFields { started_at_ms: now_ms, epoch, tag }),
{
    let epoch: u64 = if state.timer_epoch == u64::MAX {
        0
    } else {
        state.timer_epoch + 1
    };
    state.timer_epoch = epoch;
    state.timer = Timer::new(now_ms, epoch, tag);
    epoch
}

/// Starts a new round: appends a round record for the next eligible judge
/// with a fresh prompt, enters the submission phase, arms the submission
/// countdown, and broadcasts a full snapshot.
pub fn start_submission_step(state: &mut GameState, now_ms: u64) -> (e: Effects)
    requires
        old(state).wf(),
        old(state).rotation@.len() > 0,
        old(state).rounds@.len() < 2 * old(state).rotation@.len(),
    ensures
        final(state).wf(),
        final(state).step == GameStep::Submission,
        final(state).rotation@ == old(state).rotation@,
        final(state).config == old(state).config,
        final(state).prompts@ == old(state).prompts@,
        final(state).debug == old(state).debug,
        final(state).rounds@.len() == old(state).rounds@.len() + 1,
        final(state).rounds@.take(old(state).rounds@.len() as int) == old(state).rounds@,
        final(state).rounds@.last().winner is None,
        final(state).rounds@.last().submissions@.len() == 0,
        final(state).rounds@.last().judge as int == old(state).spec_next_judge(),
        final(state).timer.0 == Some(TimerFields {
            started_at_ms: now_ms,
            epoch: final(state).timer_epoch,
            tag: TimerTag::Submission,
        }),
        e.broadcasts@.len() == 1,
        (e.broadcasts@[0] matches ServerMessage::GameState(g) && spec_snapshot_matches(
            g,
            *final(state),
            now_ms,
        )),
        e.timer == TimerEffect::Schedule(TimerTag::Submission, final(state).timer_epoch),
{
    let judge = state.next_judge();
    let prompt = state.next_prompt();
    state.cancel_timer();
    state.shuffled_submissions = Vec::new();
    state.rounds.push(Round { judge, winner: None, submissions: Vec::new(), prompt });
    state.step = GameStep::Submission;
    let epoch = set_timer(state, TimerTag::Submission, now_ms);
    proof {
        assert(forall|k: int|
            0 <= k < old(state).rounds@.len() ==> final(state).rounds@[k] == old(state).rounds@[k]);
        assert(final(state).rounds@.take(old(state).rounds@.len() as int) =~= old(state).rounds@);
    }
    let snapshot = state.to_client_state(now_ms);
    Effects::one(
        ServerMessage::GameState(snapshot),
        TimerEffect::Schedule(TimerTag::Submission, epoch),
    )
}

/// What entering the judging phase does: the rounds and roster stay as
/// they are, a fresh shuffle of the current round's submissions is cached,
/// the judging countdown is armed, and one full snapshot goes out.
pub open spec fn spec_judging_entered(s0: GameState, s1: GameState, e: Effects, now_ms: u64) -> bool {
    &&& s1.step == GameStep::Judging
    &&& s1.rotation@ == s0.rotation@
    &&& s1.rounds@ == s0.rounds@
    &&& s1.config == s0.config
    &&& s1.prompts@ == s0.prompts@
    &&& s1.debug == s0.debug
    &&& spec_subs_view(s1.shuffled_submissions@).to_multiset() == spec_subs_view(
        s0.rounds@.last().submissions@,
    ).to_multiset()
    &&& s1.timer.0 == Some(TimerFields {
        started_at_ms: now_ms,
        epoch: s1.timer_epoch,
        tag: TimerTag::Judging,
    })
    &&& e.broadcasts@.len() == 1
    &&& (e.broadcasts@[0] matches ServerMessage::GameState(g) && spec_snapshot_matches(
        g,
        s1,
        now_ms,
    ))
    &&& e.timer == TimerEffect::Schedule(TimerTag::Judging, s1.timer_epoch)
}

/// What closing a round does: at the configured number of rounds — every
/// player judges twice — the game shows its results and the countdown is
/// cancelled; otherwise a new round's submission phase starts under the
/// next eligible judge, with a fresh round record and the submission
/// countdown armed.  Either way one full snapshot goes out.
pub open spec fn spec_round_closed(s0: GameState, s1: GameState, e: Effects, now_ms: u64) -> bool {
    &&& s1.rotation@ == s0.rotation@
    &&& s1.config == s0.config
    &&& s1.prompts@ == s0.prompts@
    &&& s1.debug == s0.debug
    &&& e.broadcasts@.len() == 1
    &&& (e.broadcasts@[0] matches ServerMessage::GameState(g) && spec_snapshot_matches(
        g,
        s1,
        now_ms,
    ))
    &&& if s0.rounds@.len() == 2 * s0.rotation@.len() {
        &&& s1.step == GameStep::Results
        &&& s1.rounds@ == s0.rounds@
        &&& s1.timer.0 is None
        &&& e.timer is Cancel
    } else {
        &&& s1.step == GameStep::Submission
        &&& s1.rounds@.len() == s0.rounds@.len() + 1
        &&& s1.rounds@.take(s0.rounds@.len() as int) == s0.rounds@
        &&& s1.rounds@.last().winner is None
        &&& s1.rounds@.last().submissions@.len() == 0
        &&& s1.rounds@.last().judge as int == s0.spec_next_judge()
        &&& s1.timer.0 == Some(TimerFields {
            started_at_ms: now_ms,
            epoch: s1.timer_epoch,
            tag: TimerTag::Submission,
        })
        &&& e.timer == TimerEffect::Schedule(TimerTag::Submission, s1.timer_epoch)
    }
}

/// Enters the judging phase: caches a fresh shuffle of the current round's
/// submissions, arms the judging countdown, and broadcasts a full snapshot.
pub fn start_judging_step(state: &mut GameState, now_ms: u64) -> (e: Effects)
    requires
        old(state).wf(),
        old(state).rounds@.len() > 0,
    ensures
        final(state).wf(),
        spec_judging_entered(*old(state), *final(state), e, now_ms),
{
    state.cancel_timer();
    state.step = GameStep::Judging;
    state.shuffle_current_round_submissions();
    let epoch = set_timer(state, TimerTag::Judging, now_ms);
    let snapshot = state.to_client_state(now_ms);
    Effects::one(
        ServerMessage::GameState(snapshot),
        TimerEffect::Schedule(TimerTag::Judging, epoch),
    )
}

/// Closes the judging phase: when the configured number of rounds is
/// reached — every player judges twice — the game moves to the results
/// step; otherwise the next round's submission phase starts.
pub fn end_judging_step(state: &mut GameState, now_ms: u64) -> (e: Effects)
    requires
        old(state).wf(),
        old(state).rounds@.len() > 0,
        old(state).rotation@.len() > 0,
    ensures
        final(state).wf(),
        spec_round_closed(*old(state), *final(state), e, now_ms),
{
    let game_length = 2 * state.rotation.len();
    if state.rounds.len() == game_length {
        state.cancel_timer();
        state.shuffled_submissions = Vec::new();
        state.step = GameStep::Results;
        let snapshot = state.to_client_state(now_ms);
        Effects::one(ServerMessage::GameState(snapshot), TimerEffect::Cancel)
    } else {
        start_submission_step(state, now_ms)
    }
}

/// Applies a countdown wake-up.  A wake-up whose epoch no longer matches
/// the armed countdown lost a race against a cancellation or a newer
/// countdown and does nothing; a current one advances the phase its tag
/// belongs to: the submission countdown forces judging to start, and the
/// judging or winner-reveal countdown closes the round.
pub fn handle_timeout(state: &mut GameState, epoch: u64, now_ms: u64) -> (e: Effects)
    requires
        old(state).wf(),
    ensures
        final(state).wf(),
        spec_valid_step_edge(old(state).step, final(state).step),
        final(state).rotation@ == old(state).rotation@,
        final(state).debug == old(state).debug,
        !(old(state).timer.0 matches Some(f) && f.epoch == epoch) ==> *final(state) == *old(state)
            && e.broadcasts@.len() == 0 && e.timer is Keep,
        (old(state).timer.0 matches Some(f) && f.epoch == epoch) ==> match old(state).timer.0->Some_0.tag {
            TimerTag::Submission => spec_judging_entered(*old(state), *final(state), e, now_ms),
            TimerTag::Judging => spec_round_closed(*old(state), *final(state), e, now_ms),
            TimerTag::ShowRoundWinner => spec_round_closed(*old(state), *final(state), e, now_ms),
        },
{
    let fire: bool = match &state.timer.0 {
        Some(f) => f.epoch == epoch,
        None => false,
    };
    if !fire {
        return Effects::none();
    }
    let tag = match &state.timer.0 {
        Some(f) => f.tag,
        None => TimerTag::Submission,
    };
    proof {
        assert((state.rounds@.last().judge as int) < state.rotation@.len());
    }
    match tag {
        TimerTag::Submission => start_judging_step(state, now_ms),
        TimerTag::Judging => end_judging_step(state, now_ms),
        TimerTag::ShowRoundWinner => end_judging_step(state, now_ms),
    }
}


/// How many submissions complete a round: one from every non-quit player
/// other than the judge (counting the first `n` roster entries).
pub open spec fn spec_eligible_count(rotation: Seq<ServerPlayer>, judge: int, n: int) -> int
    decreases n,
{
    if n <= 0 {
        0
    } else {
        spec_eligible_count(rotation, judge, n - 1) + if !rotation[n - 1].quit && n - 1 != judge {
            1int
        } else {
            0int
        }
    }
}

fn eligible_count(rotation: &Vec<ServerPlayer>, judge: usize) -> (r: usize)
    ensures
        r == spec_eligible_count(rotation@, judge as int, rotation@.len() as int),
        r <= rotation@.len(),
{
    let n = rotation.len();
    let mut count: usize = 0;
    let mut i: usize = 0;
    while i < n
        invariant
            n == rotation@.len(),
            i <= n,
            count == spec_eligible_count(rotation@, judge as int, i as int),
            count <= i,
        decreases n - i,
    {
        if !rotation[i].quit && i != judge {
            count += 1;
        }
        i += 1;
    }
    count
}

/// The message had no effect: state untouched, nothing sent.
pub open spec fn spec_unchanged(e: Effects, s0: GameState, s1: GameState) -> bool {
    s1 == s0 && e.broadcasts@.len() == 0 && e.timer is Keep
}

/// The one incremental broadcast of the protocol: the joined (or renamed)
/// player's record, and nothing else.
pub open spec fn spec_joined_broadcast(e: Effects, pid: Seq<char>, name: Seq<char>) -> bool {
    &&& e.broadcasts@.len() == 1
    &&& (e.broadcasts@[0] matches ServerMessage::PlayerJoined(p) && p.id@ == pid && p.name@
        == name)
    &&& e.timer is Keep
}

/// What joining does: only during setup; a new player is appended to the
/// rotation (while room remains), an already-registered player has their
/// name updated in place; either way a PlayerJoined delta is broadcast.
pub open spec fn spec_join_post(
    s0: GameState,
    s1: GameState,
    e: Effects,
    pid: Seq<char>,
    name: Seq<char>,
) -> bool {
    if s0.step != GameStep::Setup {
        spec_unchanged(e, s0, s1)
    } else if spec_roster_has(s0.rotation@, pid) {
        let i = spec_roster_index(s0.rotation@, pid);
        &&& s1 == (GameState { rotation: s1.rotation, ..s0 })
        &&& s1.rotation@.len() == s0.rotation@.len()
        &&& s1.rotation@[i].id@ == pid
        &&& s1.rotation@[i].name@ == name
        &&& !s1.rotation@[i].quit
        &&& (forall|k: int|
            0 <= k < s0.rotation@.len() && k != i ==> s1.rotation@[k] == s0.rotation@[k])
        &&& spec_joined_broadcast(e, pid, name)
    } else if s0.rotation@.len() < MAX_PLAYERS {
        &&& s1 == (GameState { rotation: s1.rotation, ..s0 })
        &&& s1.rotation@.len() == s0.rotation@.len() + 1
        &&& s1.rotation@.take(s0.rotation@.len() as int) == s0.rotation@
        &&& s1.rotation@.last().id@ == pid
        &&& s1.rotation@.last().name@ == name
        &&& !s1.rotation@.last().quit
        &&& spec_joined_broadcast(e, pid, name)
    } else {
        spec_unchanged(e, s0, s1)
    }
}

/// Registers a name for the current game, or updates it for a player who
/// already joined.  A rejoining player has their quit flag cleared.
pub fn join_game(state: &mut GameState, player_id: PlayerId, name: String) -> (e: Effects)
    requires
        old(state).wf(),
    ensures
        final(state).wf(),
        final(state).step == old(state).step,
        spec_join_post(*old(state), *final(state), e, player_id@, name@),
{
    if !matches!(state.step, GameStep::Setup) {
        return Effects::none();
    }
    let n = state.rotation.len();
    let mut i: usize = 0;
    while i < n
        invariant
            *state == *old(state),
            state.wf(),
            state.step == GameStep::Setup,
            n == state.rotation@.len(),
            i <= n,
            forall|k: int| 0 <= k < i ==> state.rotation@[k].id@ != player_id@,
        decreases n - i,
    {
        if state.rotation[i].id == player_id {
            proof {
                let j = spec_roster_index(state.rotation@, player_id@);
                assert(spec_roster_has(state.rotation@, player_id@));
                assert(state.rotation@[j].id@ == player_id@);
                assert(j == i);
            }
            let entry = ServerPlayer { quit: false, id: player_id.clone(), name: name.clone() };
            state.rotation.set(i, entry);
            proof {
                assert(forall|k: int|
                    0 <= k < state.rotation@.len() ==> (#[trigger] state.rotation@[k].id@) == old(
                        state,
                    ).rotation@[k].id@);
            }
            return Effects::one(
                ServerMessage::PlayerJoined(crate::types::Player { id: player_id, name }),
                TimerEffect::Keep,
            );
        }
        i += 1;
    }
    if n < MAX_PLAYERS {
        state.rotation.push(
            ServerPlayer { quit: false, id: player_id.clone(), name: name.clone() },
        );
        proof {
            assert(state.rotation@.take(old(state).rotation@.len() as int) =~= old(
                state,
            ).rotation@);
        }
        return Effects::one(
            ServerMessage::PlayerJoined(crate::types::Player { id: player_id, name }),
            TimerEffect::Keep,
        );
    }
    Effects::none()
}

/// What kicking does: the named player's entry is flagged as quit — never
/// removed, so judge-index arithmetic stays stable — and a full snapshot is
/// broadcast; an unknown id is ignored.
pub open spec fn spec_kick_post(
    s0: GameState,
    s1: GameState,
    e: Effects,
    pid: Seq<char>,
    now_ms: u64,
) -> bool {
    if spec_roster_has(s0.rotation@, pid) {
        let i = spec_roster_index(s0.rotation@, pid);
        &&& s1 == (GameState { rotation: s1.rotation, ..s0 })
        &&& s1.rotation@.len() == s0.rotation@.len()
        &&& s1.rotation@[i].quit == true
        &&& s1.rotation@[i].id@ == s0.rotation@[i].id@
        &&& s1.rotation@[i].name@ == s0.rotation@[i].name@
        &&& (forall|k: int|
            0 <= k < s0.rotation@.len() && k != i ==> s1.rotation@[k] == s0.rotation@[k])
        &&& e.broadcasts@.len() == 1
        &&& (e.broadcasts@[0] matches ServerMessage::GameState(g) && spec_snapshot_matches(
            g,
            s1,
            now_ms,
        ))
        &&& e.timer is Keep
    } else {
        spec_unchanged(e, s0, s1)
    }
}

/// Flags a player as quit; they are skipped for judge assignment and hidden
/// from the client-visible roster from here on.
pub fn kick_player(state: &mut GameState, player_id: PlayerId, now_ms: u64) -> (e: Effects)
    requires
        old(state).wf(),
    ensures
        final(state).wf(),
        final(state).step == old(state).step,
        spec_kick_post(*old(state), *final(state), e, player_id@, now_ms),
{
    let n = state.rotation.len();
    let mut i: usize = 0;
    while i < n
        invariant
            *state == *old(state),
            state.wf(),
            n == state.rotation@.len(),
            i <= n,
            forall|k: int| 0 <= k < i ==> state.rotation@[k].id@ != player_id@,
        decreases n - i,
    {
        if state.rotation[i].id == player_id {
            proof {
                let j = spec_roster_index(state.rotation@, player_id@);
                assert(spec_roster_has(state.rotation@, player_id@));
                assert(state.rotation@[j].id@ == player_id@);
                assert(j == i);
            }
            let id = state.rotation[i].id.clone();
            let name = state.rotation[i].name.clone();
            state.rotation.set(i, ServerPlayer { quit: true, id, name });
            proof {
                assert(forall|k: int|
                    0 <= k < state.rotation@.len() ==> (#[trigger] state.rotation@[k].id@) == old(
                        state,
                    ).rotation@[k].id@);
                assert forall|k: int|
                    0 <= k < state.rounds@.len() implies (#[trigger] state.rounds@[k]).wf(
                    state.rotation@,
                ) by {
                    let r = state.rounds@[k];
                    assert(r.wf(old(state).rotation@));
                    assert forall|t: int|
                        0 <= t < r.submissions@.len() implies spec_roster_has(
                        state.rotation@,
                        #[trigger] r.submissions@[t].0@,
                    ) by {
                        assert(spec_roster_has(old(state).rotation@, r.submissions@[t].0@));
                        let w = choose|w: int|
                            0 <= w < old(state).rotation@.len() && old(state).rotation@[w].id@
                                == r.submissions@[t].0@;
                        assert(state.rotation@[w].id@ == r.submissions@[t].0@);
                    }
                }
                assert(state.wf());
            }
            let snapshot = state.to_client_state(now_ms);
            return Effects::one(ServerMessage::GameState(snapshot), TimerEffect::Keep);
        }
        i += 1;
    }
    Effects::none()
}

/// What starting does: only from setup, only with an acceptable
/// configuration and a non-empty roster; the configuration is stored and
/// the first round's submission phase begins with player 0 as judge.
pub open spec fn spec_start_post(
    s0: GameState,
    s1: GameState,
    e: Effects,
    config: Config,
    now_ms: u64,
) -> bool {
    if s0.step == GameStep::Setup && config.valid() && s0.rotation@.len() > 0 {
        &&& s1.step == GameStep::Submission
        &&& s1.config == config
        &&& s1.rotation@ == s0.rotation@
        &&& s1.debug == s0.debug
        &&& s1.rounds@.len() == 1
        &&& s1.rounds@[0].judge == 0
        &&& s1.rounds@[0].winner is None
        &&& s1.rounds@[0].submissions@.len() == 0
        &&& s1.timer.0 == Some(TimerFields {
            started_at_ms: now_ms,
            epoch: s1.timer_epoch,
            tag: TimerTag::Submission,
        })
        &&& e.broadcasts@.len() == 1
        &&& (e.broadcasts@[0] matches ServerMessage::GameState(g) && spec_snapshot_matches(
            g,
            s1,
            now_ms,
        ))
        &&& e.timer == TimerEffect::Schedule(TimerTag::Submission, s1.timer_epoch)
    } else {
        spec_unchanged(e, s0, s1)
    }
}

/// Starts the game with the given configuration.  Rejected outside setup,
/// with an empty roster, or with a configuration outside the supported
/// acronym length range.
pub fn start_game(state: &mut GameState, config: Config, now_ms: u64) -> (e: Effects)
    requires
        old(state).wf(),
    ensures
        final(state).wf(),
        spec_valid_step_edge(old(state).step, final(state).step),
        spec_start_post(*old(state), *final(state), e, config, now_ms),
{
    if !matches!(state.step, GameStep::Setup) {
        return Effects::none();
    }
    if !(1 <= config.letters_per_acronym.min && config.letters_per_acronym.min
        <= config.letters_per_acronym.max && config.letters_per_acronym.max
        <= crate::types::MAX_ACRONYM_LETTERS) {
        return Effects::none();
    }
    if state.rotation.len() == 0 {
        return Effects::none();
    }
    state.config = config;
    start_submission_step(state, now_ms)
}


/// A submission is considered at all only during the submission phase, from
/// a registered non-quit player who is not the round's judge, and within
/// the word-count cap.
pub open spec fn spec_submit_accepted(s0: GameState, pid: Seq<char>, sub: Submission) -> bool {
    &&& s0.step == GameStep::Submission
    &&& spec_roster_has(s0.rotation@, pid)
    &&& !s0.rotation@[spec_roster_index(s0.rotation@, pid)].quit
    &&& pid != s0.rotation@[s0.rounds@.last().judge as int].id@
    &&& sub@.len() <= MAX_SUBMISSION_WORDS
}

/// What submitting does.  A repeated submission from the same player
/// overwrites their earlier one without counting again; the last required
/// submission moves the round straight to judging; any other accepted
/// submission only raises the public count.
pub open spec fn spec_submit_post(
    s0: GameState,
    s1: GameState,
    e: Effects,
    pid: Seq<char>,
    sub: Submission,
    now_ms: u64,
) -> bool {
    if !spec_submit_accepted(s0, pid, sub) {
        spec_unchanged(e, s0, s1)
    } else {
        let subs0 = s0.rounds@.last().submissions@;
        let required = spec_eligible_count(
            s0.rotation@,
            s0.rounds@.last().judge as int,
            s0.rotation@.len() as int,
        );
        if spec_sub_has(subs0, pid) {
            let i = choose|i: int| 0 <= i < subs0.len() && subs0[i].0@ == pid;
            &&& s1.step == GameStep::Submission
            &&& s1 == (GameState { rounds: s1.rounds, ..s0 })
            &&& s1.rounds@.len() == s0.rounds@.len()
            &&& s1.rounds@.take(s0.rounds@.len() - 1) == s0.rounds@.take(s0.rounds@.len() - 1)
            &&& s1.rounds@.last().judge == s0.rounds@.last().judge
            &&& s1.rounds@.last().prompt == s0.rounds@.last().prompt
            &&& s1.rounds@.last().winner == s0.rounds@.last().winner
            &&& s1.rounds@.last().submissions@.len() == subs0.len()
            &&& s1.rounds@.last().submissions@[i].0@ == pid
            &&& crate::scoring::spec_words(s1.rounds@.last().submissions@[i].1@)
                == crate::scoring::spec_words(sub@)
            &&& (forall|k: int|
                0 <= k < subs0.len() && k != i ==> s1.rounds@.last().submissions@[k] == subs0[k])
            &&& e.broadcasts@.len() == 0
            &&& e.timer is Keep
        } else if subs0.len() + 1 >= required {
            &&& s1.step == GameStep::Judging
            &&& s1.rounds@.len() == s0.rounds@.len()
            &&& s1.rounds@.last().submissions@.len() == subs0.len() + 1
            &&& s1.rounds@.last().submissions@.take(subs0.len() as int) == subs0
            &&& s1.rounds@.last().submissions@.last().0@ == pid
            &&& crate::scoring::spec_words(s1.rounds@.last().submissions@.last().1@)
                == crate::scoring::spec_words(sub@)
            &&& e.broadcasts@.len() == 1
            &&& (e.broadcasts@[0] matches ServerMessage::GameState(g) && spec_snapshot_matches(
                g,
                s1,
                now_ms,
            ))
            &&& (e.timer matches TimerEffect::Schedule(TimerTag::Judging, _))
        } else {
            &&& s1.step == GameStep::Submission
            &&& s1 == (GameState { rounds: s1.rounds, ..s0 })
            &&& s1.rounds@.len() == s0.rounds@.len()
            &&& s1.rounds@.take(s0.rounds@.len() - 1) == s0.rounds@.take(s0.rounds@.len() - 1)
            &&& s1.rounds@.last().judge == s0.rounds@.last().judge
            &&& s1.rounds@.last().prompt == s0.rounds@.last().prompt
            &&& s1.rounds@.last().winner == s0.rounds@.last().winner
            &&& s1.rounds@.last().submissions@.len() == subs0.len() + 1
            &&& s1.rounds@.last().submissions@.take(subs0.len() as int) == subs0
            &&& s1.rounds@.last().submissions@.last().0@ == pid
            &&& crate::scoring::spec_words(s1.rounds@.last().submissions@.last().1@)
                == crate::scoring::spec_words(sub@)
            &&& e.broadcasts@.len() == 1
            &&& e.broadcasts@[0] is IncrementSubmissionCount
            &&& e.timer is Keep
        }
    }
}

/// Accepts a player's word list for the current round.  When the last
/// required submission arrives the judging phase starts without waiting for
/// the countdown.
pub fn submit_acronym(
    state: &mut GameState,
    player_id: PlayerId,
    submission: Submission,
    now_ms: u64,
) -> (e: Effects)
    requires
        old(state).wf(),
    ensures
        final(state).wf(),
        final(state).rotation@ == old(state).rotation@,
        spec_valid_step_edge(old(state).step, final(state).step),
        spec_submit_post(*old(state), *final(state), e, player_id@, submission, now_ms),
{
    if !matches!(state.step, GameStep::Submission) {
        return Effects::none();
    }
    if submission.len() > MAX_SUBMISSION_WORDS {
        return Effects::none();
    }
    let n = state.rotation.len();
    let mut idx: usize = 0;
    let mut found = false;
    let mut i: usize = 0;
    while i < n && !found
        invariant
            *state == *old(state),
            state.wf(),
            n == state.rotation@.len(),
            i <= n,
            !found ==> forall|k: int| 0 <= k < i ==> state.rotation@[k].id@ != player_id@,
            found ==> idx < n && state.rotation@[idx as int].id@ == player_id@,
        decreases n - i + if found {
            0int
        } else {
            1int
        },
    {
        if state.rotation[i].id == player_id {
            idx = i;
            found = true;
        } else {
            i += 1;
        }
    }
    if !found {
        return Effects::none();
    }
    proof {
        let j = spec_roster_index(state.rotation@, player_id@);
        assert(spec_roster_has(state.rotation@, player_id@));
        assert(state.rotation@[j].id@ == player_id@);
        assert(j == idx);
    }
    if state.rotation[idx].quit {
        return Effects::none();
    }
    let nr = state.rounds.len();
    let judge = state.rounds[nr - 1].judge;
    if state.rotation[judge].id == player_id {
        return Effects::none();
    }
    let required = eligible_count(&state.rotation, judge);
    let mut round = match state.rounds.pop() {
        Some(r) => r,
        None => {
            proof {
                assert(false);
            }
            Round::default()
        },
    };
    let ghost subs0 = round.submissions@;
    let m = round.submissions.len();
    let mut j: usize = 0;
    while j < m
        invariant
            old(state).wf(),
            old(state).step == GameStep::Submission,
            old(state).rounds@.len() > 0,
            *state == (GameState { rounds: state.rounds, ..*old(state) }),
            state.rounds@ == old(state).rounds@.drop_last(),
            round.judge == old(state).rounds@.last().judge,
            round.prompt == old(state).rounds@.last().prompt,
            round.winner == old(state).rounds@.last().winner,
            subs0 == old(state).rounds@.last().submissions@,
            spec_subs_distinct(subs0),
            round.submissions@ == subs0,
            m == subs0.len(),
            j <= m,
            forall|k: int| 0 <= k < j ==> subs0[k].0@ != player_id@,
            spec_submit_accepted(*old(state), player_id@, submission),
            required == spec_eligible_count(
                old(state).rotation@,
                old(state).rounds@.last().judge as int,
                old(state).rotation@.len() as int,
            ),
        decreases m - j,
    {
        if round.submissions[j].0 == player_id {
            proof {
                let t = choose|t: int| 0 <= t < subs0.len() && subs0[t].0@ == player_id@;
                assert(t == j);
            }
            round.submissions.set(j, (player_id, submission));
            state.rounds.push(round);
            proof {
                assert(state.rounds@.take(state.rounds@.len() - 1) =~= old(
                    state,
                ).rounds@.take(old(state).rounds@.len() - 1));
                let subs1 = state.rounds@.last().submissions@;
                assert(forall|k: int|
                    0 <= k < subs1.len() ==> (#[trigger] subs1[k].0@) == subs0[k].0@);
                assert(spec_subs_distinct(subs1));
                assert forall|k: int|
                    0 <= k < subs1.len() implies spec_roster_has(
                    old(state).rotation@,
                    #[trigger] subs1[k].0@,
                ) by {
                    assert(spec_roster_has(old(state).rotation@, subs0[k].0@));
                }
                match old(state).rounds@.last().winner {
                    Some(w) => {
                        let t = choose|t: int| 0 <= t < subs0.len() && subs0[t].0@ == w@;
                        assert(subs1[t].0@ == w@);
                        assert(spec_sub_has(subs1, w@));
                    },
                    None => {},
                }
                assert(state.wf());
            }
            return Effects::none();
        }
        j += 1;
    }
    round.submissions.push((player_id, submission));
    let count = round.submissions.len();
    state.rounds.push(round);
    proof {
        assert(state.rounds@.take(state.rounds@.len() - 1) =~= old(state).rounds@.take(
            old(state).rounds@.len() - 1,
        ));
        assert(state.rounds@.last().submissions@.take(subs0.len() as int) =~= subs0);
        assert(spec_subs_distinct(state.rounds@.last().submissions@));
        assert(state.wf());
    }
    if count >= required {
        start_judging_step(state, now_ms)
    } else {
        Effects::one(ServerMessage::IncrementSubmissionCount, TimerEffect::Keep)
    }
}

/// A winner pick is considered only while judging, only once per round, and
/// only for a player who actually submitted this round.
pub open spec fn spec_judge_accepted(s0: GameState, winner: Seq<char>) -> bool {
    &&& s0.step == GameStep::Judging
    &&& s0.rounds@.last().winner is None
    &&& spec_sub_has(s0.rounds@.last().submissions@, winner)
}

/// What judging does: the winner is recorded — exactly once per round; a
/// second pick is a no-op — a lightweight winner event is broadcast, and
/// the short winner-reveal countdown is armed.
pub open spec fn spec_judge_post(
    s0: GameState,
    s1: GameState,
    e: Effects,
    winner: Seq<char>,
    now_ms: u64,
) -> bool {
    if spec_judge_accepted(s0, winner) {
        &&& s1.step == GameStep::Judging
        &&& s1.rotation@ == s0.rotation@
        &&& s1.rounds@.len() == s0.rounds@.len()
        &&& s1.rounds@.take(s0.rounds@.len() - 1) == s0.rounds@.take(s0.rounds@.len() - 1)
        &&& s1.rounds@.last().judge == s0.rounds@.last().judge
        &&& s1.rounds@.last().prompt == s0.rounds@.last().prompt
        &&& s1.rounds@.last().submissions@ == s0.rounds@.last().submissions@
        &&& (s1.rounds@.last().winner matches Some(w) && w@ == winner)
        &&& s1.timer.0 == Some(TimerFields {
            started_at_ms: now_ms,
            epoch: s1.timer_epoch,
            tag: TimerTag::ShowRoundWinner,
        })
        &&& e.broadcasts@.len() == 1
        &&& (e.broadcasts@[0] matches ServerMessage::ShowRoundWinner(w) && w@ == winner)
        &&& e.timer == TimerEffect::Schedule(TimerTag::ShowRoundWinner, s1.timer_epoch)
    } else {
        spec_unchanged(e, s0, s1)
    }
}

/// Records the judge's pick for the current round and starts the short
/// winner-reveal pause.  A round that already holds a winner rejects a
/// second pick.
pub fn judge_round(state: &mut GameState, winner_id: PlayerId, now_ms: u64) -> (e: Effects)
    requires
        old(state).wf(),
    ensures
        final(state).wf(),
        final(state).step == old(state).step,
        spec_judge_post(*old(state), *final(state), e, winner_id@, now_ms),
{
    if !matches!(state.step, GameStep::Judging) {
        return Effects::none();
    }
    let nr = state.rounds.len();
    if state.rounds[nr - 1].winner.is_some() {
        return Effects::none();
    }
    let m = state.rounds[nr - 1].submissions.len();
    let mut has_sub = false;
    let mut j: usize = 0;
    while j < m && !has_sub
        invariant
            *state == *old(state),
            state.wf(),
            nr == state.rounds@.len(),
            nr > 0,
            m == state.rounds@.last().submissions@.len(),
            j <= m,
            !has_sub ==> forall|k: int|
                0 <= k < j ==> state.rounds@.last().submissions@[k].0@ != winner_id@,
            has_sub ==> spec_sub_has(state.rounds@.last().submissions@, winner_id@),
        decreases m - j + if has_sub {
            0int
        } else {
            1int
        },
    {
        if state.rounds[nr - 1].submissions[j].0 == winner_id {
            has_sub = true;
        } else {
            j += 1;
        }
    }
    if !has_sub {
        return Effects::none();
    }
    let mut round = match state.rounds.pop() {
        Some(r) => r,
        None => {
            proof {
                assert(false);
            }
            Round::default()
        },
    };
    round.winner = Some(winner_id.clone());
    state.rounds.push(round);
    proof {
        assert(state.rounds@.take(state.rounds@.len() - 1) =~= old(state).rounds@.take(
            old(state).rounds@.len() - 1,
        ));
        assert(state.wf());
    }
    let epoch = set_timer(state, TimerTag::ShowRoundWinner, now_ms);
    Effects::one(
        ServerMessage::ShowRoundWinner(winner_id),
        TimerEffect::Schedule(TimerTag::ShowRoundWinner, epoch),
    )
}


/// What the debug-only reset does: a fresh setup-phase state with an empty
/// roster and default configuration; only the flavor lines, the debug flag
/// and the epoch counter survive.
pub open spec fn spec_reset_post(s0: GameState, s1: GameState, e: Effects, now_ms: u64) -> bool {
    &&& s1.step == GameStep::Setup
    &&& s1.rotation@.len() == 0
    &&& s1.rounds@.len() == 0
    &&& s1.shuffled_submissions@.len() == 0
    &&& s1.timer.0 is None
    &&& s1.config.valid()
    &&& s1.prompts@ == s0.prompts@
    &&& s1.debug == s0.debug
    &&& e.broadcasts@.len() == 1
    &&& (e.broadcasts@[0] matches ServerMessage::GameState(g) && spec_snapshot_matches(
        g,
        s1,
        now_ms,
    ))
    &&& e.timer is Cancel
}

/// Applies one client message to the authoritative state.
///
/// This is the actor's single entry point: the surrounding runtime
/// serializes all connections' messages into one ordered queue and calls
/// this for each, so the state machine below runs free of races.  Messages
/// sent out of phase, by unknown senders, or against the protocol's rules
/// are dropped without effect; the debug-only messages are dropped unless
/// the state was built with debugging enabled.
pub fn handle_message(
    session_id: SessionId,
    message: ClientMessage,
    state: &mut GameState,
    sessions: &mut Sessions,
    now_ms: u64,
) -> (e: Effects)
    requires
        old(state).wf(),
        old(sessions).wf(),
    ensures
        final(state).wf(),
        final(sessions).wf(),
        old(state).debug == false ==> spec_valid_step_edge(old(state).step, final(state).step),
        match message {
            ClientMessage::Connect(pid) => {
                &&& *final(state) == *old(state)
                &&& e.timer is Keep
                &&& if old(sessions).has_player(pid@) || old(sessions).has_session(session_id@) {
                    &&& final(sessions).pairs@ == old(sessions).pairs@
                    &&& e.broadcasts@.len() == 1
                    &&& (e.broadcasts@[0] matches ServerMessage::DuplicateSession(s) && s@
                        == session_id@)
                } else {
                    &&& final(sessions).has_player(pid@)
                    &&& final(sessions).spec_player_of(session_id@) == Some(pid@)
                    &&& final(sessions).pairs@.len() == old(sessions).pairs@.len() + 1
                    &&& e.broadcasts@.len() == 1
                    &&& (e.broadcasts@[0] matches ServerMessage::GameState(g)
                        && spec_snapshot_matches(g, *final(state), now_ms))
                }
            },
            ClientMessage::Disconnect => {
                &&& *final(state) == *old(state)
                &&& !final(sessions).has_session(session_id@)
                &&& e.broadcasts@.len() == 0
                &&& e.timer is Keep
            },
            ClientMessage::JoinGame { name } => {
                &&& final(sessions).pairs@ == old(sessions).pairs@
                &&& match old(sessions).spec_player_of(session_id@) {
                    Some(pid) => spec_join_post(*old(state), *final(state), e, pid, name@),
                    None => spec_unchanged(e, *old(state), *final(state)),
                }
            },
            ClientMessage::KickPlayer(pid) => {
                &&& final(sessions).pairs@ == old(sessions).pairs@
                &&& spec_kick_post(*old(state), *final(state), e, pid@, now_ms)
            },
            ClientMessage::StartGame(config) => {
                &&& final(sessions).pairs@ == old(sessions).pairs@
                &&& spec_start_post(*old(state), *final(state), e, config, now_ms)
            },
            ClientMessage::SubmitAcronym(sub) => {
                &&& final(sessions).pairs@ == old(sessions).pairs@
                &&& match old(sessions).spec_player_of(session_id@) {
                    Some(pid) => spec_submit_post(*old(state), *final(state), e, pid, sub, now_ms),
                    None => spec_unchanged(e, *old(state), *final(state)),
                }
            },
            ClientMessage::JudgeRound(winner) => {
                &&& final(sessions).pairs@ == old(sessions).pairs@
                &&& spec_judge_post(*old(state), *final(state), e, winner@, now_ms)
            },
            ClientMessage::GetRemainingTime => {
                &&& *final(state) == *old(state)
                &&& final(sessions).pairs@ == old(sessions).pairs@
                &&& e.timer is Keep
                &&& e.broadcasts@.len() == 1
                &&& (e.broadcasts@[0] matches ServerMessage::UpdateRemainingTime(t) && t == old(
                    state,
                ).timer.spec_remaining_secs(now_ms))
            },
            ClientMessage::ResetState => {
                &&& final(sessions).pairs@ == old(sessions).pairs@
                &&& if old(state).debug {
                    spec_reset_post(*old(state), *final(state), e, now_ms)
                } else {
                    spec_unchanged(e, *old(state), *final(state))
                }
            },
            ClientMessage::StopTimer => {
                &&& final(sessions).pairs@ == old(sessions).pairs@
                &&& if old(state).debug {
                    &&& *final(state) == (GameState { timer: final(state).timer, ..*old(state) })
                    &&& final(state).timer.0 is None
                    &&& e.broadcasts@.len() == 0
                    &&& e.timer is Cancel
                } else {
                    spec_unchanged(e, *old(state), *final(state))
                }
            },
        },
{
    match message {
        ClientMessage::Connect(player_id) => {
            match sessions.connect(session_id, player_id) {
                Ok(()) => {
                    let snapshot = state.to_client_state(now_ms);
                    Effects::one(ServerMessage::GameState(snapshot), TimerEffect::Keep)
                },
                Err(dup) => Effects::one(
                    ServerMessage::DuplicateSession(dup),
                    TimerEffect::Keep,
                ),
            }
        },
        ClientMessage::Disconnect => {
            sessions.remove(&session_id);
            Effects::none()
        },
        ClientMessage::JoinGame { name } => {
            let pid = match sessions.player_id(&session_id) {
                Some(p) => p.clone(),
                None => {
                    return Effects::none();
                },
            };
            join_game(state, pid, name)
        },
        ClientMessage::KickPlayer(player_id) => kick_player(state, player_id, now_ms),
        ClientMessage::StartGame(config) => start_game(state, config, now_ms),
        ClientMessage::SubmitAcronym(submission) => {
            let pid = match sessions.player_id(&session_id) {
                Some(p) => p.clone(),
                None => {
                    return Effects::none();
                },
            };
            submit_acronym(state, pid, submission, now_ms)
        },
        ClientMessage::JudgeRound(winner_id) => judge_round(state, winner_id, now_ms),
        ClientMessage::GetRemainingTime => Effects::one(
            ServerMessage::UpdateRemainingTime(state.timer.remaining_secs(now_ms)),
            TimerEffect::Keep,
        ),
        ClientMessage::ResetState => {
            if state.debug {
                state.step = GameStep::Setup;
                state.rotation = Vec::new();
                state.rounds = Vec::new();
                state.shuffled_submissions = Vec::new();
                state.timer.cancel();
                state.config = Config::default();
                let snapshot = state.to_client_state(now_ms);
                Effects::one(ServerMessage::GameState(snapshot), TimerEffect::Cancel)
            } else {
                Effects::none()
            }
        },
        ClientMessage::StopTimer => {
            if state.debug {
                state.timer.cancel();
                Effects { broadcasts: Vec::new(), timer: TimerEffect::Cancel }
            } else {
                Effects::none()
            }
        },
    }
}

} // verus!



