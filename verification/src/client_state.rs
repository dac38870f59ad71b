//! Client-side bookkeeping: how a client's copy of the game state absorbs
//! each broadcast from the server.

use vstd::pervasive::VecAdditionalExecFns;
use vstd::prelude::*;

use crate::types::{ClientGameState, Player, ServerMessage, TimerTag};

verus! {

/// The client player list holds an entry with this id.
pub open spec fn spec_client_has_player(ps: Seq<Player>, id: Seq<char>) -> bool {
    exists|i: int| 0 <= i < ps.len() && ps[i].id@ == id
}

/// Applies one server broadcast to a client's copy of the game state: a
/// full snapshot replaces it, the other messages patch single fields.  The
/// addressed duplicate-session rejection carries no state and changes
/// nothing here.
pub fn apply_server_message(state: &mut ClientGameState, message: ServerMessage)
    ensures
        match message {
            ServerMessage::GameState(g) => *final(state) == g,
            ServerMessage::PlayerJoined(new) => {
                &&& *final(state) == (ClientGameState { players: final(state).players, ..*old(state) })
                &&& if spec_client_has_player(old(state).players@, new.id@) {
                    exists|i: int|
                        #![auto]
                        0 <= i < old(state).players@.len() && old(state).players@[i].id@ == new.id@
                            && (forall|k: int|
                            0 <= k < i ==> old(state).players@[k].id@ != new.id@) && final(state).players@.len() == old(state).players@.len() && final(state).players@[i].id@ == new.id@ && final(state).players@[i].name@ == new.name@
                            && (forall|k: int|
                            0 <= k < old(state).players@.len() && k != i ==> final(state).players@[k] == old(state).players@[k])
                } else {
                    &&& final(state).players@.len() == old(state).players@.len() + 1
                    &&& final(state).players@.take(old(state).players@.len() as int) == old(state).players@
                    &&& final(state).players@.last().id@ == new.id@
                    &&& final(state).players@.last().name@ == new.name@
                }
            },
            ServerMessage::ShowRoundWinner(winner) => {
                &&& *final(state) == (ClientGameState {
                    round_winner: final(state).round_winner,
                    timer: final(state).timer,
                    ..*old(state)
                })
                &&& (final(state).round_winner matches Some(w) && w@ == winner@)
                &&& final(state).timer == Some(TimerTag::ShowRoundWinner.spec_secs())
            },
            ServerMessage::IncrementSubmissionCount => *final(state) == (ClientGameState {
                submission_count: final(state).submission_count,
                ..*old(state)
            }) && final(state).submission_count as int == if old(state).submission_count
                < usize::MAX {
                old(state).submission_count + 1
            } else {
                old(state).submission_count as int
            },
            ServerMessage::UpdateRemainingTime(t) => *final(state) == (ClientGameState {
                timer: final(state).timer,
                ..*old(state)
            }) && final(state).timer == t,
            ServerMessage::DuplicateSession(_) => *final(state) == *old(state),
        },
{
    match message {
        ServerMessage::GameState(g) => {
            *state = g;
        },
        ServerMessage::PlayerJoined(new) => {
            let n = state.players.len();
            let mut i: usize = 0;
            while i < n
                invariant
                    message matches ServerMessage::PlayerJoined(p) && p == new,
                    *state == *old(state),
                    n == state.players@.len(),
                    i <= n,
                    forall|k: int| 0 <= k < i ==> state.players@[k].id@ != new.id@,
                decreases n - i,
            {
                if state.players[i].id == new.id {
                    let id = state.players[i].id.clone();
                    state.players.set(i, Player { id, name: new.name });
                    return ;
                }
                i += 1;
            }
            state.players.push(new);
            proof {
                assert(state.players@.take(old(state).players@.len() as int) =~= old(state).players@);
            }
        },
        ServerMessage::ShowRoundWinner(winner) => {
            state.round_winner = Some(winner);
            state.timer = Some(TimerTag::ShowRoundWinner.secs());
        },
        ServerMessage::IncrementSubmissionCount => {
            if state.submission_count < usize::MAX {
                state.submission_count += 1;
            }
        },
        ServerMessage::UpdateRemainingTime(time) => {
            state.timer = time;
        },
        ServerMessage::DuplicateSession(_) => {},
    }
}


/// Who the current judge is, from one client's point of view.
#[derive(Clone, Debug)]
pub enum Judge {
    /// This client is judging.
    Me,
    /// Another player, shown by display name.
    Name(String),
}

/// Derives the judge from a client's copy of the game state: this client
/// itself, another player resolved to their display name, or nothing while
/// no round is running (or the judge is not on the visible roster).
pub fn judge_of(state: &ClientGameState, my_id: &String) -> (r: Option<Judge>)
    ensures
        match r {
            None => state.judge is None || (state.judge matches Some(j) && j@ != my_id@
                && !spec_client_has_player(state.players@, j@)),
            Some(Judge::Me) => state.judge matches Some(j) && j@ == my_id@,
            Some(Judge::Name(name)) => state.judge matches Some(j) && j@ != my_id@ && exists|
                i: int,
            |
                0 <= i < state.players@.len() && state.players@[i].id@ == j@
                    && state.players@[i].name@ == name@,
        },
{
    let judge_id = match &state.judge {
        Some(j) => j,
        None => {
            return None;
        },
    };
    if *judge_id == *my_id {
        return Some(Judge::Me);
    }
    let n = state.players.len();
    let mut i: usize = 0;
    while i < n
        invariant
            n == state.players@.len(),
            i <= n,
            state.judge matches Some(j) && j@ == judge_id@,
            judge_id@ != my_id@,
            forall|k: int| 0 <= k < i ==> state.players@[k].id@ != judge_id@,
        decreases n - i,
    {
        if state.players[i].id == *judge_id {
            return Some(Judge::Name(state.players[i].name.clone()));
        }
        i += 1;
    }
    None
}

/// Whether this client counts as the room's host: the first visible player
/// is them.
pub fn is_host(state: &ClientGameState, my_id: &String) -> (r: bool)
    ensures
        r == (state.players@.len() > 0 && state.players@[0].id@ == my_id@),
{
    if state.players.len() > 0 {
        state.players[0].id == *my_id
    } else {
        false
    }
}

/// One tick of the client-side countdown: counts the displayed timer down
/// toward zero.  Says whether the interval should keep running; at zero (or
/// with no timer) it is done.
pub fn apply_timer_to_game(state: &mut ClientGameState) -> (keep_running: bool)
    ensures
        *final(state) == (ClientGameState { timer: final(state).timer, ..*old(state) }),
        match old(state).timer {
            Some(s) => if s > 0 {
                final(state).timer == Some((s - 1) as u64) && keep_running
            } else {
                final(state).timer == Some(0u64) && !keep_running
            },
            None => final(state).timer is None && !keep_running,
        },
{
    match state.timer {
        Some(s) => {
            if s > 0 {
                state.timer = Some(s - 1);
                true
            } else {
                false
            }
        },
        None => false,
    }
}

} // verus!

