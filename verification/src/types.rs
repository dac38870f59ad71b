//! Shared protocol and data-model types: players, game phases, the prompt,
//! the messages exchanged between clients and the server, and the per-client
//! projection of the game state.

use vstd::prelude::*;

verus! {

/// A player's submitted word list for one round.
pub type Submission = Vec<String>;

/// Identifier generated client side, unique per person.
pub type PlayerId = String;

pub type PlayerName = String;

/// Uniquely identifies one live connection between a client and the server.
#[derive(Debug)]
pub struct SessionId(pub String);

impl View for SessionId {
    type V = Seq<char>;

    open spec fn view(&self) -> Seq<char> {
        self.0@
    }
}

impl Clone for SessionId {
    fn clone(&self) -> (r: Self)
        ensures
            r@ == self@,
    {
        SessionId(self.0.clone())
    }
}

impl PartialEq for SessionId {
    fn eq(&self, other: &SessionId) -> (r: bool) {
        self.0 == other.0
    }
}

impl vstd::std_specs::cmp::PartialEqSpecImpl for SessionId {
    open spec fn obeys_eq_spec() -> bool {
        true
    }

    open spec fn eq_spec(&self, other: &SessionId) -> bool {
        self.0@ == other.0@
    }
}

/// The game-wide phase.
#[derive(Clone, Copy, Debug, PartialEq, Eq, Structural)]
pub enum GameStep {
    /// Players joining and game configuration.
    Setup,
    /// Players submit word lists.
    Submission,
    /// The judge picks a winner.
    Judging,
    /// Scoreboard at game end.
    Results,
}

impl Default for GameStep {
    fn default() -> (r: Self)
        ensures
            r == GameStep::Setup,
    {
        GameStep::Setup
    }
}

/// Client-visible player record.
#[derive(Debug)]
pub struct Player {
    pub id: PlayerId,
    pub name: String,
}

impl Clone for Player {
    fn clone(&self) -> (r: Self)
        ensures
            r.id@ == self.id@,
            r.name@ == self.name@,
    {
        Player { id: self.id.clone(), name: self.name.clone() }
    }
}

/// An inclusive range of values.
#[derive(Clone, Copy, Debug, PartialEq, Eq, Structural)]
pub struct Range<T> {
    pub min: T,
    pub max: T,
}

/// Adjustable game parameters.
#[derive(Clone, Copy, Debug, PartialEq, Eq, Structural)]
pub struct Config {
    pub letters_per_acronym: Range<usize>,
}

/// The longest acronym the engine will draw; keeps per-round scores small.
pub const MAX_ACRONYM_LETTERS: usize = 16;

impl Config {
    /// A configuration the engine accepts: a non-empty acronym length range
    /// within the supported maximum.
    pub open spec fn valid(self) -> bool {
        1 <= self.letters_per_acronym.min <= self.letters_per_acronym.max <= MAX_ACRONYM_LETTERS
    }
}

impl Default for Config {
    fn default() -> (r: Self)
        ensures
            r == (Config { letters_per_acronym: Range { min: 2usize, max: 6usize } }),
            r.valid(),
    {
        Config { letters_per_acronym: Range { min: 2, max: 6 } }
    }
}

/// The round's prompt: a random letter sequence framed by flavor text.
#[derive(Debug)]
pub struct Prompt {
    pub before: String,
    pub acronym: String,
    pub after: String,
}

impl Clone for Prompt {
    fn clone(&self) -> (r: Self)
        ensures
            r.before@ == self.before@,
            r.acronym@ == self.acronym@,
            r.after@ == self.after@,
    {
        Prompt {
            before: self.before.clone(),
            acronym: self.acronym.clone(),
            after: self.after.clone(),
        }
    }
}

impl Default for Prompt {
    fn default() -> (r: Self)
        ensures
            r.before@ == Seq::<char>::empty(),
            r.acronym@ == Seq::<char>::empty(),
            r.after@ == Seq::<char>::empty(),
    {
        Prompt { before: String::new(), acronym: String::new(), after: String::new() }
    }
}

/// Tags the purpose of the single active countdown.
#[derive(Clone, Copy, Debug, PartialEq, Eq, Structural)]
pub enum TimerTag {
    Submission,
    Judging,
    ShowRoundWinner,
}

impl TimerTag {
    /// Phase-specific countdown length, in seconds.
    pub open spec fn spec_secs(&self) -> u64 {
        match self {
            TimerTag::Submission => 60,
            TimerTag::Judging => 45,
            TimerTag::ShowRoundWinner => 10,
        }
    }

    #[verifier::when_used_as_spec(spec_secs)]
    pub fn secs(&self) -> (r: u64)
        ensures
            r == self.spec_secs(),
    {
        match self {
            TimerTag::Submission => 60,
            TimerTag::Judging => 45,
            TimerTag::ShowRoundWinner => 10,
        }
    }
}

/// Message from a client to the server.
#[derive(Clone, Debug)]
pub enum ClientMessage {
    Connect(PlayerId),
    Disconnect,
    JoinGame { name: String },
    KickPlayer(PlayerId),
    StartGame(Config),
    SubmitAcronym(Submission),
    JudgeRound(PlayerId),
    GetRemainingTime,
    /// for debugging only
    ResetState,
    /// for debugging only
    StopTimer,
}

/// Message from the server, broadcast to every client.
#[derive(Clone, Debug)]
pub enum ServerMessage {
    /// Full snapshot of the client-visible game state.
    GameState(ClientGameState),
    /// Incremental update: a player joined or renamed themselves.
    PlayerJoined(Player),
    ShowRoundWinner(PlayerId),
    IncrementSubmissionCount,
    /// Seconds remaining on the clock.
    UpdateRemainingTime(Option<u64>),
    /// Addressed rejection: only the named connection must close on receipt.
    DuplicateSession(SessionId),
}

/// Game state for a single client: the server state with hidden parts
/// removed and derived parts precomputed.
#[derive(Clone, Debug)]
pub struct ClientGameState {
    pub judge: Option<PlayerId>,
    pub step: GameStep,
    pub players: Vec<Player>,
    pub prompt: Prompt,
    pub timer: Option<u64>,
    /// Everyone can see the current submission count.
    pub submission_count: usize,
    /// Empty unless at the judging step.
    pub submissions: Vec<(PlayerId, Submission)>,
    /// Empty until the results step.
    pub scores: Vec<(PlayerName, i64)>,
    pub round_winner: Option<PlayerId>,
    pub round_counter: String,
    pub config: Config,
}

impl Default for ClientGameState {
    fn default() -> (r: Self)
        ensures
            r.judge is None,
            r.step == GameStep::Setup,
            r.players@.len() == 0,
            r.prompt.before@ == Seq::<char>::empty(),
            r.prompt.acronym@ == Seq::<char>::empty(),
            r.prompt.after@ == Seq::<char>::empty(),
            r.timer is None,
            r.submission_count == 0,
            r.submissions@.len() == 0,
            r.scores@.len() == 0,
            r.round_winner is None,
            r.round_counter@ == Seq::<char>::empty(),
            r.config.valid(),
    {
        ClientGameState {
            judge: None,
            step: GameStep::Setup,
            players: Vec::new(),
            prompt: Prompt::default(),
            timer: None,
            submission_count: 0,
            submissions: Vec::new(),
            scores: Vec::new(),
            round_winner: None,
            round_counter: String::new(),
            config: Config::default(),
        }
    }
}

} // verus!
