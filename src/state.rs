use vstd::prelude::*;

use crate::game::{Active, Comparison, Done, Game, GuessResult, Inactive};
#[allow(unused_imports)]
use crate::game::{eligible, is_eligible};
use crate::read::{parse_dataset, Location};
#[allow(unused_imports)]
use crate::read::{all_parse, lines_of, parse_spec, parsed_as, trimmed};

verus! {

/// The one snapshot of the game that the host holds.
pub enum GameState {
    Inactive(Game<Inactive>),
    Active(Game<Active>),
    Done(Game<Done>),
}

/// What the host hands to the game.
#[derive(Clone, Copy, PartialEq, Eq, Structural, Debug)]
pub enum Msg {
    /// Start a fresh game, or play again after a wrong guess.
    StartGame,
    Guess(Comparison),
}

impl GameState {
    /// The snapshot keeps its game's invariant, and an inactive game has
    /// something to start on.
    pub open spec fn valid(&self) -> bool {
        match self {
            GameState::Inactive(g) => g.inv() && g.locs().len() > 0,
            GameState::Active(g) => g.in_play(),
            GameState::Done(g) => g.in_play(),
        }
    }

    /// Whether a guess can still add one to the streak.
    pub open spec fn room_to_score(&self) -> bool {
        self matches GameState::Active(g) ==> g.score() < u64::MAX
    }

    pub open spec fn best(&self) -> u64 {
        match self {
            GameState::Inactive(g) => g.best(),
            GameState::Active(g) => g.best(),
            GameState::Done(g) => g.best(),
        }
    }

    pub open spec fn score(&self) -> u64 {
        match self {
            GameState::Inactive(g) => g.score(),
            GameState::Active(g) => g.score(),
            GameState::Done(g) => g.score(),
        }
    }
}

/// What `update` may turn `s` into on `msg`.
pub open spec fn step(s: GameState, msg: Msg, r: GameState) -> bool {
    match (msg, s) {
        (Msg::StartGame, GameState::Inactive(g)) => match r {
            GameState::Active(h) => h.in_play() && h.locs() == g.locs() && h.best() == 0
                && h.score() == 0,
            _ => false,
        },
        (Msg::StartGame, GameState::Done(g)) => match r {
            GameState::Active(h) => h.in_play() && h.locs() == g.locs() && h.best() == g.best()
                && h.score() == 0 && h.cur_index() == g.next_index(),
            _ => false,
        },
        (Msg::Guess(d), GameState::Active(g)) => match r {
            GameState::Active(h) => g.guessed(d, GuessResult::Correct(h)),
            GameState::Done(h) => g.guessed(d, GuessResult::Incorrect(h)),
            _ => false,
        },
        _ => r == s,
    }
}

/// Applies one message: a start or restart where one is possible, a guess
/// while the game is in play; any other message leaves the snapshot as it is.
pub fn update(msg: Msg, state: GameState) -> (r: GameState)
    requires
        state.valid(),
        state.room_to_score(),
    ensures
        step(state, msg, r),
        r.valid(),
{
    match msg {
        Msg::StartGame => match state {
            GameState::Inactive(game) => GameState::Active(game.start()),
            GameState::Done(game) => GameState::Active(game.restart()),
            other => other,
        },
        Msg::Guess(guess) => match state {
            GameState::Active(game) => match game.guess(guess) {
                GuessResult::Correct(g) => GameState::Active(g),
                GuessResult::Incorrect(g) => GameState::Done(g),
            },
            other => other,
        },
    }
}

/// A guess on a game in play leads to exactly one of: a game still in play,
/// or a finished game.
pub proof fn lemma_guess_has_one_outcome(s: GameState, guess: Comparison, r: GameState)
    requires
        s is Active,
        step(s, Msg::Guess(guess), r),
    ensures
        r is Active || r is Done,
        !(r is Active && r is Done),
        !(r is Inactive),
{
}

/// Playing again after a wrong guess keeps the best score and starts the
/// streak at zero.
pub proof fn lemma_restart_keeps_best(s: GameState, r: GameState)
    requires
        s is Done,
        step(s, Msg::StartGame, r),
    ensures
        r is Active,
        r.best() == s.best(),
        r.score() == 0,
{
}

proof fn lemma_step_keeps_best(s: GameState, msg: Msg, r: GameState)
    requires
        !(s is Inactive),
        step(s, msg, r),
    ensures
        !(r is Inactive),
        s.best() <= r.best(),
{
}

/// Along any run of updates that begins with a started game, the best score
/// never drops.
pub proof fn lemma_best_score_never_drops(states: Seq<GameState>, msgs: Seq<Msg>)
    requires
        states.len() == msgs.len() + 1,
        states[0] is Active,
        forall|k: int| 0 <= k < msgs.len() ==> step(#[trigger] states[k], msgs[k], states[k + 1]),
    ensures
        forall|i: int, j: int| 0 <= i <= j < states.len() ==> states[i].best() <= states[j].best(),
{
    assert forall|i: int, j: int| 0 <= i <= j < states.len() implies states[i].best()
        <= states[j].best() by {
        lemma_run_prefix(states, msgs, j);
    }
}

proof fn lemma_run_prefix(states: Seq<GameState>, msgs: Seq<Msg>, j: int)
    requires
        states.len() == msgs.len() + 1,
        states[0] is Active,
        forall|k: int| 0 <= k < msgs.len() ==> step(#[trigger] states[k], msgs[k], states[k + 1]),
        0 <= j < states.len(),
    ensures
        !(states[j] is Inactive),
        forall|i: int| 0 <= i <= j ==> states[i].best() <= states[j].best(),
    decreases j,
{
    if j > 0 {
        lemma_run_prefix(states, msgs, j - 1);
        lemma_step_keeps_best(states[j - 1], msgs[j - 1], states[j]);
    }
}

pub open spec fn no_eligible_message() -> Seq<char> {
    "no location has a count above 100"@
}

/// Whether a line reads as a location that takes part in the game.
pub open spec fn is_eligible_line(l: Seq<char>) -> bool {
    match parse_spec(trimmed(l)) {
        Ok((_, c)) => c > 100,
        Err(_) => false,
    }
}

/// Whether some line of a dataset gives an eligible location.
pub open spec fn has_eligible_line(lines: Seq<Seq<char>>) -> bool {
    exists|i: int| 0 <= i < lines.len() && #[trigger] is_eligible_line(lines[i])
}

/// Reads a dataset and starts a game on it. Fails with the first bad line's
/// error, or when no location is eligible.
pub fn init(text: &str) -> (r: Result<GameState, String>)
    ensures
        r is Ok <==> all_parse(lines_of(text@)) && has_eligible_line(lines_of(text@)),
        r matches Ok(s) ==> s is Active && s.valid() && s.best() == 0 && s.score() == 0,
        all_parse(lines_of(text@)) ==> (r matches Err(e) ==> e@ == no_eligible_message()),
{
    let locs = match parse_dataset(text) {
        Ok(v) => v,
        Err(e) => {
            return Err(e);
        },
    };
    let ghost v = locs@;
    let game = Game::new(locs);
    proof {
        let ls = lines_of(text@);
        if has_eligible_line(ls) {
            let i = choose|i: int| 0 <= i < ls.len() && #[trigger] is_eligible_line(ls[i]);
            assert(parsed_as(Ok(v[i]), trimmed(ls[i])));
            assert(is_eligible(v[i]));
            assert(eligible(v).contains(v[i]));
        }
        if game.locs().len() > 0 {
            let l = game.locs()[0];
            assert(is_eligible(l));
            assert(v.contains(l)) by {
                v.lemma_filter_contains_rev(|l: Location| is_eligible(l), l);
            }
            let i = choose|i: int| 0 <= i < v.len() && v[i] == l;
            assert(parsed_as(Ok(v[i]), trimmed(ls[i])));
            assert(is_eligible_line(ls[i]));
        }
    }
    if !game.is_playable() {
        return Err(String::from_str("no location has a count above 100"));
    }
    Ok(GameState::Active(game.start()))
}

} // verus!
