use over_under::game::{Comparison, Game, GuessResult};
use over_under::read::Location;
use over_under::state::{init, update, GameState, Msg};

fn loc(name: &str, count: u64) -> Location {
    Location { name: name.to_string(), count }
}

fn abc() -> Vec<Location> {
    vec![loc("A", 150), loc("B", 150), loc("C", 9999)]
}

#[test]
fn new_keeps_counts_above_100_in_order() {
    let g = Game::new(vec![loc("a", 50), loc("b", 150), loc("c", 100), loc("d", 101)]);
    assert!(g.is_playable());
    let g = g.start_at(0, 1);
    assert_eq!(g.get_cur_loc().name, "b");
    assert_eq!(g.get_next_loc().name, "d");
}

#[test]
fn new_without_eligible_locations_is_not_playable() {
    let g = Game::new(vec![loc("a", 100), loc("b", 0)]);
    assert!(!g.is_playable());
    assert!(!Game::new(vec![]).is_playable());
}

#[test]
fn start_resets_scores() {
    let g = Game::new(abc()).start();
    assert_eq!(g.cur_score, 0);
    assert_eq!(g.max_score, 0);
    assert!(g.get_cur_loc().count > 100);
}

#[test]
fn three_correct_guesses_on_equal_counts() {
    let mut g = Game::new(vec![loc("X", 500), loc("Y", 500)]).start();
    for guess in [Comparison::Higher, Comparison::Lower, Comparison::Higher] {
        g = match g.guess(guess) {
            GuessResult::Correct(next) => next,
            GuessResult::Incorrect(_) => panic!("equal counts make every guess right"),
        };
    }
    assert_eq!(g.cur_score, 3);
    assert_eq!(g.max_score, 3);
}

#[test]
fn equal_pair_then_higher_on_larger() {
    let g = Game::new(abc()).start_at(0, 1);
    let g = match g.guess_with(Comparison::Lower, 2) {
        GuessResult::Correct(g) => g,
        GuessResult::Incorrect(_) => panic!("tie must count as right"),
    };
    assert_eq!(g.cur_score, 1);
    assert_eq!(g.get_cur_loc().name, "B");
    assert_eq!(g.get_next_loc().name, "C");
    match g.guess_with(Comparison::Higher, 0) {
        GuessResult::Correct(g) => {
            assert_eq!(g.cur_score, 2);
            assert_eq!(g.max_score, 2);
            assert_eq!(g.get_cur_loc().name, "C");
            assert_eq!(g.get_next_loc().name, "A");
        },
        GuessResult::Incorrect(_) => panic!("9999 is higher than 150"),
    }
}

#[test]
fn wrong_guess_ends_and_keeps_pair() {
    let g = Game::new(abc()).start_at(0, 1);
    let g = match g.guess_with(Comparison::Higher, 2) {
        GuessResult::Correct(g) => g,
        GuessResult::Incorrect(_) => panic!("tie must count as right"),
    };
    match g.guess_with(Comparison::Lower, 0) {
        GuessResult::Correct(_) => panic!("9999 is not lower than 150"),
        GuessResult::Incorrect(d) => {
            assert_eq!(d.cur_score, 0);
            assert_eq!(d.max_score, 1);
            assert_eq!(d.get_cur_loc().name, "B");
            assert_eq!(d.get_next_loc().name, "C");
        },
    }
}

#[test]
fn guess_equal_is_wrong_unless_tied() {
    let g = Game::new(abc()).start_at(1, 2);
    assert!(matches!(g.guess_with(Comparison::Equal, 0), GuessResult::Incorrect(_)));
    let g = Game::new(abc()).start_at(0, 1);
    assert!(matches!(g.guess_with(Comparison::Equal, 0), GuessResult::Correct(_)));
}

#[test]
fn lower_on_smaller_next_is_right() {
    let g = Game::new(abc()).start_at(2, 0);
    assert!(matches!(g.guess_with(Comparison::Lower, 1), GuessResult::Correct(_)));
    let g = Game::new(abc()).start_at(2, 0);
    assert!(matches!(g.guess_with(Comparison::Higher, 1), GuessResult::Incorrect(_)));
}

#[test]
fn restart_keeps_best_and_clears_streak() {
    let g = Game::new(abc()).start_at(0, 1);
    let g = match g.guess_with(Comparison::Higher, 2) {
        GuessResult::Correct(g) => g,
        GuessResult::Incorrect(_) => panic!("tie must count as right"),
    };
    let d = match g.guess_with(Comparison::Lower, 0) {
        GuessResult::Correct(_) => panic!("9999 is not lower than 150"),
        GuessResult::Incorrect(d) => d,
    };
    let a = d.restart_with(0);
    assert_eq!(a.cur_score, 0);
    assert_eq!(a.max_score, 1);
    assert_eq!(a.get_cur_loc().name, "C");
    assert_eq!(a.get_next_loc().name, "A");
    let b = match a.guess_with(Comparison::Lower, 1) {
        GuessResult::Correct(b) => b,
        GuessResult::Incorrect(_) => panic!("150 is lower than 9999"),
    };
    assert_eq!(b.cur_score, 1);
    assert_eq!(b.max_score, 1);
}

#[test]
fn restart_draws_within_locations() {
    let g = Game::new(vec![loc("A", 200), loc("B", 300)]).start_at(0, 1);
    let d = match g.guess(Comparison::Lower) {
        GuessResult::Correct(_) => panic!("300 is higher than 200"),
        GuessResult::Incorrect(d) => d,
    };
    let a = d.restart();
    assert_eq!(a.get_cur_loc().name, "B");
    assert_eq!(a.max_score, 0);
}

#[test]
fn update_walks_through_states() {
    let s = GameState::Inactive(Game::new(vec![loc("A", 200), loc("B", 200)]));
    let s = update(Msg::Guess(Comparison::Higher), s);
    assert!(matches!(s, GameState::Inactive(_)));
    let s = update(Msg::StartGame, s);
    let s = update(Msg::Guess(Comparison::Higher), s);
    let s = update(Msg::StartGame, s);
    match &s {
        GameState::Active(g) => {
            assert_eq!(g.cur_score, 1);
            assert_eq!(g.max_score, 1);
        },
        _ => panic!("a tie keeps the game in play"),
    }
}

#[test]
fn update_restarts_after_wrong_guess() {
    let g = Game::new(vec![loc("A", 200), loc("B", 300)]).start_at(0, 1);
    let s = update(Msg::Guess(Comparison::Lower), GameState::Active(g));
    assert!(matches!(s, GameState::Done(_)));
    let s = update(Msg::Guess(Comparison::Lower), s);
    assert!(matches!(s, GameState::Done(_)));
    match update(Msg::StartGame, s) {
        GameState::Active(g) => {
            assert_eq!(g.cur_score, 0);
            assert_eq!(g.get_cur_loc().name, "B");
        },
        _ => panic!("a restart puts the game in play"),
    }
}

#[test]
fn init_starts_on_good_dataset() {
    match init("150 Oslo\n90 Moss\n2500 Bergen\n") {
        Ok(GameState::Active(g)) => {
            assert_eq!(g.cur_score, 0);
            assert!(g.get_cur_loc().count > 100);
            assert!(g.get_next_loc().count > 100);
        },
        _ => panic!("the dataset has eligible locations"),
    }
}

#[test]
fn init_fails_without_eligible_location() {
    match init("50 Oslo\n100 Moss\n") {
        Err(e) => assert_eq!(e, "no location has a count above 100"),
        Ok(_) => panic!("no location is eligible"),
    }
}

#[test]
fn init_fails_on_bad_line() {
    match init("150 Oslo\n150\n") {
        Err(e) => assert_eq!(e, "the name is missing"),
        Ok(_) => panic!("the second line has no name"),
    }
}
