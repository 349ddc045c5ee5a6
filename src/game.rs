use std::marker::PhantomData;

use rand::rngs::ThreadRng;
use rand::Rng;
use vstd::prelude::*;

use crate::read::Location;

verus! {

broadcast use vstd::seq_lib::group_filter_ensures;

#[verifier::external_type_specification]
#[verifier::external_body]
pub struct ExThreadRng(ThreadRng);

/// Relies on `rand::thread_rng`: it hands out a handle on the thread's
/// generator. Nothing is promised of what the handle will draw.
pub assume_specification[ rand::thread_rng ]() -> ThreadRng;

/// Relies on `rand::Rng::gen_range`: on the non-empty range `0..len` it
/// returns a value of that range (it panics on an empty range).
#[verifier::external_body]
fn draw_index(rng: &mut ThreadRng, len: usize) -> (r: usize)
    requires
        len > 0,
    ensures
        r < len,
{
    rng.gen_range(0..len)
}

/// A direction: of a guess, or of how the second count stands to the first.
#[derive(Clone, Copy, PartialEq, Eq, Structural, Debug)]
pub enum Comparison {
    Higher,
    Lower,
    Equal,
}

/// How the count of the next location stands to that of the current one.
pub open spec fn truth_of(cur: u64, next: u64) -> Comparison {
    if next > cur {
        Comparison::Higher
    } else if next < cur {
        Comparison::Lower
    } else {
        Comparison::Equal
    }
}

/// A guess is right when it names the truth; equal counts make any guess right.
pub open spec fn judged_correct(truth: Comparison, guess: Comparison) -> bool {
    truth == Comparison::Equal || truth == guess
}

/// A location takes part in the game only with a count above one hundred.
pub open spec fn is_eligible(l: Location) -> bool {
    l.count > 100
}

/// The locations of a dataset that take part in the game, in their order.
pub open spec fn eligible(s: Seq<Location>) -> Seq<Location> {
    s.filter(|l: Location| is_eligible(l))
}

/// A game that has not been started yet.
#[derive(Clone, Copy)]
pub struct Inactive {}

/// A game in play.
#[derive(Clone, Copy)]
pub struct Active {}

/// A game that ended on a wrong guess.
#[derive(Clone, Copy)]
pub struct Done {}

/// One snapshot of the game. The type parameter tells which operations it
/// offers: `start` when inactive, `guess` when active, `restart` when done.
pub struct Game<Status = Inactive> {
    status: PhantomData<Status>,
    pub max_score: u64,
    pub cur_score: u64,
    cur: usize,
    next: usize,
    locations: Vec<Location>,
    rng: ThreadRng,
}

/// What a guess leads to.
pub enum GuessResult {
    Correct(Game<Active>),
    Incorrect(Game<Done>),
}

impl<Status> Game<Status> {
    /// The locations in play, fixed when the game was made.
    pub closed spec fn locs(&self) -> Seq<Location> {
        self.locations@
    }

    /// Index of the location shown first.
    pub closed spec fn cur_index(&self) -> int {
        self.cur as int
    }

    /// Index of the location to guess about.
    pub closed spec fn next_index(&self) -> int {
        self.next as int
    }

    /// The best streak so far.
    pub closed spec fn best(&self) -> u64 {
        self.max_score
    }

    /// The current streak.
    pub closed spec fn score(&self) -> u64 {
        self.cur_score
    }

    pub open spec fn cur_count(&self) -> u64 {
        self.locs()[self.cur_index()].count
    }

    pub open spec fn next_count(&self) -> u64 {
        self.locs()[self.next_index()].count
    }

    /// Every location is eligible and the best score is never below the current one.
    pub open spec fn inv(&self) -> bool {
        &&& forall|i: int| 0 <= i < self.locs().len() ==> is_eligible(#[trigger] self.locs()[i])
        &&& self.score() <= self.best()
    }

    /// The invariant of a started game: both indices point into the locations.
    pub open spec fn in_play(&self) -> bool {
        &&& self.inv()
        &&& 0 <= self.cur_index() < self.locs().len()
        &&& 0 <= self.next_index() < self.locs().len()
    }

    /// Draws an index into the locations; nothing else changes.
    fn gen_next_loc(&mut self) -> (r: usize)
        requires
            old(self).locs().len() > 0,
        ensures
            r < old(self).locs().len(),
            final(self).locs() == old(self).locs(),
            final(self).cur_index() == old(self).cur_index(),
            final(self).next_index() == old(self).next_index(),
            final(self).best() == old(self).best(),
            final(self).score() == old(self).score(),
    {
        draw_index(&mut self.rng, self.locations.len())
    }
}

impl Game<Inactive> {
    /// Makes an inactive game over the eligible locations of `locs`.
    pub fn new(locs: Vec<Location>) -> (g: Game<Inactive>)
        ensures
            g.locs() == eligible(locs@),
            g.inv(),
            g.best() == 0,
            g.score() == 0,
    {
        let ghost all = locs@;
        let mut src = locs;
        let mut rev: Vec<Location> = Vec::new();
        while src.len() > 0
            invariant
                src.len() + rev.len() == all.len(),
                src@ == all.subrange(0, src.len() as int),
                forall|j: int| 0 <= j < rev.len() ==> rev@[j] == all[all.len() - 1 - j],
            decreases src.len(),
        {
            let l = src.pop().unwrap();
            rev.push(l);
        }
        let mut kept: Vec<Location> = Vec::new();
        while rev.len() > 0
            invariant
                rev.len() <= all.len(),
                forall|j: int| 0 <= j < rev.len() ==> rev@[j] == all[all.len() - 1 - j],
                kept@ == eligible(all.subrange(0, all.len() - rev.len())),
            decreases rev.len(),
        {
            let ghost k = all.len() - rev.len();
            let l = rev.pop().unwrap();
            proof {
                let pre = all.subrange(0, k + 1);
                assert(pre.drop_last() =~= all.subrange(0, k));
                assert(pre.last() == l);
                reveal(Seq::filter);
            }
            if l.count > 100 {
                kept.push(l);
            }
        }
        assert(all.subrange(0, all.len() as int) =~= all);
        Game {
            status: PhantomData,
            max_score: 0,
            cur_score: 0,
            cur: 0,
            next: 0,
            locations: kept,
            rng: rand::thread_rng(),
        }
    }

    /// Whether the game has a location to show, which `start` needs.
    pub fn is_playable(&self) -> (r: bool)
        ensures
            r == (self.locs().len() > 0),
    {
        self.locations.len() > 0
    }

    /// Starts the game on the given pair of indices, both scores at zero.
    pub fn start_at(self, cur: usize, next: usize) -> (g: Game<Active>)
        requires
            self.inv(),
            cur < self.locs().len(),
            next < self.locs().len(),
        ensures
            g.in_play(),
            g.locs() == self.locs(),
            g.cur_index() == cur,
            g.next_index() == next,
            g.best() == 0,
            g.score() == 0,
    {
        Game {
            status: PhantomData,
            max_score: 0,
            cur_score: 0,
            cur,
            next,
            locations: self.locations,
            rng: self.rng,
        }
    }

    /// Starts the game on a pair drawn at random, both scores at zero.
    pub fn start(self) -> (g: Game<Active>)
        requires
            self.inv(),
            self.locs().len() > 0,
        ensures
            g.in_play(),
            g.locs() == self.locs(),
            g.best() == 0,
            g.score() == 0,
    {
        let mut game = self;
        let cur = game.gen_next_loc();
        let next = game.gen_next_loc();
        game.start_at(cur, next)
    }
}

impl Game<Active> {
    /// Whether `guess` is right about the pair in play.
    pub open spec fn is_correct_guess(&self, guess: Comparison) -> bool {
        judged_correct(truth_of(self.cur_count(), self.next_count()), guess)
    }

    /// `g` is the round after a right guess on `self`: the streak grows by
    /// one, the best score follows it, and the next location becomes the current one.
    pub open spec fn advanced_to(&self, g: Game<Active>) -> bool {
        &&& g.in_play()
        &&& g.locs() == self.locs()
        &&& g.score() == self.score() + 1
        &&& g.best() == if self.best() >= self.score() + 1 {
            self.best()
        } else {
            (self.score() + 1) as u64
        }
        &&& g.cur_index() == self.next_index()
    }

    /// `g` is the end after a wrong guess on `self`: the failing pair is kept,
    /// the streak is cleared and the best score stays.
    pub open spec fn ended_as(&self, g: Game<Done>) -> bool {
        &&& g.in_play()
        &&& g.locs() == self.locs()
        &&& g.score() == 0
        &&& g.best() == self.best()
        &&& g.cur_index() == self.cur_index()
        &&& g.next_index() == self.next_index()
    }

    /// What a guess on `self` may lead to.
    pub open spec fn guessed(&self, guess: Comparison, r: GuessResult) -> bool {
        match r {
            GuessResult::Correct(g) => self.is_correct_guess(guess) && self.advanced_to(g),
            GuessResult::Incorrect(g) => !self.is_correct_guess(guess) && self.ended_as(g),
        }
    }

    /// Judges `guess`; on a right one, `pick` becomes the next location.
    pub fn guess_with(self, guess: Comparison, pick: usize) -> (r: GuessResult)
        requires
            self.in_play(),
            self.score() < u64::MAX,
            pick < self.locs().len(),
        ensures
            self.guessed(guess, r),
            r matches GuessResult::Correct(g) ==> g.next_index() == pick,
    {
        let truth = self.get_truth();
        let is_correct = match (truth, guess) {
            (Comparison::Higher, Comparison::Higher) => true,
            (Comparison::Lower, Comparison::Lower) => true,
            (Comparison::Equal, _) => true,
            (_, _) => false,
        };
        if is_correct {
            let score = self.cur_score + 1;
            let best = if self.max_score >= score {
                self.max_score
            } else {
                score
            };
            GuessResult::Correct(Game {
                status: PhantomData,
                max_score: best,
                cur_score: score,
                cur: self.next,
                next: pick,
                locations: self.locations,
                rng: self.rng,
            })
        } else {
            GuessResult::Incorrect(Game {
                status: PhantomData,
                max_score: self.max_score,
                cur_score: 0,
                cur: self.cur,
                next: self.next,
                locations: self.locations,
                rng: self.rng,
            })
        }
    }

    /// Judges `guess`; on a right one the next location is drawn at random.
    pub fn guess(self, guess: Comparison) -> (r: GuessResult)
        requires
            self.in_play(),
            self.score() < u64::MAX,
        ensures
            self.guessed(guess, r),
    {
        let mut game = self;
        let pick = game.gen_next_loc();
        game.guess_with(guess, pick)
    }

    /// The location shown first.
    pub fn get_cur_loc(&self) -> (r: &Location)
        requires
            self.in_play(),
        ensures
            *r == self.locs()[self.cur_index()],
    {
        &self.locations[self.cur]
    }

    /// The location whose count is to be guessed against the first.
    pub fn get_next_loc(&self) -> (r: &Location)
        requires
            self.in_play(),
        ensures
            *r == self.locs()[self.next_index()],
    {
        &self.locations[self.next]
    }

    /// How the next count stands to the current one.
    fn get_truth(&self) -> (r: Comparison)
        requires
            self.in_play(),
        ensures
            r == truth_of(self.cur_count(), self.next_count()),
    {
        let cur = self.get_cur_loc().count;
        let next = self.get_next_loc().count;
        if next > cur {
            Comparison::Higher
        } else if next < cur {
            Comparison::Lower
        } else {
            Comparison::Equal
        }
    }
}

/// When the two locations in play have the same count, any guess is right and
/// the game goes on.
pub proof fn lemma_equal_counts_any_guess_right(g: Game<Active>, guess: Comparison, r: GuessResult)
    requires
        g.in_play(),
        g.cur_count() == g.next_count(),
        g.guessed(guess, r),
    ensures
        g.is_correct_guess(guess),
        r is Correct,
{
}

impl Game<Done> {
    /// Plays again from the failing pair: its second location becomes the
    /// current one and `pick` the next; the streak starts at zero and the best
    /// score stays.
    pub fn restart_with(self, pick: usize) -> (g: Game<Active>)
        requires
            self.in_play(),
            pick < self.locs().len(),
        ensures
            g.in_play(),
            g.locs() == self.locs(),
            g.best() == self.best(),
            g.score() == 0,
            g.cur_index() == self.next_index(),
            g.next_index() == pick,
    {
        Game {
            status: PhantomData,
            max_score: self.max_score,
            cur_score: 0,
            cur: self.next,
            next: pick,
            locations: self.locations,
            rng: self.rng,
        }
    }

    /// Plays again as `restart_with` does, with the next location drawn at random.
    pub fn restart(self) -> (g: Game<Active>)
        requires
            self.in_play(),
        ensures
            g.in_play(),
            g.locs() == self.locs(),
            g.best() == self.best(),
            g.score() == 0,
            g.cur_index() == self.next_index(),
    {
        let mut game = self;
        let pick = game.gen_next_loc();
        game.restart_with(pick)
    }

    /// The location shown first.
    pub fn get_cur_loc(&self) -> (r: &Location)
        requires
            self.in_play(),
        ensures
            *r == self.locs()[self.cur_index()],
    {
        &self.locations[self.cur]
    }

    /// The location whose count is to be guessed against the first.
    pub fn get_next_loc(&self) -> (r: &Location)
        requires
            self.in_play(),
        ensures
            *r == self.locs()[self.next_index()],
    {
        &self.locations[self.next]
    }
}

} // verus!
