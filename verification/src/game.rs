//! The game session: the rounds played, the words left to play and the total of points.

use vstd::prelude::*;
use crate::input::QUIT;
use crate::round::{
    after_guess, get_hidden_word, is_round_complete, new_round, outcome_of, round_init,
    submit_guess, GuessOutcome, RoundProgress, RoundStatus, RoundView,
};
use crate::words::texts;

verus! {

/// A game: its rounds in the order in which they were played, the words that are left,
/// of which the last is played next, and the points counted so far.
pub struct GameProgress {
    pub rounds: Vec<RoundProgress>,
    pub words_list: Vec<String>,
    pub total_points: i64,
}

/// The mathematical value of a game.
pub struct GameView {
    pub rounds: Seq<RoundView>,
    pub words: Seq<Seq<char>>,
    pub total_points: int,
}

/// The values of a list of rounds.
pub open spec fn round_views(rounds: Seq<RoundProgress>) -> Seq<RoundView> {
    Seq::new(rounds.len(), |i: int| rounds[i]@)
}

impl View for GameProgress {
    type V = GameView;

    open spec fn view(&self) -> GameView {
        GameView {
            rounds: round_views(self.rounds@),
            words: texts(self.words_list@),
            total_points: self.total_points as int,
        }
    }
}

impl GameView {
    /// Every round of the game is well formed.
    pub open spec fn wf(self) -> bool {
        forall|i: int| 0 <= i < self.rounds.len() ==> (#[trigger] self.rounds[i]).wf()
    }

    /// The game after the start of its next round: the last word of the list leaves the
    /// list and a new round on it joins the rounds.  With no word left nothing changes.
    pub open spec fn with_next_round(self) -> GameView {
        if self.words.len() == 0 {
            self
        } else {
            GameView {
                rounds: self.rounds.push(new_round(self.words.last())),
                words: self.words.drop_last(),
                total_points: self.total_points,
            }
        }
    }

    /// The game after a guess in its current round, which is the last one.
    pub open spec fn with_guess(self, guess: char) -> GameView {
        GameView {
            rounds: self.rounds.update(
                self.rounds.len() - 1,
                after_guess(self.rounds.last(), guess),
            ),
            words: self.words,
            total_points: self.total_points,
        }
    }
}

/// Starts a game on a list of words.
pub fn game_init(words_list: Vec<String>) -> (game: GameProgress)
    ensures
        game@ == (GameView { rounds: Seq::empty(), words: texts(words_list@), total_points: 0 }),
        game@.wf(),
{
    let game = GameProgress { words_list, rounds: Vec::new(), total_points: 0 };
    assert(game@.rounds =~= Seq::empty());
    game
}

/// Starts the next round on the last word of the list, if a word is left, and tells
/// whether it did.  With no word left the game is over and stays as it is.
pub fn start_round(game: &mut GameProgress) -> (started: bool)
    ensures
        started == (old(game)@.words.len() > 0),
        final(game)@ == old(game)@.with_next_round(),
        old(game)@.wf() ==> final(game)@.wf(),
{
    match game.words_list.pop() {
        Some(word) => {
            let round = round_init(word.as_str());
            game.rounds.push(round);
            proof {
                assert(game@.words =~= old(game)@.words.drop_last());
                assert(old(game)@.words.last() == word@);
                assert(game@.rounds =~= old(game)@.rounds.push(new_round(word@)));
            }
            true
        },
        None => {
            assert(game@.words =~= old(game)@.words);
            false
        },
    }
}

/// What one turn of the player comes to.
#[derive(Clone, Copy, Debug, PartialEq, Eq, Structural)]
pub enum Turn {
    /// The player asked to leave: the game stops and the round stays unfinished.
    Stopped,
    /// The guess was applied and the round goes on.
    Ongoing(GuessOutcome),
    /// The guess was applied and the round has ended.
    Done(GuessOutcome),
}

/// Plays one turn in the current round, which is the last of the game.  `QUIT` stops the
/// game and changes nothing; any other character is a guess.
pub fn play_guess(game: &mut GameProgress, guess: char) -> (turn: Turn)
    requires
        old(game).rounds@.len() > 0,
        old(game)@.rounds.last().wf(),
        old(game).rounds@.last().hidden_word@.len() <= i64::MAX,
    ensures
        final(game)@.rounds.last().wf(),
        old(game)@.wf() ==> final(game)@.wf(),
        guess == QUIT ==> turn == Turn::Stopped && final(game)@ == old(game)@,
        guess != QUIT ==> final(game)@ == old(game)@.with_guess(guess) && turn == ({
            let outcome = outcome_of(old(game)@.rounds.last(), guess);
            if after_guess(old(game)@.rounds.last(), guess).status == RoundStatus::Ongoing {
                Turn::Ongoing(outcome)
            } else {
                Turn::Done(outcome)
            }
        }),
{
    if guess == QUIT {
        return Turn::Stopped;
    }
    let index: usize = game.rounds.len() - 1;
    let outcome = submit_guess(&mut game.rounds[index], guess);
    proof {
        assert(game@.rounds =~= old(game)@.with_guess(guess).rounds);
    }
    if is_round_complete(&game.rounds[index].status) {
        Turn::Done(outcome)
    } else {
        Turn::Ongoing(outcome)
    }
}

/// Counts the points of the current round, which is the last of the game, into the
/// total.  It is called once when a round is over, whether it was played to its end or
/// left by the player.
pub fn finish_round(game: &mut GameProgress)
    requires
        old(game).rounds@.len() > 0,
        i64::MIN <= old(game).total_points + old(game).rounds@.last().points <= i64::MAX,
    ensures
        final(game)@.rounds == old(game)@.rounds,
        final(game)@.words == old(game)@.words,
        final(game)@.total_points == old(game)@.total_points + old(game)@.rounds.last().points,
{
    let index: usize = game.rounds.len() - 1;
    game.total_points += game.rounds[index].points;
}

/// One entry of the score board.
pub struct RoundScore {
    /// The number of the round, counted from one.
    pub number: usize,
    /// The word of the round.
    pub word: String,
    /// How the round ended, or that it did not.
    pub status: RoundStatus,
    /// The points of the round.
    pub points: i64,
    /// The number of wrong letters.
    pub failed_attempts: usize,
}

impl RoundScore {
    /// Whether this entry tells of `round`, played as number `number`.
    pub open spec fn tells_of(self, number: int, round: RoundView) -> bool {
        &&& self.number == number
        &&& self.word@ == round.word
        &&& self.status == round.status
        &&& self.points == round.points
        &&& self.failed_attempts == round.failed.len()
    }
}

/// Draws up the score board: one entry for each round, in the order of play.
pub fn scoreboard(game: &GameProgress) -> (board: Vec<RoundScore>)
    ensures
        board@.len() == game@.rounds.len(),
        forall|i: int|
            0 <= i < board@.len() ==> (#[trigger] board@[i]).tells_of(i + 1, game@.rounds[i]),
{
    let mut board: Vec<RoundScore> = Vec::new();
    let mut i: usize = 0;
    while i < game.rounds.len()
        invariant
            i <= game.rounds.len(),
            board@.len() == i,
            forall|j: int|
                0 <= j < i ==> (#[trigger] board@[j]).tells_of(j + 1, game@.rounds[j]),
        decreases game.rounds.len() - i,
    {
        let round = &game.rounds[i];
        let score = RoundScore {
            number: i + 1,
            word: get_hidden_word(round),
            status: round.status,
            points: round.points,
            failed_attempts: round.failed_attempts.len(),
        };
        board.push(score);
        i += 1;
    }
    board
}

} // verus!
