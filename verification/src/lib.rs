//! A single-player word-guessing game: the round engine, the validation of
//! what the player types, the word source and the game session.  Everything
//! here works on plain values; reading the keyboard, reading files and
//! styling the terminal are left to the program built on top.

pub mod game;
pub mod input;
pub mod laws;
pub mod letters;
pub mod round;
pub mod text;
pub mod words;

pub use game::{
    finish_round, game_init, play_guess, scoreboard, start_round, GameProgress, RoundScore, Turn,
};
pub use input::{evaluate_input, play_or_stop, user_guess, INVALID, QUIT};
pub use round::{
    get_hidden_word, hide_word, is_round_complete, is_well_formed, render_progress, round_init, show_progress,
    submit_guess, GuessOutcome, HiddenChar, RoundDisplay, RoundProgress, RoundStatus,
    MAX_FAILED_ATTEMPTS, PLACEHOLDER,
};
pub use words::get_list;
