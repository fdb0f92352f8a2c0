use hangman::{
    get_hidden_word, hide_word, is_round_complete, is_well_formed, render_progress, round_init,
    show_progress,
    submit_guess, GuessOutcome, HiddenChar, RoundProgress, RoundStatus, MAX_FAILED_ATTEMPTS,
};

#[test]
fn test_hide_empty_word() {
    let input = String::from("");
    let target = hide_word(&input);

    assert_eq!(target.is_empty(), true);
}

#[test]
fn test_hide_none_empty_word() {
    let input = String::from("test word");
    let target = hide_word(&input);

    // Assert non-empty
    assert_eq!(target.is_empty(), false);

    // Assert data matches
    let mut input_ch = input.chars();
    for target_ch in target {
        assert_eq!(target_ch.character, input_ch.next().unwrap());
        assert_eq!(target_ch.is_hidden, true);
    }
}

#[test]
fn test_get_empty_hidden_word() {
    let target = RoundProgress {
        hidden_word: Vec::new(),
        failed_attempts: Vec::new(),
        status: RoundStatus::Ongoing,
        points: 0,
    };
    assert_eq!(get_hidden_word(&target), String::from(""));
}

#[test]
fn test_get_non_empty_hidden_word() {
    let input = String::from("test word");
    let target = round_init(&input);

    // Assert non-empty
    assert_eq!(target.hidden_word.is_empty(), false);

    // Assert data matches
    let mut input_ch = input.chars();
    for target_ch in target.hidden_word {
        assert_eq!(target_ch.character, input_ch.next().unwrap());
        assert_eq!(target_ch.is_hidden, true);
    }
}

#[test]
fn hide_word_keeps_length_and_order() {
    let target = hide_word("cat");
    assert_eq!(
        target,
        vec![
            HiddenChar { character: 'c', is_hidden: true },
            HiddenChar { character: 'a', is_hidden: true },
            HiddenChar { character: 't', is_hidden: true },
        ]
    );
}

#[test]
fn get_hidden_word_gives_the_word_back() {
    let mut round = round_init("Hello");
    assert_eq!(get_hidden_word(&round), "Hello");
    submit_guess(&mut round, 'l');
    assert_eq!(get_hidden_word(&round), "Hello");
}

#[test]
fn round_starts_ongoing_with_nothing_counted() {
    let round = round_init("cat");
    assert_eq!(round.status, RoundStatus::Ongoing);
    assert_eq!(round.points, 0);
    assert!(round.failed_attempts.is_empty());
    assert_eq!(round.hidden_word.len(), 3);
}

#[test]
fn round_complete_for_won_and_lost_only() {
    assert_eq!(is_round_complete(&RoundStatus::Ongoing), false);
    assert_eq!(is_round_complete(&RoundStatus::Lost), true);
    assert_eq!(is_round_complete(&RoundStatus::Won), true);
}

#[test]
fn status_in_words() {
    assert_eq!(RoundStatus::Ongoing.to_string(), "Ongoing");
    assert_eq!(RoundStatus::Lost.to_string(), "Lost");
    assert_eq!(RoundStatus::Won.to_string(), "Won");
}

#[test]
fn limit_of_failed_attempts_is_seven() {
    assert_eq!(MAX_FAILED_ATTEMPTS, 7);
}

#[test]
fn render_shows_one_sign_per_letter() {
    let mut round = round_init("cat");
    assert_eq!(render_progress(&round), "_ _ _ ");
    submit_guess(&mut round, 'a');
    assert_eq!(render_progress(&round), "_ a _ ");
    let text: Vec<char> = render_progress(&round).chars().collect();
    assert_eq!(text.len(), 2 * 3);
    let signs: Vec<char> = text.iter().copied().step_by(2).collect();
    assert_eq!(signs, vec!['_', 'a', '_']);
    assert!(text.iter().skip(1).step_by(2).all(|c| *c == ' '));
}

#[test]
fn render_counts_characters_not_bytes() {
    let round = round_init("caf\u{e9}s");
    let text: Vec<char> = render_progress(&round).chars().collect();
    assert_eq!(text.len(), 10);
}

#[test]
fn cat_is_won_by_c_a_t() {
    let mut round = round_init("cat");
    assert_eq!(submit_guess(&mut round, 'c'), GuessOutcome::Correct);
    assert_eq!(round.status, RoundStatus::Ongoing);
    assert_eq!(submit_guess(&mut round, 'a'), GuessOutcome::Correct);
    assert_eq!(round.status, RoundStatus::Ongoing);
    assert_eq!(submit_guess(&mut round, 't'), GuessOutcome::Correct);
    assert_eq!(round.status, RoundStatus::Won);
    assert_eq!(round.failed_attempts.len(), 0);
    assert_eq!(round.points, 3);
    assert_eq!(render_progress(&round), "c a t ");
}

#[test]
fn cat_is_won_in_any_order() {
    for order in [['c', 'a', 't'], ['t', 'a', 'c'], ['a', 't', 'c'], ['t', 'c', 'a']] {
        let mut round = round_init("cat");
        for guess in order {
            submit_guess(&mut round, guess);
        }
        assert_eq!(round.status, RoundStatus::Won);
        assert_eq!(round.points, 3);
    }
}

#[test]
fn cat_is_lost_by_seven_wrong_letters() {
    let mut round = round_init("cat");
    let wrong = ['b', 'd', 'e', 'f', 'g', 'h', 'i'];
    for (n, guess) in wrong.iter().enumerate() {
        assert_eq!(round.status, RoundStatus::Ongoing);
        assert_eq!(submit_guess(&mut round, *guess), GuessOutcome::Wrong);
        assert_eq!(round.failed_attempts.len(), n + 1);
    }
    assert_eq!(round.status, RoundStatus::Lost);
    assert_eq!(round.failed_attempts, wrong.to_vec());
    assert_eq!(round.points, 0);
    assert_eq!(render_progress(&round), "_ _ _ ");
    assert!(round.hidden_word.iter().all(|letter| letter.is_hidden));
}

#[test]
fn six_wrong_letters_do_not_lose() {
    let mut round = round_init("cat");
    for guess in ['b', 'd', 'e', 'f', 'g', 'h'] {
        submit_guess(&mut round, guess);
    }
    assert_eq!(round.failed_attempts.len(), 6);
    assert_eq!(round.status, RoundStatus::Ongoing);
    submit_guess(&mut round, 'i');
    assert_eq!(round.failed_attempts.len(), 7);
    assert_eq!(round.status, RoundStatus::Lost);
}

#[test]
fn empty_word_is_won_at_once() {
    let round = round_init("");
    assert_eq!(render_progress(&round), "");
    assert_eq!(round.status, RoundStatus::Won);
    assert_eq!(round.points, 0);
}

#[test]
fn same_correct_letter_twice_counts_once() {
    let mut round = round_init("letter");
    assert_eq!(submit_guess(&mut round, 't'), GuessOutcome::Correct);
    assert_eq!(round.points, 2);
    let shown = render_progress(&round);
    assert_eq!(shown, "_ _ t t _ _ ");
    assert_eq!(submit_guess(&mut round, 't'), GuessOutcome::Repeated);
    assert_eq!(round.points, 2);
    assert_eq!(render_progress(&round), shown);
    assert_eq!(round.failed_attempts.len(), 0);
    assert_eq!(round.status, RoundStatus::Ongoing);
}

#[test]
fn same_wrong_letter_twice_counts_once() {
    let mut round = round_init("cat");
    assert_eq!(submit_guess(&mut round, 'z'), GuessOutcome::Wrong);
    assert_eq!(round.failed_attempts.len(), 1);
    assert_eq!(submit_guess(&mut round, 'z'), GuessOutcome::Repeated);
    assert_eq!(round.failed_attempts.len(), 1);
    assert_eq!(submit_guess(&mut round, 'Z'), GuessOutcome::Repeated);
    assert_eq!(round.failed_attempts.len(), 1);
    assert_eq!(round.failed_attempts, vec!['z']);
}

#[test]
fn each_guess_scores_the_letters_it_shows() {
    let mut round = round_init("banana");
    submit_guess(&mut round, 'a');
    assert_eq!(round.points, 3);
    submit_guess(&mut round, 'x');
    assert_eq!(round.points, 3);
    submit_guess(&mut round, 'n');
    assert_eq!(round.points, 5);
    submit_guess(&mut round, 'b');
    assert_eq!(round.points, 6);
    assert_eq!(round.status, RoundStatus::Won);
    assert_eq!(round.failed_attempts, vec!['x']);
}

#[test]
fn guesses_match_in_either_case() {
    let mut round = round_init("Cat");
    assert_eq!(submit_guess(&mut round, 'c'), GuessOutcome::Correct);
    assert_eq!(render_progress(&round), "C _ _ ");
    assert_eq!(submit_guess(&mut round, 'A'), GuessOutcome::Correct);
    assert_eq!(render_progress(&round), "C a _ ");
    assert_eq!(round.points, 2);
}

#[test]
fn case_is_folded_for_ascii_letters_only() {
    let mut round = round_init("[k");
    // '[' and '{' differ by 32 as 'A' and 'a' do, but are no letters
    assert_eq!(submit_guess(&mut round, '{'), GuessOutcome::Wrong);
    assert_eq!(submit_guess(&mut round, '\u{212a}'), GuessOutcome::Wrong);
    assert_eq!(round.failed_attempts.len(), 2);
    assert_eq!(submit_guess(&mut round, 'K'), GuessOutcome::Correct);
}

#[test]
fn a_round_that_ended_takes_no_guess() {
    let mut lost = round_init("cat");
    for guess in ['b', 'd', 'e', 'f', 'g', 'h', 'i'] {
        submit_guess(&mut lost, guess);
    }
    assert_eq!(submit_guess(&mut lost, 'c'), GuessOutcome::Ignored);
    assert_eq!(lost.status, RoundStatus::Lost);
    assert_eq!(lost.points, 0);
    assert_eq!(render_progress(&lost), "_ _ _ ");
    assert_eq!(submit_guess(&mut lost, 'j'), GuessOutcome::Ignored);
    assert_eq!(lost.failed_attempts.len(), 7);

    let mut won = round_init("a");
    submit_guess(&mut won, 'a');
    assert_eq!(won.status, RoundStatus::Won);
    assert_eq!(submit_guess(&mut won, 'z'), GuessOutcome::Ignored);
    assert_eq!(won.status, RoundStatus::Won);
    assert!(won.failed_attempts.is_empty());
    assert_eq!(won.points, 1);
}

#[test]
fn last_letter_wins_even_after_six_wrong() {
    let mut round = round_init("ab");
    for guess in ['c', 'd', 'e', 'f', 'g', 'h'] {
        submit_guess(&mut round, guess);
    }
    submit_guess(&mut round, 'a');
    submit_guess(&mut round, 'b');
    assert_eq!(round.status, RoundStatus::Won);
    assert_eq!(round.failed_attempts.len(), 6);
}

#[test]
fn display_gives_the_word_away_at_the_end_only() {
    let mut round = round_init("ox");
    submit_guess(&mut round, 'q');
    let shown = show_progress(&round);
    assert_eq!(shown.failed_attempts, 1);
    assert_eq!(shown.progress, "_ _ ");
    assert_eq!(shown.status, RoundStatus::Ongoing);
    assert_eq!(shown.answer, None);

    submit_guess(&mut round, 'o');
    submit_guess(&mut round, 'x');
    let shown = show_progress(&round);
    assert_eq!(shown.failed_attempts, 1);
    assert_eq!(shown.progress, "o x ");
    assert_eq!(shown.status, RoundStatus::Won);
    assert_eq!(shown.answer, Some(String::from("ox")));
}

#[test]
fn rounds_that_play_reaches_are_well_formed() {
    let mut round = round_init("banana");
    assert!(is_well_formed(&round));
    for guess in ['a', 'x', 'X', 'n', 'q', 'a', 'b', 'z'] {
        submit_guess(&mut round, guess);
        assert!(is_well_formed(&round));
    }
    assert!(is_well_formed(&round_init("")));
}

#[test]
fn rounds_that_play_cannot_reach_are_not_well_formed() {
    let good = || {
        let mut round = round_init("cat");
        submit_guess(&mut round, 'c');
        submit_guess(&mut round, 'x');
        round
    };
    assert!(is_well_formed(&good()));

    let mut round = good();
    round.points = 2;
    assert!(!is_well_formed(&round));

    let mut round = good();
    round.points = -1;
    assert!(!is_well_formed(&round));

    let mut round = good();
    round.failed_attempts.push('X');
    assert!(!is_well_formed(&round));

    let mut round = good();
    round.failed_attempts.push('T');
    assert!(!is_well_formed(&round));

    let mut round = good();
    round.status = RoundStatus::Won;
    assert!(!is_well_formed(&round));

    let mut round = good();
    round.status = RoundStatus::Lost;
    assert!(!is_well_formed(&round));

    let mut round = good();
    round.failed_attempts = vec!['b', 'd', 'e', 'f', 'g', 'h', 'i', 'j'];
    round.status = RoundStatus::Lost;
    assert!(!is_well_formed(&round));

    let empty_but_ongoing = RoundProgress {
        hidden_word: Vec::new(),
        failed_attempts: Vec::new(),
        status: RoundStatus::Ongoing,
        points: 0,
    };
    assert!(!is_well_formed(&empty_but_ongoing));
}
