use hangman::{evaluate_input, play_or_stop, user_guess, INVALID, QUIT};

#[test]
fn test_evaluate_valid_user_input() {
    assert_eq!(evaluate_input(&"0"), '0');
    assert_eq!(evaluate_input(&"a"), 'a');
    assert_eq!(evaluate_input(&"A"), 'a');
    assert_eq!(evaluate_input(&"A "), 'a');
    assert_eq!(evaluate_input(&" A"), 'a');
    assert_eq!(evaluate_input(&" A "), 'a');

}

#[test]
fn test_evaluate_invalid_user_inputs() {
    assert_eq!(evaluate_input(&""), '!');
    assert_eq!(evaluate_input(&" "), '!');
    assert_eq!(evaluate_input(&"6"), '!');
    assert_eq!(evaluate_input(&"@"), '!');
    assert_eq!(evaluate_input(&"not char"), '!');
}

#[test]
fn the_two_signs() {
    assert_eq!(INVALID, '!');
    assert_eq!(QUIT, '0');
}

#[test]
fn case_and_padding_make_no_difference() {
    for line in ["A", "a ", " a", " A ", "a\n", "\tA\r\n", "  a  "] {
        assert_eq!(evaluate_input(line), 'a');
    }
    assert_eq!(evaluate_input("Z\n"), 'z');
    assert_eq!(evaluate_input(" 0\n"), '0');
}

#[test]
fn every_unicode_white_space_is_trimmed() {
    let spaces = [
        '\u{9}', '\u{a}', '\u{b}', '\u{c}', '\u{d}', '\u{20}', '\u{85}', '\u{a0}', '\u{1680}',
        '\u{2000}', '\u{2001}', '\u{2002}', '\u{2003}', '\u{2004}', '\u{2005}', '\u{2006}',
        '\u{2007}', '\u{2008}', '\u{2009}', '\u{200a}', '\u{2028}', '\u{2029}', '\u{202f}',
        '\u{205f}', '\u{3000}',
    ];
    for space in spaces {
        assert!(space.is_whitespace());
        let line = format!("{}q{}", space, space);
        assert_eq!(evaluate_input(&line), 'q');
    }
}

#[test]
fn what_is_no_white_space_is_not_trimmed() {
    for other in ['\u{8}', '\u{e}', '\u{1f}', '\u{200b}', '\u{180e}', '\u{feff}', '\u{2060}'] {
        assert!(!other.is_whitespace());
        let line = format!("{}q", other);
        assert_eq!(evaluate_input(&line), '!');
        assert_eq!(evaluate_input(&format!("{}", other)), '!');
    }
}

#[test]
fn trimming_agrees_with_the_standard_library() {
    for code in 0u32..0x3100 {
        if let Some(c) = char::from_u32(code) {
            let line = format!("{}k{}", c, c);
            let expected = if line.trim().chars().count() == 1 { 'k' } else { '!' };
            assert_eq!(evaluate_input(&line), expected);
        }
    }
}

#[test]
fn lower_case_agrees_with_the_standard_library() {
    for code in 0u32..0x250 {
        if let Some(c) = char::from_u32(code) {
            let line = format!("{}", c);
            let expected = if c.is_ascii_alphabetic() {
                c.to_ascii_lowercase()
            } else if c == '0' {
                '0'
            } else {
                '!'
            };
            assert_eq!(evaluate_input(&line), expected);
        }
    }
}

#[test]
fn what_is_rejected() {
    for line in [
        "", " ", "\n", " \t \n", "1", "9", "5\n", "@", "!", "?", ".", "-", "ab", "a b", "00",
        "0 0", "a0", "not char", "\u{e9}", "\u{3b1}", "\u{ff21}",
    ] {
        assert_eq!(evaluate_input(line), '!');
    }
}

#[test]
fn a_line_read_is_evaluated() {
    assert_eq!(user_guess(Some("G\n")), 'g');
    assert_eq!(user_guess(Some("0\n")), '0');
    assert_eq!(user_guess(Some("\n")), '!');
    assert_eq!(user_guess(Some("ab\n")), '!');
}

#[test]
fn closed_input_leaves_the_game() {
    assert_eq!(user_guess(None), '0');
}

#[test]
fn anything_but_zero_goes_on() {
    assert_eq!(play_or_stop(Some("\n")), true);
    assert_eq!(play_or_stop(Some("y\n")), true);
    assert_eq!(play_or_stop(Some("1\n")), true);
    assert_eq!(play_or_stop(Some(" 0\n")), true);
    assert_eq!(play_or_stop(Some("next round")), true);
}

#[test]
fn zero_stops() {
    assert_eq!(play_or_stop(Some("0\n")), false);
    assert_eq!(play_or_stop(Some("0")), false);
    assert_eq!(play_or_stop(Some("0abc\n")), false);
}

#[test]
fn unreadable_or_invalid_input_stops() {
    assert_eq!(play_or_stop(None), false);
    assert_eq!(play_or_stop(Some("")), false);
    assert_eq!(play_or_stop(Some("!\n")), false);
}
