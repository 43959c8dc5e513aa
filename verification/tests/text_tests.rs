use hangman::game_state::{GameScene, GameState, letter_in_word};
use hangman::letters::{LetterSet, to_lower};
use hangman::render::{format_guesses, format_word};
use hangman::score::round_score;
use hangman::validation::{GameMode, HangmanCliOptions, ManualGame, RandomGame, Validatable,
    ValidationError};

fn guessed(letters: &[char]) -> LetterSet {
    let mut set = LetterSet::new();
    for c in letters {
        set.insert(*c);
    }
    set
}

#[test]
fn letter_set_holds_each_letter_once() {
    let mut set = LetterSet::new();
    assert_eq!(set.len(), 0);
    assert!(!set.contains('a'));
    set.insert('a');
    set.insert('b');
    set.insert('a');
    assert_eq!(set.len(), 2);
    assert!(set.contains('a'));
    assert!(set.contains('b'));
    assert!(!set.contains('c'));
    assert_eq!(set.letter_at(0), 'a');
    assert_eq!(set.letter_at(1), 'b');
}

#[test]
fn to_lower_folds_ascii_only() {
    assert_eq!(to_lower('A'), 'a');
    assert_eq!(to_lower('Z'), 'z');
    assert_eq!(to_lower('m'), 'm');
    assert_eq!(to_lower('3'), '3');
    assert_eq!(to_lower('?'), '?');
}

#[test]
fn masked_word_hides_unguessed_letters() {
    assert_eq!(format_word("cat", &guessed(&['a']), false), "_a_");
    assert_eq!(format_word("cat", &guessed(&[]), false), "___");
    assert_eq!(format_word("cat", &guessed(&['c', 'a', 't']), false), "cat");
}

#[test]
fn masked_word_keeps_non_letters() {
    assert_eq!(format_word("it's", &guessed(&['t']), false), "_t'_");
    assert_eq!(format_word("a b", &guessed(&['b']), false), "_ b");
}

#[test]
fn masked_word_ignores_case() {
    assert_eq!(format_word("Cat", &guessed(&['c']), false), "C__");
}

#[test]
fn masked_word_with_spaces() {
    assert_eq!(format_word("cat", &guessed(&['a']), true), "_ a _");
    assert_eq!(format_word("", &guessed(&['a']), true), "");
    assert_eq!(format_word("c", &guessed(&[]), true), "_");
}

#[test]
fn guesses_show_uppercase_in_alphabetical_order() {
    assert_eq!(format_guesses(&guessed(&['t', 'a', 'c'])), "ACT");
    assert_eq!(format_guesses(&guessed(&[])), "");
    assert_eq!(format_guesses(&guessed(&['z', 'a'])), "AZ");
}

#[test]
fn letter_in_word_folds_both_sides() {
    assert!(letter_in_word("Cat", 'c'));
    assert!(letter_in_word("cat", 'a'));
    assert!(!letter_in_word("cat", 'x'));
    assert!(!letter_in_word("", 'a'));
}

#[test]
fn round_score_follows_the_formula() {
    // round(10 * 1.75^k) for k = 0, 1, 2, 6.
    assert_eq!(round_score(0), 10);
    assert_eq!(round_score(1), 18);
    assert_eq!(round_score(2), 31);
    assert_eq!(round_score(6), 287);
}

#[test]
fn validation_accepts_ordered_ranges() {
    let ok = HangmanCliOptions {
        mode: GameMode::Random(RandomGame {
            min_length: 3,
            max_length: 50,
            min_score: 51,
            max_score: 100,
            max_wrong_guesses: 6,
        }),
    };
    assert_eq!(ok.validate(), Ok(()));
}

#[test]
fn validation_rejects_crossed_lengths() {
    let bad = HangmanCliOptions {
        mode: GameMode::Random(RandomGame {
            min_length: 10,
            max_length: 5,
            min_score: 51,
            max_score: 100,
            max_wrong_guesses: 6,
        }),
    };
    assert_eq!(
        bad.validate(),
        Err(ValidationError::MinLengthIsBiggerThanMaxLength { min_length: 10, max_length: 5 })
    );
}

#[test]
fn validation_rejects_crossed_scores() {
    let bad = HangmanCliOptions {
        mode: GameMode::Random(RandomGame {
            min_length: 3,
            max_length: 50,
            min_score: 90,
            max_score: 10,
            max_wrong_guesses: 6,
        }),
    };
    assert_eq!(
        bad.validate(),
        Err(ValidationError::MinScoreIsBiggerThanMaxScore { min_score: 90, max_score: 10 })
    );
}

#[test]
fn validation_reports_lengths_before_scores() {
    let bad = HangmanCliOptions {
        mode: GameMode::Random(RandomGame {
            min_length: 10,
            max_length: 5,
            min_score: 90,
            max_score: 10,
            max_wrong_guesses: 6,
        }),
    };
    assert_eq!(
        bad.validate(),
        Err(ValidationError::MinLengthIsBiggerThanMaxLength { min_length: 10, max_length: 5 })
    );
}

#[test]
fn manual_mode_always_validates() {
    let args = HangmanCliOptions { mode: GameMode::Manual(ManualGame { max_wrong_guesses: 0 }) };
    assert_eq!(args.validate(), Ok(()));
}

#[test]
fn validation_errors_describe_themselves() {
    assert!(!ValidationError::NoWordsFound.message().is_empty());
    assert!(!ValidationError::NoMoreWordsFound.message().is_empty());
    assert!(
        !ValidationError::MinLengthIsBiggerThanMaxLength { min_length: 2, max_length: 1 }
            .message()
            .is_empty()
    );
    assert!(
        !ValidationError::MinScoreIsBiggerThanMaxScore { min_score: 2, max_score: 1 }
            .message()
            .is_empty()
    );
}

#[test]
fn masking_tracks_play() {
    let state = GameState::new(
        HangmanCliOptions { mode: GameMode::Manual(ManualGame { max_wrong_guesses: 6 }) },
        &Vec::new(),
    )
    .start_manual_game("cat".to_string())
    .make_guess('a')
    .make_guess('x');
    match &state.scene {
        GameScene::AwaitingGuess { word, letters_guessed, .. } => {
            assert_eq!(format_word(word, letters_guessed, false), "_a_");
            assert_eq!(format_guesses(letters_guessed), "AX");
        }
        _ => panic!("expected a round in progress"),
    }
}
