//! Game configuration and its validation.
//!
//! A game runs either in manual mode (one player enters a secret phrase)
//! or in random mode (a phrase is drawn from a filtered pool). Validation
//! only checks that the random mode's ranges are ordered; everything else
//! is the input boundary's business.

use crate::score::MAX_WRONG_GUESS_BUDGET;
use vstd::prelude::*;

verus! {

/// A configuration error found before any game starts.
#[derive(Debug, Clone, PartialEq, Eq, Structural)]
pub enum ValidationError {
    /// Random mode: the filter matched no entries at all.
    NoWordsFound,
    /// Random mode: the filter matched no entries beyond those already played.
    NoMoreWordsFound,
    /// Random mode: the minimum phrase length exceeds the maximum.
    MinLengthIsBiggerThanMaxLength { min_length: u8, max_length: u8 },
    /// Random mode: the minimum coolness score exceeds the maximum.
    MinScoreIsBiggerThanMaxScore { min_score: u8, max_score: u8 },
}

impl ValidationError {
    /// A plain description of the error, for the boundary to display.
    pub fn message(&self) -> (r: &'static str)
        ensures
            r@.len() > 0,
    {
        proof {
            reveal_strlit("Could not find any words using the given parameters");
            reveal_strlit("Could not find any more words using the given parameters");
            reveal_strlit("Min word length must be smaller than max length");
            reveal_strlit("Min word score must be smaller than max score");
        }
        match self {
            ValidationError::NoWordsFound => "Could not find any words using the given parameters",
            ValidationError::NoMoreWordsFound => "Could not find any more words using the given parameters",
            ValidationError::MinLengthIsBiggerThanMaxLength { .. } => "Min word length must be smaller than max length",
            ValidationError::MinScoreIsBiggerThanMaxScore { .. } => "Min word score must be smaller than max score",
        }
    }
}

/// A configuration that can say, exactly, whether it is acceptable.
pub trait Validatable {
    /// What `validate` returns.
    spec fn validate_spec(&self) -> Result<(), ValidationError>;

    fn validate(&self) -> (r: Result<(), ValidationError>)
        ensures
            r == self.validate_spec(),
    ;
}

/// Options of a random-mode game: bounds on phrase length and on the
/// coolness score, and the wrong-guess budget.
#[derive(Debug, Clone, PartialEq, Eq, Structural)]
pub struct RandomGame {
    /// Minimum number of letters a phrase should have.
    pub min_length: u8,
    /// Maximum number of letters a phrase should have.
    pub max_length: u8,
    /// Minimum coolness score (0-100).
    pub min_score: u8,
    /// Maximum coolness score (0-100).
    pub max_score: u8,
    /// How many wrong guesses a round may survive.
    pub max_wrong_guesses: u8,
}

impl Validatable for RandomGame {
    open spec fn validate_spec(&self) -> Result<(), ValidationError> {
        if self.min_length > self.max_length {
            Err(
                ValidationError::MinLengthIsBiggerThanMaxLength {
                    min_length: self.min_length,
                    max_length: self.max_length,
                },
            )
        } else if self.min_score > self.max_score {
            Err(
                ValidationError::MinScoreIsBiggerThanMaxScore {
                    min_score: self.min_score,
                    max_score: self.max_score,
                },
            )
        } else {
            Ok(())
        }
    }

    fn validate(&self) -> (r: Result<(), ValidationError>) {
        if self.min_length > self.max_length {
            Err(
                ValidationError::MinLengthIsBiggerThanMaxLength {
                    min_length: self.min_length,
                    max_length: self.max_length,
                },
            )
        } else if self.min_score > self.max_score {
            Err(
                ValidationError::MinScoreIsBiggerThanMaxScore {
                    min_score: self.min_score,
                    max_score: self.max_score,
                },
            )
        } else {
            Ok(())
        }
    }
}

/// Options of a manual-mode game: only the wrong-guess budget.
#[derive(Debug, Clone, PartialEq, Eq, Structural)]
pub struct ManualGame {
    /// How many wrong guesses a round may survive.
    pub max_wrong_guesses: u8,
}

impl Validatable for ManualGame {
    open spec fn validate_spec(&self) -> Result<(), ValidationError> {
        Ok(())
    }

    fn validate(&self) -> (r: Result<(), ValidationError>) {
        Ok(())
    }
}

/// The two ways of playing.
#[derive(Debug, Clone, PartialEq, Eq, Structural)]
pub enum GameMode {
    /// Phrases are drawn at random from a filtered pool.
    Random(RandomGame),
    /// One player enters a phrase for another to guess.
    Manual(ManualGame),
}

impl GameMode {
    /// The wrong-guess budget of whichever mode is in use.
    pub open spec fn max_wrong_spec(&self) -> u8 {
        match self {
            GameMode::Random(r) => r.max_wrong_guesses,
            GameMode::Manual(m) => m.max_wrong_guesses,
        }
    }

    pub fn max_wrong(&self) -> (r: u8)
        ensures
            r == self.max_wrong_spec(),
    {
        match self {
            GameMode::Random(r) => r.max_wrong_guesses,
            GameMode::Manual(m) => m.max_wrong_guesses,
        }
    }

    /// The wrong-guess budget fits the integer scoring.
    pub open spec fn wf(&self) -> bool {
        self.max_wrong_spec() <= MAX_WRONG_GUESS_BUDGET
    }
}

impl Validatable for GameMode {
    open spec fn validate_spec(&self) -> Result<(), ValidationError> {
        match self {
            GameMode::Manual(m) => m.validate_spec(),
            GameMode::Random(r) => r.validate_spec(),
        }
    }

    fn validate(&self) -> (r: Result<(), ValidationError>) {
        match self {
            GameMode::Manual(m) => m.validate(),
            GameMode::Random(r) => r.validate(),
        }
    }
}

/// The whole validated configuration of one session.
#[derive(Debug, Clone, PartialEq, Eq, Structural)]
pub struct HangmanCliOptions {
    pub mode: GameMode,
}

impl HangmanCliOptions {
    /// The configuration the game core accepts.
    pub open spec fn wf(&self) -> bool {
        self.mode.wf()
    }
}

impl Validatable for HangmanCliOptions {
    open spec fn validate_spec(&self) -> Result<(), ValidationError> {
        self.mode.validate_spec()
    }

    fn validate(&self) -> (r: Result<(), ValidationError>) {
        self.mode.validate()
    }
}

} // verus!
