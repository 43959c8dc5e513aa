//! Core of a terminal hangman game: validated configuration, a word-pool
//! filter, and the scene state machine with guess evaluation and scoring.
//! The surrounding program renders scenes, reads input and supplies the
//! corpus; everything that decides or computes lives here.

pub mod game_state;
pub mod letters;
pub mod render;
pub mod score;
pub mod validation;
pub mod word_list;

use vstd::prelude::*;

verus! {

use crate::game_state::{EndFeedback, GameScene, GameState};
use crate::validation::{GameMode, HangmanCliOptions};
use crate::word_list::filtered_phrases;

/// Builds the opening state of a hangman session from a validated
/// configuration and the corpus lines, exactly as `GameState::new` states
/// it; the caller then drives rendering and input, feeding each event into
/// a transition of the returned state.
pub fn hangman_game(args: HangmanCliOptions, corpus_lines: &Vec<String>) -> (r: GameState)
    requires
        args.wf(),
    ensures
        r.wf(),
        r.args == args,
        r.score == 0,
        r.rounds_played == 0,
        r.played_words@.len() == 0,
        args.mode matches GameMode::Manual(_) ==> r.scene is Init && r.unplayed_words@.len() == 0,
        args.mode matches GameMode::Random(rg) ==> {
            let pool = filtered_phrases(
                corpus_lines.deep_view(),
                rg.min_length,
                rg.max_length,
                rg.min_score,
                rg.max_score,
            );
            &&& r.unplayed_words.deep_view().to_multiset() == pool.to_multiset()
            &&& r.unplayed_words@.len() == pool.len()
            &&& (pool.len() > 0 ==> r.scene is Init)
            &&& (pool.len() == 0 ==> r.scene == (GameScene::GameEnd {
                feedback: EndFeedback::NoWordsFound,
            }))
        },
{
    GameState::new(args, corpus_lines)
}

} // verus!
