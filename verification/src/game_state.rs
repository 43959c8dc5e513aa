//! The scene state machine of one session.
//!
//! A session moves through `Init` -> `AwaitingGuess` -> `RoundEnd`, looping
//! back to `Init` for another round, until it reaches the terminal
//! `GameEnd`. Each transition consumes the old state and returns the new
//! one; a transition called from a scene it is not valid for is ruled out
//! by its precondition.

use crate::letters::{LetterSet, is_ascii_letter, is_letter, is_lower_letter, spec_lower, to_lower};
use crate::score::{round_score, round_score_spec};
use crate::validation::{GameMode, HangmanCliOptions};
use crate::word_list::{filtered_phrases, get_filtered_word_list};
use vstd::prelude::*;

verus! {

/// What the last guess did.
#[derive(Debug, Clone, Copy, PartialEq, Eq, Structural)]
pub enum GuessFeedback {
    LetsGo,
    Correct(char),
    Wrong(char),
    AlreadyTried(char),
    BadChar(char),
}

/// Why the session ended.
#[derive(Debug, Clone, Copy, PartialEq, Eq, Structural)]
pub enum EndFeedback {
    NoWordsFound,
    NoMoreWordsFound,
    ManuallyEnded,
}

/// The phase one session is in.
#[derive(Debug)]
pub enum GameScene {
    /// Waiting for a round to start.
    Init,
    /// A round is in progress.
    AwaitingGuess { word: String, letters_guessed: LetterSet, feedback: GuessFeedback },
    /// A round has concluded; the player decides whether to continue.
    RoundEnd { word: String, won: bool, round_score: u64, letters_guessed: LetterSet },
    /// The session is over.
    GameEnd { feedback: EndFeedback },
}

/// Whether some character of `w` folds to `c`.
pub open spec fn word_contains(w: Seq<char>, c: char) -> bool {
    exists|i: int| 0 <= i < w.len() && spec_lower(w[i]) == c
}

/// Every ASCII letter of `w`, folded to lowercase, is among `g`.
pub open spec fn all_letters_guessed(w: Seq<char>, g: Seq<char>) -> bool {
    forall|i: int|
        0 <= i < w.len() && is_ascii_letter(#[trigger] w[i]) ==> g.contains(spec_lower(w[i]))
}

/// How many of the guessed letters `g` do not occur in the word: the wrong
/// guesses made so far.
pub open spec fn count_wrong(g: Seq<char>, w: Seq<char>) -> nat
    decreases g.len(),
{
    if g.len() == 0 {
        0
    } else {
        count_wrong(g.drop_last(), w) + if word_contains(w, g.last()) {
            0nat
        } else {
            1nat
        }
    }
}

/// `a + b`, stopping at the largest 64-bit value.
pub open spec fn sat_add_u64(a: nat, b: nat) -> u64 {
    if a + b <= u64::MAX {
        (a + b) as u64
    } else {
        u64::MAX
    }
}

/// Whether some character of `word` folds to `c`, as `word_contains`
/// states it.
pub fn letter_in_word(word: &str, c: char) -> (r: bool)
    ensures
        r == word_contains(word@, c),
{
    let n = word.unicode_len();
    let mut i: usize = 0;
    while i < n
        invariant
            i <= n,
            n == word@.len(),
            forall|j: int| 0 <= j < i ==> spec_lower(word@[j]) != c,
        decreases n - i,
    {
        if to_lower(word.get_char(i)) == c {
            return true;
        }
        i = i + 1;
    }
    false
}

/// Whether every letter of `word` has been guessed, as
/// `all_letters_guessed` states it.
fn all_guessed(word: &str, g: &LetterSet) -> (r: bool)
    ensures
        r == all_letters_guessed(word@, g@),
{
    let n = word.unicode_len();
    let mut i: usize = 0;
    while i < n
        invariant
            i <= n,
            n == word@.len(),
            forall|j: int|
                0 <= j < i && is_ascii_letter(#[trigger] word@[j]) ==> g@.contains(
                    spec_lower(word@[j]),
                ),
        decreases n - i,
    {
        let c = word.get_char(i);
        if is_letter(c) {
            if !g.contains(to_lower(c)) {
                return false;
            }
        }
        i = i + 1;
    }
    true
}

/// Counts the wrong guesses made so far, as `count_wrong` states it.
fn count_wrong_guesses(g: &LetterSet, word: &str) -> (n: usize)
    ensures
        n == count_wrong(g@, word@),
{
    let len = g.len();
    let mut i: usize = 0;
    let mut count: usize = 0;
    while i < len
        invariant
            i <= len,
            len == g@.len(),
            count <= i,
            count == count_wrong(g@.subrange(0, i as int), word@),
        decreases len - i,
    {
        proof {
            assert(g@.subrange(0, i + 1).drop_last() =~= g@.subrange(0, i as int));
            assert(g@.subrange(0, i + 1).last() == g@[i as int]);
        }
        let c = g.letter_at(i);
        if !letter_in_word(word, c) {
            count = count + 1;
        }
        i = i + 1;
    }
    proof {
        assert(g@.subrange(0, g@.len() as int) =~= g@);
    }
    count
}

/// The whole state of one session.
#[derive(Debug)]
pub struct GameState {
    pub args: HangmanCliOptions,
    pub unplayed_words: Vec<String>,
    pub played_words: Vec<String>,
    pub score: u64,
    pub scene: GameScene,
    pub rounds_played: u32,
}

/// `r`'s scene waits for a guess on `word` with the guessed letters `gs`
/// and the feedback `fb`.
pub open spec fn awaiting_with(r: GameState, word: String, gs: Seq<char>, fb: GuessFeedback) -> bool {
    r.scene matches GameScene::AwaitingGuess { word: w2, letters_guessed, feedback } && w2 == word
        && letters_guessed@ == gs && feedback == fb
}

/// What one guess does: the full relation between the state before
/// (`pre`, waiting for a guess), the guessed character, and the state
/// after (`r`). The guess is folded to lowercase first; the first matching
/// rule wins: a non-letter, then a repeated letter, leave everything but
/// the feedback alone; a letter of the word is added and either finishes
/// the round won -- scoring by the wrong guesses made so far -- or stays
/// in the round; a letter not of the word is added and either exhausts
/// the budget, finishing the round lost and recording the word, or stays.
pub open spec fn make_guess_post(pre: GameState, guess: char, r: GameState) -> bool {
    let word = pre.scene->AwaitingGuess_word;
    let gs = pre.scene->AwaitingGuess_letters_guessed;
    let g = spec_lower(guess);
    let wrong = count_wrong(gs@, word@);
    &&& r.args == pre.args
    &&& r.unplayed_words == pre.unplayed_words
    &&& r.rounds_played == pre.rounds_played
    &&& (!is_ascii_letter(g) ==> awaiting_with(r, word, gs@, GuessFeedback::BadChar(g)) && r.score
        == pre.score && r.played_words == pre.played_words)
    &&& (is_ascii_letter(g) && gs@.contains(g) ==> awaiting_with(
        r,
        word,
        gs@,
        GuessFeedback::AlreadyTried(g),
    ) && r.score == pre.score && r.played_words == pre.played_words)
    &&& (is_ascii_letter(g) && !gs@.contains(g) && word_contains(word@, g) ==> {
        let gs2 = gs@.push(g);
        &&& r.played_words == pre.played_words
        &&& (all_letters_guessed(word@, gs2) ==> (r.scene matches GameScene::RoundEnd {
            word: w2,
            won,
            round_score,
            letters_guessed,
        } && w2 == word && won == true && round_score == round_score_spec(
            (pre.max_wrong() - wrong) as nat,
        ) && letters_guessed@ == gs2) && r.score == sat_add_u64(
            pre.score as nat,
            round_score_spec((pre.max_wrong() - wrong) as nat),
        ))
        &&& (!all_letters_guessed(word@, gs2) ==> awaiting_with(
            r,
            word,
            gs2,
            GuessFeedback::Correct(g),
        ) && r.score == pre.score)
    })
    &&& (is_ascii_letter(g) && !gs@.contains(g) && !word_contains(word@, g) ==> {
        let gs2 = gs@.push(g);
        &&& r.score == pre.score
        &&& (wrong + 1 > pre.max_wrong() ==> (r.scene matches GameScene::RoundEnd {
            word: w2,
            won,
            round_score,
            letters_guessed,
        } && w2 == word && won == false && round_score == 0 && letters_guessed@ == gs2)
            && r.played_words@ == pre.played_words@.push(word))
        &&& (wrong + 1 <= pre.max_wrong() ==> awaiting_with(r, word, gs2, GuessFeedback::Wrong(g))
            && r.played_words == pre.played_words)
    })
}

impl GameState {
    /// The wrong-guess budget of the configured mode.
    pub open spec fn max_wrong(self) -> nat {
        self.args.mode.max_wrong_spec() as nat
    }

    /// The internal invariant every reachable state satisfies: the budget
    /// fits the scoring, the guessed letters are a well-formed set, and a
    /// round in progress has never overspent its budget.
    pub open spec fn wf(self) -> bool {
        &&& self.args.wf()
        &&& (self.scene matches GameScene::AwaitingGuess { word, letters_guessed, .. }
            ==> letters_guessed.wf() && count_wrong(letters_guessed@, word@) <= self.max_wrong())
        &&& (self.scene matches GameScene::RoundEnd { letters_guessed, .. } ==> letters_guessed.wf())
    }

    /// Builds the initial state of a session. In manual mode the scene is
    /// `Init` and the pool stays empty. In random mode the pool is drawn
    /// through the word filter with the configured bounds; when nothing
    /// passes, the session ends at once with `NoWordsFound`.
    pub fn new(args: HangmanCliOptions, corpus_lines: &Vec<String>) -> (r: GameState)
        requires
            args.wf(),
        ensures
            r.wf(),
            r.args == args,
            r.score == 0,
            r.rounds_played == 0,
            r.played_words@.len() == 0,
            args.mode matches GameMode::Manual(_) ==> r.scene is Init && r.unplayed_words@.len()
                == 0,
            args.mode matches GameMode::Random(rg) ==> {
                let pool = filtered_phrases(
                    corpus_lines.deep_view(),
                    rg.min_length,
                    rg.max_length,
                    rg.min_score,
                    rg.max_score,
                );
                &&& r.unplayed_words.deep_view().to_multiset() == pool.to_multiset()
                &&& r.unplayed_words@.len() == pool.len()
                &&& (pool.len() > 0 ==> r.scene is Init)
                &&& (pool.len() == 0 ==> r.scene == (GameScene::GameEnd {
                    feedback: EndFeedback::NoWordsFound,
                }))
            },
    {
        let is_random = match &args.mode {
            GameMode::Random(_) => true,
            GameMode::Manual(_) => false,
        };
        if !is_random {
            GameState {
                args,
                unplayed_words: Vec::new(),
                played_words: Vec::new(),
                score: 0,
                rounds_played: 0,
                scene: GameScene::Init,
            }
        } else {
            let (min_length, max_length, min_score, max_score) = match &args.mode {
                GameMode::Random(rg) => (rg.min_length, rg.max_length, rg.min_score, rg.max_score),
                GameMode::Manual(_) => (0, 0, 0, 0),
            };
            let unplayed_words = get_filtered_word_list(
                corpus_lines,
                min_length,
                max_length,
                min_score,
                max_score,
            );
            if unplayed_words.len() > 0 {
                GameState {
                    args,
                    unplayed_words,
                    played_words: Vec::new(),
                    score: 0,
                    rounds_played: 0,
                    scene: GameScene::Init,
                }
            } else {
                GameState {
                    args,
                    unplayed_words,
                    played_words: Vec::new(),
                    score: 0,
                    rounds_played: 0,
                    scene: GameScene::GameEnd { feedback: EndFeedback::NoWordsFound },
                }
            }
        }
    }

    /// Begins a round on the given word: an empty guessed set, feedback
    /// `LetsGo`, and one more round played. Valid only from `Init`.
    pub fn start_manual_game(self, word: String) -> (r: GameState)
        requires
            self.wf(),
            self.scene is Init,
            self.rounds_played < u32::MAX,
        ensures
            r.wf(),
            r.args == self.args,
            r.unplayed_words == self.unplayed_words,
            r.played_words == self.played_words,
            r.score == self.score,
            r.rounds_played == self.rounds_played + 1,
            awaiting_with(r, word, Seq::<char>::empty(), GuessFeedback::LetsGo),
    {
        GameState {
            scene: GameScene::AwaitingGuess {
                word,
                letters_guessed: LetterSet::new(),
                feedback: GuessFeedback::LetsGo,
            },
            rounds_played: self.rounds_played + 1,
            ..self
        }
    }

    /// Pops the next phrase from the end of the pool and begins a round on
    /// it, like `start_manual_game`. With an exhausted pool the session
    /// ends with `NoMoreWordsFound` and the round count stays. Valid only
    /// from `Init`, in random mode.
    pub fn start_random_game(self) -> (r: GameState)
        requires
            self.wf(),
            self.scene is Init,
            self.args.mode is Random,
            self.rounds_played < u32::MAX,
        ensures
            r.wf(),
            r.args == self.args,
            r.played_words == self.played_words,
            r.score == self.score,
            self.unplayed_words@.len() == 0 ==> r.scene == (GameScene::GameEnd {
                feedback: EndFeedback::NoMoreWordsFound,
            }) && r.rounds_played == self.rounds_played && r.unplayed_words@
                == self.unplayed_words@,
            self.unplayed_words@.len() > 0 ==> awaiting_with(
                r,
                self.unplayed_words@.last(),
                Seq::<char>::empty(),
                GuessFeedback::LetsGo,
            ) && r.unplayed_words@ == self.unplayed_words@.drop_last() && r.rounds_played
                == self.rounds_played + 1,
    {
        let GameState { args, mut unplayed_words, played_words, score, scene: _, rounds_played } =
            self;
        match unplayed_words.pop() {
            Some(word) => GameState {
                args,
                unplayed_words,
                played_words,
                score,
                rounds_played: rounds_played + 1,
                scene: GameScene::AwaitingGuess {
                    word,
                    letters_guessed: LetterSet::new(),
                    feedback: GuessFeedback::LetsGo,
                },
            },
            None => GameState {
                args,
                unplayed_words,
                played_words,
                score,
                rounds_played,
                scene: GameScene::GameEnd { feedback: EndFeedback::NoMoreWordsFound },
            },
        }
    }

    /// Evaluates one guessed character, as `make_guess_post` states it.
    /// Valid only from `AwaitingGuess`.
    pub fn make_guess(self, guess: char) -> (r: GameState)
        requires
            self.wf(),
            self.scene is AwaitingGuess,
        ensures
            r.wf(),
            make_guess_post(self, guess, r),
    {
        let ghost pre = self;
        let GameState { args, unplayed_words, played_words, score, scene, rounds_played } = self;
        match scene {
            GameScene::AwaitingGuess { word, mut letters_guessed, feedback: _ } => {
                let g = to_lower(guess);
                if !is_letter(g) {
                    GameState {
                        args,
                        unplayed_words,
                        played_words,
                        score,
                        rounds_played,
                        scene: GameScene::AwaitingGuess {
                            word,
                            letters_guessed,
                            feedback: GuessFeedback::BadChar(g),
                        },
                    }
                } else if letters_guessed.contains(g) {
                    GameState {
                        args,
                        unplayed_words,
                        played_words,
                        score,
                        rounds_played,
                        scene: GameScene::AwaitingGuess {
                            word,
                            letters_guessed,
                            feedback: GuessFeedback::AlreadyTried(g),
                        },
                    }
                } else {
                    let wrong = count_wrong_guesses(&letters_guessed, word.as_str());
                    let in_word = letter_in_word(word.as_str(), g);
                    let max_wrong = args.mode.max_wrong();
                    let ghost gs = letters_guessed@;
                    letters_guessed.insert(g);
                    proof {
                        assert(gs.push(g).drop_last() =~= gs);
                        assert(gs.push(g).last() == g);
                    }
                    if in_word {
                        if all_guessed(word.as_str(), &letters_guessed) {
                            let left: u8 = max_wrong - (wrong as u8);
                            let rs = round_score(left);
                            let new_score: u64 = if score <= u64::MAX - rs {
                                score + rs
                            } else {
                                u64::MAX
                            };
                            GameState {
                                args,
                                unplayed_words,
                                played_words,
                                score: new_score,
                                rounds_played,
                                scene: GameScene::RoundEnd {
                                    word,
                                    won: true,
                                    round_score: rs,
                                    letters_guessed,
                                },
                            }
                        } else {
                            GameState {
                                args,
                                unplayed_words,
                                played_words,
                                score,
                                rounds_played,
                                scene: GameScene::AwaitingGuess {
                                    word,
                                    letters_guessed,
                                    feedback: GuessFeedback::Correct(g),
                                },
                            }
                        }
                    } else {
                        if wrong + 1 > max_wrong as usize {
                            let word_copy = word.clone();
                            let mut played_words = played_words;
                            played_words.push(word);
                            GameState {
                                args,
                                unplayed_words,
                                played_words,
                                score,
                                rounds_played,
                                scene: GameScene::RoundEnd {
                                    word: word_copy,
                                    won: false,
                                    round_score: 0,
                                    letters_guessed,
                                },
                            }
                        } else {
                            GameState {
                                args,
                                unplayed_words,
                                played_words,
                                score,
                                rounds_played,
                                scene: GameScene::AwaitingGuess {
                                    word,
                                    letters_guessed,
                                    feedback: GuessFeedback::Wrong(g),
                                },
                            }
                        }
                    }
                }
            },
            _ => unreached(),
        }
    }

    /// Returns the scene to `Init`, keeping score, rounds and both pools.
    /// Valid from any scene.
    pub fn new_round(self) -> (r: GameState)
        requires
            self.wf(),
        ensures
            r.wf(),
            r.scene is Init,
            r.args == self.args,
            r.unplayed_words == self.unplayed_words,
            r.played_words == self.played_words,
            r.score == self.score,
            r.rounds_played == self.rounds_played,
    {
        GameState { scene: GameScene::Init, ..self }
    }

    /// Ends the session with the given reason, keeping everything else.
    /// Valid from any scene.
    pub fn end_game(self, feedback: EndFeedback) -> (r: GameState)
        requires
            self.wf(),
        ensures
            r.wf(),
            r.scene == (GameScene::GameEnd { feedback }),
            r.args == self.args,
            r.unplayed_words == self.unplayed_words,
            r.played_words == self.played_words,
            r.score == self.score,
            r.rounds_played == self.rounds_played,
    {
        GameState { scene: GameScene::GameEnd { feedback }, ..self }
    }
}

/// Guessing an already-tried letter changes neither the guessed letters,
/// nor the score, nor the played words, nor the scene's variant: only the
/// feedback, which says `AlreadyTried`.
pub proof fn lemma_repeated_guess_changes_nothing(pre: GameState, guess: char, r: GameState)
    requires
        pre.wf(),
        pre.scene is AwaitingGuess,
        pre.scene->AwaitingGuess_letters_guessed@.contains(spec_lower(guess)),
        make_guess_post(pre, guess, r),
    ensures
        awaiting_with(
            r,
            pre.scene->AwaitingGuess_word,
            pre.scene->AwaitingGuess_letters_guessed@,
            GuessFeedback::AlreadyTried(spec_lower(guess)),
        ),
        r.score == pre.score,
        r.played_words == pre.played_words,
{
    let gs = pre.scene->AwaitingGuess_letters_guessed;
    let g = spec_lower(guess);
    let k = choose|k: int| 0 <= k < gs@.len() && gs@[k] == g;
    assert(is_lower_letter(gs@[k]));
}

/// Guessing a non-letter changes neither the guessed letters, nor the
/// score, nor the played words, nor the scene's variant: only the
/// feedback, which says `BadChar`.
pub proof fn lemma_non_letter_guess_changes_nothing(pre: GameState, guess: char, r: GameState)
    requires
        pre.wf(),
        pre.scene is AwaitingGuess,
        !is_ascii_letter(spec_lower(guess)),
        make_guess_post(pre, guess, r),
    ensures
        awaiting_with(
            r,
            pre.scene->AwaitingGuess_word,
            pre.scene->AwaitingGuess_letters_guessed@,
            GuessFeedback::BadChar(spec_lower(guess)),
        ),
        r.score == pre.score,
        r.played_words == pre.played_words,
{
}

/// The cumulative score never decreases across a guess.
pub proof fn lemma_score_monotonic(pre: GameState, guess: char, r: GameState)
    requires
        pre.wf(),
        pre.scene is AwaitingGuess,
        make_guess_post(pre, guess, r),
    ensures
        r.score >= pre.score,
{
}

/// A round only ever concludes won with every letter of its word guessed.
pub proof fn lemma_win_covers_word(pre: GameState, guess: char, r: GameState)
    requires
        pre.wf(),
        pre.scene is AwaitingGuess,
        make_guess_post(pre, guess, r),
        r.scene matches GameScene::RoundEnd { won, .. } && won,
    ensures
        r.scene matches GameScene::RoundEnd { word, letters_guessed, .. } ==> all_letters_guessed(
            word@,
            letters_guessed@,
        ),
{
}

} // verus!
