//! Scoring of a won round.
//!
//! A win is worth `round(10 * (7/4)^k)` points, where `k` is the number of
//! wrong guesses the player still had left. The factor `7/4` (that is, 1.75)
//! is kept as an exact rational, so the result is computed in integers:
//! `round(10 * 7^k / 4^k)`, rounding halves up, equals
//! `(20 * 7^k + 4^k) / (2 * 4^k)` with flooring division.

use vstd::prelude::*;

verus! {

/// The base score of a won round.
pub const GAME_WON_BASE_SCORE: u64 = 10;

/// The largest wrong-guess budget the integer scoring supports: with more
/// than 21 guesses left, `20 * 7^k` no longer fits in 64 bits.
pub const MAX_WRONG_GUESS_BUDGET: u8 = 21;

pub open spec fn pow7(k: nat) -> nat
    decreases k,
{
    if k == 0 {
        1
    } else {
        7 * pow7((k - 1) as nat)
    }
}

pub open spec fn pow4(k: nat) -> nat
    decreases k,
{
    if k == 0 {
        1
    } else {
        4 * pow4((k - 1) as nat)
    }
}

/// `round(10 * (7/4)^k)`, rounding halves away from zero: the score awarded
/// for a win that still had `k` wrong guesses left.
pub open spec fn round_score_spec(k: nat) -> nat {
    (20 * pow7(k) + pow4(k)) / (2 * pow4(k))
}

proof fn lemma_pow_mono(i: nat, j: nat)
    requires
        i <= j,
    ensures
        pow7(i) <= pow7(j),
        pow4(i) <= pow4(j),
    decreases j,
{
    if i < j {
        lemma_pow_mono(i, (j - 1) as nat);
    }
}

/// Computes the score of a won round from the number of wrong guesses that
/// were still left, exactly as `round_score_spec` states it.
pub fn round_score(left_guesses: u8) -> (r: u64)
    requires
        left_guesses <= MAX_WRONG_GUESS_BUDGET,
    ensures
        r == round_score_spec(left_guesses as nat),
{
    proof {
        assert(pow7(21) == 558545864083284007) by {
            reveal_with_fuel(pow7, 22);
        }
        assert(pow4(21) == 4398046511104) by {
            reveal_with_fuel(pow4, 22);
        }
    }
    let mut n7: u64 = 1;
    let mut n4: u64 = 1;
    let mut i: u8 = 0;
    while i < left_guesses
        invariant
            i <= left_guesses <= MAX_WRONG_GUESS_BUDGET,
            n7 == pow7(i as nat),
            n4 == pow4(i as nat),
            pow7(21) == 558545864083284007,
            pow4(21) == 4398046511104,
        decreases left_guesses - i,
    {
        proof {
            lemma_pow_mono((i + 1) as nat, 21);
        }
        n7 = n7 * 7;
        n4 = n4 * 4;
        i = i + 1;
    }
    proof {
        lemma_pow_mono(left_guesses as nat, 21);
        lemma_pow_mono(0, left_guesses as nat);
    }
    let num: u64 = 20 * n7 + n4;
    let den: u64 = 2 * n4;
    num / den
}

} // verus!
