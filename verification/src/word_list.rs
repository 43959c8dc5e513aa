//! The word-pool filter.
//!
//! The corpus is a list of lines of the form `phrase::score`, where the score
//! is a decimal byte. A line with no separator, more than one separator, or a
//! malformed score is silently dropped. Of the well-formed lines, those whose
//! score and whose count of ASCII letters fall inside the configured bounds
//! make up the pool, which is then shuffled into a random order.

use crate::letters::{is_ascii_letter, is_letter};
use rand::seq::SliceRandom;
use vstd::prelude::*;

verus! {

/// Whether `c` is an ASCII decimal digit.
pub open spec fn is_digit(c: char) -> bool {
    '0' <= c && c <= '9'
}

pub open spec fn digit_val(c: char) -> nat {
    ((c as u32) - 48) as nat
}

pub open spec fn all_digits(s: Seq<char>) -> bool {
    forall|i: int| 0 <= i < s.len() ==> is_digit(#[trigger] s[i])
}

/// The number the digit string `s` denotes, most significant digit first.
pub open spec fn digits_val(s: Seq<char>) -> nat
    decreases s.len(),
{
    if s.len() == 0 {
        0
    } else {
        digits_val(s.drop_last()) * 10 + digit_val(s.last())
    }
}

/// A score field parsed as a decimal byte: an optional leading `+`, then at
/// least one digit, denoting a value of at most 255.
pub open spec fn parse_u8_spec(s: Seq<char>) -> Option<u8> {
    let t = if s.len() > 0 && s[0] == '+' {
        s.drop_first()
    } else {
        s
    };
    if t.len() > 0 && all_digits(t) && digits_val(t) <= 255 {
        Some(digits_val(t) as u8)
    } else {
        None
    }
}

proof fn lemma_digits_val_prefix(t: Seq<char>, j: int)
    requires
        0 <= j <= t.len(),
        all_digits(t),
    ensures
        digits_val(t.subrange(0, j)) <= digits_val(t),
    decreases t.len() - j,
{
    if j == t.len() {
        assert(t.subrange(0, j) =~= t);
    } else {
        assert(t.subrange(0, j + 1).drop_last() =~= t.subrange(0, j));
        assert(digits_val(t.subrange(0, j + 1)) == digits_val(t.subrange(0, j)) * 10 + digit_val(
            t[j],
        ));
        lemma_digits_val_prefix(t, j + 1);
    }
}

/// Parses the score field, exactly as `parse_u8_spec` states it.
pub fn parse_score(s: &str) -> (r: Option<u8>)
    ensures
        r == parse_u8_spec(s@),
{
    let n = s.unicode_len();
    let start: usize = if n > 0 && s.get_char(0) == '+' {
        1
    } else {
        0
    };
    proof {
        if start == 1 {
            assert(s@.drop_first() =~= s@.subrange(1, n as int));
        } else {
            assert(s@ =~= s@.subrange(0, n as int));
        }
    }
    let ghost t = s@.subrange(start as int, n as int);
    if n == start {
        return None;
    }
    let mut i: usize = start;
    let mut acc: u32 = 0;
    while i < n
        invariant
            start <= i <= n,
            n == s@.len(),
            t == s@.subrange(start as int, n as int),
            t == (if s@.len() > 0 && s@[0] == '+' {
                s@.drop_first()
            } else {
                s@
            }),
            start == 0 || start == 1,
            (start == 1) <==> (s@.len() > 0 && s@[0] == '+'),
            all_digits(s@.subrange(start as int, i as int)),
            acc == digits_val(s@.subrange(start as int, i as int)),
            acc <= 255,
        decreases n - i,
    {
        let c = s.get_char(i);
        let u = c as u32;
        proof {
            assert(t[i - start] == c);
        }
        if u < 48 || u > 57 {
            proof {
                assert(!all_digits(t));
            }
            return None;
        }
        let d = u - 48;
        let v = acc * 10 + d;
        proof {
            assert(s@.subrange(start as int, i + 1).drop_last() =~= s@.subrange(
                start as int,
                i as int,
            ));
            assert(s@.subrange(start as int, i + 1) =~= t.subrange(0, i + 1 - start));
        }
        if v > 255 {
            proof {
                assert(digits_val(t.subrange(0, i + 1 - start)) == v);
                if all_digits(t) {
                    lemma_digits_val_prefix(t, i + 1 - start);
                }
            }
            return None;
        }
        acc = v;
        i = i + 1;
    }
    proof {
        assert(s@.subrange(start as int, n as int) == t);
    }
    Some(acc as u8)
}

/// Whether a `::` separator stands at position `i` of `s`.
pub open spec fn sep_at(s: Seq<char>, i: int) -> bool {
    0 <= i && i + 2 <= s.len() && s[i] == ':' && s[i + 1] == ':'
}

pub open spec fn has_sep(s: Seq<char>) -> bool {
    exists|i: int| sep_at(s, i)
}

/// Splits `s` at the leftmost `::` into a phrase field and a score field.
/// `None` when `s` holds no separator, or more than one (scanning left to
/// right and skipping both colons of a match, so the line has other than
/// exactly two fields).
pub open spec fn split_line(s: Seq<char>) -> Option<(Seq<char>, Seq<char>)>
    decreases s.len(),
{
    if s.len() < 2 {
        None
    } else if s[0] == ':' && s[1] == ':' {
        if has_sep(s.subrange(2, s.len() as int)) {
            None
        } else {
            Some((Seq::empty(), s.subrange(2, s.len() as int)))
        }
    } else {
        match split_line(s.subrange(1, s.len() as int)) {
            Some(pr) => Some((seq![s[0]] + pr.0, pr.1)),
            None => None,
        }
    }
}

proof fn lemma_split_line_none(s: Seq<char>)
    requires
        !has_sep(s),
    ensures
        split_line(s) is None,
    decreases s.len(),
{
    if s.len() >= 2 {
        assert(!sep_at(s, 0));
        let s1 = s.subrange(1, s.len() as int);
        assert forall|j: int| !sep_at(s1, j) by {
            if sep_at(s1, j) {
                assert(s[j + 1] == s1[j] && s[j + 2] == s1[j + 1]);
                assert(sep_at(s, j + 1));
            }
        }
        lemma_split_line_none(s1);
    }
}

proof fn lemma_split_line_at(s: Seq<char>, i: int)
    requires
        sep_at(s, i),
        forall|j: int| 0 <= j < i ==> !sep_at(s, j),
    ensures
        split_line(s) == (if has_sep(s.subrange(i + 2, s.len() as int)) {
            Option::<(Seq<char>, Seq<char>)>::None
        } else {
            Some((s.subrange(0, i), s.subrange(i + 2, s.len() as int)))
        }),
    decreases i,
{
    if i == 0 {
        assert(s.subrange(0, 0) =~= Seq::<char>::empty());
    } else {
        assert(!sep_at(s, 0));
        let s1 = s.subrange(1, s.len() as int);
        assert(sep_at(s1, i - 1)) by {
            assert(s1[i - 1] == s[i] && s1[i] == s[i + 1]);
        }
        assert forall|j: int| 0 <= j < i - 1 implies !sep_at(s1, j) by {
            if sep_at(s1, j) {
                assert(s[j + 1] == s1[j] && s[j + 2] == s1[j + 1]);
                assert(sep_at(s, j + 1));
            }
        }
        lemma_split_line_at(s1, i - 1);
        assert(s1.subrange(i + 1, s1.len() as int) =~= s.subrange(i + 2, s.len() as int));
        if !has_sep(s.subrange(i + 2, s.len() as int)) {
            assert(seq![s[0]] + s1.subrange(0, i - 1) =~= s.subrange(0, i));
        }
    }
}

/// Finds the leftmost `::` of `s`.
fn find_sep(s: &str) -> (r: Option<usize>)
    ensures
        match r {
            Some(i) => sep_at(s@, i as int) && (forall|j: int| 0 <= j < i ==> !sep_at(s@, j)),
            None => !has_sep(s@),
        },
{
    let n = s.unicode_len();
    if n < 2 {
        proof {
            assert forall|j: int| !sep_at(s@, j) by {}
        }
        return None;
    }
    let mut i: usize = 0;
    while i <= n - 2
        invariant
            0 <= i,
            2 <= n,
            i <= n - 1,
            n == s@.len(),
            forall|j: int| 0 <= j < i ==> !sep_at(s@, j),
        decreases n - i,
    {
        if s.get_char(i) == ':' && s.get_char(i + 1) == ':' {
            return Some(i);
        }
        i = i + 1;
    }
    proof {
        assert forall|j: int| !sep_at(s@, j) by {}
    }
    None
}

/// How many ASCII letters `s` holds.
pub open spec fn alpha_count(s: Seq<char>) -> nat
    decreases s.len(),
{
    if s.len() == 0 {
        0
    } else {
        alpha_count(s.drop_last()) + if is_ascii_letter(s.last()) {
            1nat
        } else {
            0nat
        }
    }
}

/// Counts the ASCII letters of `s`, exactly as `alpha_count` states it.
pub fn count_letters(s: &str) -> (n: usize)
    ensures
        n == alpha_count(s@),
{
    let len = s.unicode_len();
    let mut i: usize = 0;
    let mut count: usize = 0;
    while i < len
        invariant
            i <= len,
            len == s@.len(),
            count <= i,
            count == alpha_count(s@.subrange(0, i as int)),
        decreases len - i,
    {
        let c = s.get_char(i);
        proof {
            assert(s@.subrange(0, i + 1).drop_last() =~= s@.subrange(0, i as int));
            assert(s@.subrange(0, i + 1).last() == c);
        }
        if is_letter(c) {
            count = count + 1;
        }
        i = i + 1;
    }
    proof {
        assert(s@.subrange(0, len as int) =~= s@);
    }
    count
}

/// The phrase and score of a well-formed corpus line.
pub open spec fn phrase_score(line: Seq<char>) -> Option<(Seq<char>, u8)> {
    match split_line(line) {
        Some(pr) => match parse_u8_spec(pr.1) {
            Some(v) => Some((pr.0, v)),
            None => None,
        },
        None => None,
    }
}

/// Whether a corpus line belongs to the pool: it is well formed, its score
/// lies in `[min_score, max_score]`, and its phrase's count of ASCII letters
/// lies in `[min_length, max_length]`.
pub open spec fn keeps_line(
    line: Seq<char>,
    min_length: u8,
    max_length: u8,
    min_score: u8,
    max_score: u8,
) -> bool {
    match phrase_score(line) {
        Some(ps) => min_score <= ps.1 <= max_score && min_length <= alpha_count(ps.0)
            <= max_length,
        None => false,
    }
}

/// The phrases of the lines that pass the filter, in corpus order.
pub open spec fn filtered_phrases(
    lines: Seq<Seq<char>>,
    min_length: u8,
    max_length: u8,
    min_score: u8,
    max_score: u8,
) -> Seq<Seq<char>>
    decreases lines.len(),
{
    if lines.len() == 0 {
        Seq::empty()
    } else {
        let rest = filtered_phrases(lines.drop_last(), min_length, max_length, min_score, max_score);
        if keeps_line(lines.last(), min_length, max_length, min_score, max_score) {
            rest.push((phrase_score(lines.last())->0).0)
        } else {
            rest
        }
    }
}

/// A phrase stands in the pool exactly when some corpus line passes the
/// filter and carries it; so which phrases are present depends on the
/// corpus and the bounds alone.
pub proof fn lemma_filtered_membership(
    lines: Seq<Seq<char>>,
    min_length: u8,
    max_length: u8,
    min_score: u8,
    max_score: u8,
    p: Seq<char>,
)
    ensures
        filtered_phrases(lines, min_length, max_length, min_score, max_score).contains(p)
            <==> exists|i: int|
            0 <= i < lines.len() && #[trigger] keeps_line(
                lines[i],
                min_length,
                max_length,
                min_score,
                max_score,
            ) && (phrase_score(lines[i])->0).0 == p,
    decreases lines.len(),
{
    if lines.len() > 0 {
        let prefix = lines.drop_last();
        lemma_filtered_membership(prefix, min_length, max_length, min_score, max_score, p);
        let whole = filtered_phrases(lines, min_length, max_length, min_score, max_score);
        let rest = filtered_phrases(prefix, min_length, max_length, min_score, max_score);
        assert(forall|i: int| 0 <= i < prefix.len() ==> prefix[i] == lines[i]);
        if whole.contains(p) {
            let k = choose|k: int| 0 <= k < whole.len() && whole[k] == p;
            if k < rest.len() {
                assert(rest.contains(p));
            } else {
                assert(keeps_line(
                    lines[lines.len() - 1],
                    min_length,
                    max_length,
                    min_score,
                    max_score,
                ));
            }
        }
        if exists|i: int|
            0 <= i < lines.len() && #[trigger] keeps_line(
                lines[i],
                min_length,
                max_length,
                min_score,
                max_score,
            ) && (phrase_score(lines[i])->0).0 == p {
            let i = choose|i: int|
                0 <= i < lines.len() && #[trigger] keeps_line(
                    lines[i],
                    min_length,
                    max_length,
                    min_score,
                    max_score,
                ) && (phrase_score(lines[i])->0).0 == p;
            if i < lines.len() - 1 {
                assert(rest.contains(p));
                let k = choose|k: int| 0 <= k < rest.len() && rest[k] == p;
                assert(whole[k] == p);
            } else {
                assert(whole.last() == p);
            }
            assert(whole.contains(p));
        }
    }
}

/// Splits one corpus line into its phrase and score fields, exactly as
/// `split_line` states it.
pub fn split_fields(s: &str) -> (r: Option<(String, String)>)
    ensures
        split_line(s@) matches Some(pr) ==> (r matches Some(q) && q.0@ == pr.0 && q.1@ == pr.1),
        split_line(s@) is None ==> r is None,
{
    let n = s.unicode_len();
    match find_sep(s) {
        None => {
            proof {
                lemma_split_line_none(s@);
            }
            None
        },
        Some(i) => {
            let rest = s.substring_char(i + 2, n);
            proof {
                lemma_split_line_at(s@, i as int);
            }
            match find_sep(rest) {
                Some(_) => None,
                None => {
                    let phrase = s.substring_char(0, i);
                    Some((phrase.to_owned(), rest.to_owned()))
                },
            }
        },
    }
}

/// Relies on rand's `SliceRandom::shuffle`, driven by `rand::rng`: it
/// permutes the slice in place by swapping elements, so the result holds
/// the same strings, in some order.
#[verifier::external_body]
fn shuffle_words(words: &mut Vec<String>)
    ensures
        final(words)@.to_multiset() == old(words)@.to_multiset(),
        final(words).deep_view().to_multiset() == old(words).deep_view().to_multiset(),
        final(words)@.len() == old(words)@.len(),
{
    words.shuffle(&mut rand::rng());
}

/// Builds the candidate pool: keeps the phrase of every corpus line that
/// passes the filter, then shuffles the pool into a random order. The
/// result holds exactly the phrases of `filtered_phrases`, as a multiset;
/// their order is whatever the shuffle produced.
pub fn get_filtered_word_list(
    lines: &Vec<String>,
    min_length: u8,
    max_length: u8,
    min_score: u8,
    max_score: u8,
) -> (r: Vec<String>)
    ensures
        r.deep_view().to_multiset() == filtered_phrases(
            lines.deep_view(),
            min_length,
            max_length,
            min_score,
            max_score,
        ).to_multiset(),
        r@.len() == filtered_phrases(
            lines.deep_view(),
            min_length,
            max_length,
            min_score,
            max_score,
        ).len(),
{
    let ghost all = lines.deep_view();
    let mut kept: Vec<String> = Vec::new();
    let mut i: usize = 0;
    while i < lines.len()
        invariant
            i <= lines.len(),
            all == lines.deep_view(),
            all.len() == lines@.len(),
            kept.deep_view() == filtered_phrases(
                all.subrange(0, i as int),
                min_length,
                max_length,
                min_score,
                max_score,
            ),
        decreases lines.len() - i,
    {
        let line = &lines[i];
        let ghost prefix = all.subrange(0, i as int);
        let ghost prefix1 = all.subrange(0, i + 1);
        proof {
            assert(prefix1.drop_last() =~= prefix);
            assert(prefix1.last() == line@);
        }
        match split_fields(line.as_str()) {
            None => {},
            Some(pr) => {
                match parse_score(pr.1.as_str()) {
                    None => {},
                    Some(sc) => {
                        if min_score <= sc && sc <= max_score {
                            let cnt = count_letters(pr.0.as_str());
                            if (min_length as usize) <= cnt && cnt <= (max_length as usize) {
                                let ghost ph = pr.0@;
                                let ghost before = kept.deep_view();
                                kept.push(pr.0);
                                proof {
                                    assert((phrase_score(prefix1.last())->0).0 == ph);
                                    assert(keeps_line(
                                        prefix1.last(),
                                        min_length,
                                        max_length,
                                        min_score,
                                        max_score,
                                    ));
                                    assert(kept.deep_view() =~= before.push(ph));
                                }
                            }
                        }
                    },
                }
            },
        }
        i = i + 1;
    }
    proof {
        assert(all.subrange(0, all.len() as int) =~= all);
    }
    shuffle_words(&mut kept);
    proof {
        broadcast use vstd::seq_lib::group_to_multiset_ensures;

    }
    kept
}

} // verus!
