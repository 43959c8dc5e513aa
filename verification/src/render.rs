//! Pure text building for the rendering boundary: the masked word and the
//! list of guessed letters. Colours and layout stay outside the core.

use crate::letters::{LetterSet, is_ascii_letter, is_letter, spec_lower, to_lower};
use vstd::prelude::*;

verus! {

/// `c` as shown to the guesser: a letter not yet guessed is masked by
/// `_`; anything else shows as itself.
pub open spec fn masked_char(c: char, gs: Seq<char>) -> char {
    if is_ascii_letter(c) && !gs.contains(spec_lower(c)) {
        '_'
    } else {
        c
    }
}

/// The word as shown to the guesser.
pub open spec fn masked_word(w: Seq<char>, gs: Seq<char>) -> Seq<char> {
    Seq::new(w.len(), |i: int| masked_char(w[i], gs))
}

/// `s` with one space between each two consecutive characters.
pub open spec fn interspersed(s: Seq<char>) -> Seq<char>
    decreases s.len(),
{
    if s.len() <= 1 {
        s
    } else {
        interspersed(s.drop_last()) + seq![' ', s.last()]
    }
}

/// Relies on `String::push`: appends the one character.
#[verifier::external_body]
fn push_char(s: &mut String, c: char)
    ensures
        final(s)@ == old(s)@.push(c),
{
    s.push(c);
}

/// The word with every unguessed letter masked by `_`, optionally with a
/// space between consecutive characters.
pub fn format_word(word: &str, guessed: &LetterSet, insert_spaces: bool) -> (r: String)
    ensures
        !insert_spaces ==> r@ == masked_word(word@, guessed@),
        insert_spaces ==> r@ == interspersed(masked_word(word@, guessed@)),
{
    let n = word.unicode_len();
    let mut r = String::new();
    let mut i: usize = 0;
    while i < n
        invariant
            i <= n,
            n == word@.len(),
            !insert_spaces ==> r@ == masked_word(word@.subrange(0, i as int), guessed@),
            insert_spaces ==> r@ == interspersed(masked_word(word@.subrange(0, i as int), guessed@)),
        decreases n - i,
    {
        let c = word.get_char(i);
        let mc = if is_letter(c) && !guessed.contains(to_lower(c)) {
            '_'
        } else {
            c
        };
        let ghost prev = masked_word(word@.subrange(0, i as int), guessed@);
        proof {
            assert(masked_word(word@.subrange(0, i + 1), guessed@) =~= prev.push(mc));
            assert(prev.push(mc).drop_last() =~= prev);
            assert(prev.push(mc).last() == mc);
        }
        if insert_spaces && i > 0 {
            push_char(&mut r, ' ');
            push_char(&mut r, mc);
            proof {
                assert(interspersed(prev) + seq![' ', mc] =~= r@);
            }
        } else {
            push_char(&mut r, mc);
            proof {
                if insert_spaces {
                    assert(prev.len() == 0);
                    assert(prev.push(mc) =~= seq![mc]);
                    assert(interspersed(prev.push(mc)) == prev.push(mc));
                    assert(r@ =~= seq![mc]);
                }
            }
        }
        i = i + 1;
    }
    proof {
        assert(word@.subrange(0, n as int) =~= word@);
    }
    r
}

/// The guessed letters from `b` up through `z`, shown uppercase, in
/// alphabetical order (`b` is an ASCII code, scanning ends past `z`).
pub open spec fn guessed_display_from(gs: Seq<char>, b: u8) -> Seq<char>
    decreases 123 - b,
{
    if b >= 123 {
        Seq::empty()
    } else {
        let tail = guessed_display_from(gs, (b + 1) as u8);
        if gs.contains(b as char) {
            seq![((b - 32) as u8) as char] + tail
        } else {
            tail
        }
    }
}

/// The guessed letters, shown as uppercase letters in alphabetical order.
pub fn format_guesses(guessed: &LetterSet) -> (r: String)
    ensures
        r@ == guessed_display_from(guessed@, 97),
{
    let mut r = String::new();
    let mut b: u8 = 97;
    proof {
        assert(Seq::<char>::empty() + guessed_display_from(guessed@, 97) =~= guessed_display_from(
            guessed@,
            97,
        ));
    }
    while b < 123
        invariant
            97 <= b <= 123,
            guessed_display_from(guessed@, 97) == r@ + guessed_display_from(guessed@, b),
        decreases 123 - b,
    {
        if guessed.contains(b as char) {
            push_char(&mut r, (b - 32) as char);
            proof {
                assert(r@ + guessed_display_from(guessed@, (b + 1) as u8) =~= (r@.drop_last()) + (
                seq![((b - 32) as u8) as char] + guessed_display_from(guessed@, (b + 1) as u8)));
            }
        }
        b = b + 1;
    }
    proof {
        assert(r@ + guessed_display_from(guessed@, 123) =~= r@);
    }
    r
}

} // verus!
