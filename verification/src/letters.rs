//! ASCII letter predicates, case folding, and the set of guessed letters.

use vstd::prelude::*;

verus! {

/// Whether `c` is an ASCII letter (`a`-`z` or `A`-`Z`).
pub open spec fn is_ascii_letter(c: char) -> bool {
    ('a' <= c && c <= 'z') || ('A' <= c && c <= 'Z')
}

/// Whether `c` is a lowercase ASCII letter.
pub open spec fn is_lower_letter(c: char) -> bool {
    'a' <= c && c <= 'z'
}

/// ASCII case folding: uppercase letters map to their lowercase form,
/// every other character is unchanged.
pub open spec fn spec_lower(c: char) -> char {
    if 'A' <= c && c <= 'Z' {
        (((c as u32) + 32) as char)
    } else {
        c
    }
}

/// Folds one character to lowercase, as `spec_lower` describes.
pub fn to_lower(c: char) -> (r: char)
    ensures
        r == spec_lower(c),
{
    let u = c as u32;
    if 65 <= u && u <= 90 {
        ((u + 32) as u8) as char
    } else {
        c
    }
}

/// Whether `c` is an ASCII letter, as `is_ascii_letter` describes.
pub fn is_letter(c: char) -> (r: bool)
    ensures
        r == is_ascii_letter(c),
{
    let u = c as u32;
    (97 <= u && u <= 122) || (65 <= u && u <= 90)
}

/// The letters guessed so far in a round: lowercase ASCII letters,
/// free of duplicates, kept in the order they were first guessed.
#[derive(Debug)]
pub struct LetterSet {
    letters: Vec<char>,
}

impl View for LetterSet {
    type V = Seq<char>;

    closed spec fn view(&self) -> Seq<char> {
        self.letters@
    }
}

impl LetterSet {
    /// Every element is a lowercase ASCII letter and none repeats.
    pub open spec fn wf(&self) -> bool {
        &&& forall|i: int| 0 <= i < self@.len() ==> is_lower_letter(#[trigger] self@[i])
        &&& self@.no_duplicates()
    }

    pub fn new() -> (r: LetterSet)
        ensures
            r@ == Seq::<char>::empty(),
            r.wf(),
    {
        LetterSet { letters: Vec::new() }
    }

    pub fn len(&self) -> (n: usize)
        ensures
            n == self@.len(),
    {
        self.letters.len()
    }

    pub fn letter_at(&self, i: usize) -> (c: char)
        requires
            i < self@.len(),
        ensures
            c == self@[i as int],
    {
        self.letters[i]
    }

    pub fn contains(&self, c: char) -> (r: bool)
        ensures
            r == self@.contains(c),
    {
        let mut i: usize = 0;
        while i < self.letters.len()
            invariant
                i <= self.letters.len(),
                forall|j: int| 0 <= j < i ==> self@[j] != c,
            decreases self.letters.len() - i,
        {
            if self.letters[i] == c {
                return true;
            }
            i += 1;
        }
        false
    }

    /// Adds `c` when it is not yet present; a repeated letter changes nothing.
    pub fn insert(&mut self, c: char)
        requires
            old(self).wf(),
            is_lower_letter(c),
        ensures
            final(self).wf(),
            old(self)@.contains(c) ==> final(self)@ == old(self)@,
            !old(self)@.contains(c) ==> final(self)@ == old(self)@.push(c),
    {
        if !self.contains(c) {
            self.letters.push(c);
            proof {
                let s = old(self)@;
                assert forall|i: int, j: int|
                    0 <= i < self@.len() && 0 <= j < self@.len() && i != j implies self@[i]
                    != self@[j] by {
                    if i < s.len() && j < s.len() {
                        assert(s.no_duplicates());
                    } else if i < s.len() {
                        assert(self@[j] == c && self@[i] == s[i]);
                        assert(s.contains(s[i]) == s.contains(self@[i]));
                    } else {
                        assert(self@[i] == c && self@[j] == s[j]);
                    }
                }
            }
        }
    }
}

} // verus!
