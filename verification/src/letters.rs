//! Letters and per-letter knowledge states.
//!
//! Words are sequences of ASCII letters in canonical lower case; a
//! [`LetterState`] records how much the game has revealed about one letter.

use vstd::prelude::*;

verus! {

/// How much a guess (or the whole game so far) has revealed about a letter,
/// ordered from least to most informative:
/// `Unknown < NotPresent < WrongPlace < RightPlace`.
#[derive(Clone, Copy, Debug, PartialEq, Eq, Structural)]
pub enum LetterState {
    Unknown,
    NotPresent,
    WrongPlace,
    RightPlace,
}

/// Numeric rank of a state under the informativeness order.
pub open spec fn rank(s: LetterState) -> int {
    match s {
        LetterState::Unknown => 0,
        LetterState::NotPresent => 1,
        LetterState::WrongPlace => 2,
        LetterState::RightPlace => 3,
    }
}

/// The more informative of two states; merging new evidence never demotes.
pub open spec fn state_max(a: LetterState, b: LetterState) -> LetterState {
    if rank(a) >= rank(b) {
        a
    } else {
        b
    }
}

/// Rank of a state as a machine integer.
pub fn state_rank(s: LetterState) -> (r: u8)
    ensures
        r as int == rank(s),
{
    match s {
        LetterState::Unknown => 0,
        LetterState::NotPresent => 1,
        LetterState::WrongPlace => 2,
        LetterState::RightPlace => 3,
    }
}

/// Merge new evidence about a letter into its previous best state.
pub fn merge_state(a: LetterState, b: LetterState) -> (r: LetterState)
    ensures
        r == state_max(a, b),
{
    if state_rank(a) >= state_rank(b) {
        a
    } else {
        b
    }
}

/// A lower-case ASCII letter, `'a'` through `'z'`.
pub open spec fn is_lower_letter(c: char) -> bool {
    97 <= c as u32 && c as u32 <= 122
}

/// An upper-case ASCII letter, `'A'` through `'Z'`.
pub open spec fn is_upper_letter(c: char) -> bool {
    65 <= c as u32 && c as u32 <= 90
}

/// The canonical (lower-case) form of a character; letters already in lower
/// case and all non-letters are unchanged.
pub open spec fn lower_of_char(c: char) -> char {
    if is_upper_letter(c) {
        ((c as u32) + 32) as char
    } else {
        c
    }
}

/// A word already in canonical form: exactly five lower-case ASCII letters.
pub open spec fn is_normal_word(w: Seq<char>) -> bool {
    &&& w.len() == 5
    &&& forall|i: int| 0 <= i < w.len() ==> is_lower_letter(#[trigger] w[i])
}

/// A well-formed raw guess: exactly five ASCII letters of either case.
pub open spec fn is_wellformed_guess(w: Seq<char>) -> bool {
    &&& w.len() == 5
    &&& forall|i: int|
        0 <= i < w.len() ==> is_lower_letter(#[trigger] w[i]) || is_upper_letter(w[i])
}

/// The canonical form of a whole word.
pub open spec fn normal_of(w: Seq<char>) -> Seq<char> {
    w.map_values(|c: char| lower_of_char(c))
}

/// Index of a lower-case letter in the alphabet, `0` for `'a'` up to `25`
/// for `'z'`.
pub open spec fn letter_index(c: char) -> int {
    c as u32 - 97
}

/// Whether a raw guess has the well-formed shape (five ASCII letters).
pub fn word_is_valid(w: &Vec<char>) -> (r: bool)
    ensures
        r == is_wellformed_guess(w@),
{
    if w.len() != 5 {
        return false;
    }
    let mut i: usize = 0;
    while i < w.len()
        invariant
            i <= w@.len(),
            w@.len() == 5,
            forall|j: int|
                0 <= j < i ==> is_lower_letter(#[trigger] w@[j]) || is_upper_letter(w@[j]),
        decreases w@.len() - i,
    {
        let u = w[i] as u32;
        if !((97 <= u && u <= 122) || (65 <= u && u <= 90)) {
            return false;
        }
        i += 1;
    }
    true
}

/// The canonical (lower-case) form of one character.
pub fn to_lower_char(c: char) -> (r: char)
    ensures
        r == lower_of_char(c),
{
    let u = c as u32;
    if 65 <= u && u <= 90 {
        ((u + 32) as u8) as char
    } else {
        c
    }
}

/// The canonical form of a whole word.
pub fn normalize_word(w: &Vec<char>) -> (r: Vec<char>)
    ensures
        r@ == normal_of(w@),
{
    let mut out: Vec<char> = Vec::new();
    let mut i: usize = 0;
    while i < w.len()
        invariant
            i <= w@.len(),
            out@.len() == i,
            forall|j: int| 0 <= j < i ==> out@[j] == lower_of_char(#[trigger] w@[j]),
        decreases w@.len() - i,
    {
        out.push(to_lower_char(w[i]));
        i += 1;
    }
    proof {
        assert(out@ =~= normal_of(w@));
    }
    out
}

/// A fresh copy of a word.
pub fn copy_word(w: &Vec<char>) -> (r: Vec<char>)
    ensures
        r@ == w@,
{
    let mut out: Vec<char> = Vec::new();
    let mut i: usize = 0;
    while i < w.len()
        invariant
            i <= w@.len(),
            out@ == w@.take(i as int),
        decreases w@.len() - i,
    {
        out.push(w[i]);
        proof {
            assert(out@ =~= w@.take(i as int + 1));
        }
        i += 1;
    }
    proof {
        assert(w@.take(w@.len() as int) =~= w@);
    }
    out
}

/// Whether two words hold the same characters in the same order.
pub fn words_equal(a: &Vec<char>, b: &Vec<char>) -> (r: bool)
    ensures
        r == (a@ == b@),
{
    if a.len() != b.len() {
        return false;
    }
    let mut i: usize = 0;
    while i < a.len()
        invariant
            i <= a@.len(),
            a@.len() == b@.len(),
            forall|j: int| 0 <= j < i ==> a@[j] == b@[j],
        decreases a@.len() - i,
    {
        if a[i] != b[i] {
            return false;
        }
        i += 1;
    }
    proof {
        assert(a@ =~= b@);
    }
    true
}

/// A well-formed guess normalizes to a normal word, and a normal word is
/// already well-formed and unchanged by normalization.
pub proof fn lemma_normalize_wellformed(w: Seq<char>)
    ensures
        is_wellformed_guess(w) ==> is_normal_word(normal_of(w)),
        is_normal_word(w) ==> is_wellformed_guess(w) && normal_of(w) =~= w,
{
}

} // verus!
