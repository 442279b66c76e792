//! Filtering a raw word list into a dictionary of canonical five-letter
//! words, as a dictionary provider does before any session starts.

use vstd::prelude::*;
use crate::letters::is_normal_word;
use crate::letters::is_wellformed_guess;
use crate::letters::lemma_normalize_wellformed;
use crate::letters::normal_of;
use crate::letters::normalize_word;
use crate::letters::word_is_valid;

verus! {

/// The dictionary a raw word list yields: the well-formed lines, each in
/// canonical form, in their original order.
pub open spec fn dictionary_of(lines: Seq<Seq<char>>) -> Seq<Seq<char>>
    decreases lines.len(),
{
    if lines.len() == 0 {
        Seq::empty()
    } else {
        let rest = dictionary_of(lines.drop_last());
        if is_wellformed_guess(lines.last()) {
            rest.push(normal_of(lines.last()))
        } else {
            rest
        }
    }
}

/// Every word of a built dictionary is a normal word.
pub proof fn lemma_dictionary_normal(lines: Seq<Seq<char>>)
    ensures
        forall|i: int|
            0 <= i < dictionary_of(lines).len() ==> is_normal_word(
                #[trigger] dictionary_of(lines)[i],
            ),
    decreases lines.len(),
{
    if lines.len() > 0 {
        lemma_dictionary_normal(lines.drop_last());
        let rest = dictionary_of(lines.drop_last());
        if is_wellformed_guess(lines.last()) {
            lemma_normalize_wellformed(lines.last());
            assert forall|i: int|
                0 <= i < dictionary_of(lines).len() implies is_normal_word(
                #[trigger] dictionary_of(lines)[i],
            ) by {
                if i < rest.len() {
                    assert(dictionary_of(lines)[i] == rest[i]);
                } else {
                    assert(dictionary_of(lines)[i] == normal_of(lines.last()));
                }
            }
        }
    }
}

/// One step of building over a prefix of the lines.
proof fn lemma_dictionary_take_step(lines: Seq<Seq<char>>, i: int)
    requires
        0 < i <= lines.len(),
    ensures
        dictionary_of(lines.take(i)) == if is_wellformed_guess(lines[i - 1]) {
            dictionary_of(lines.take(i - 1)).push(normal_of(lines[i - 1]))
        } else {
            dictionary_of(lines.take(i - 1))
        },
{
    assert(lines.take(i).drop_last() =~= lines.take(i - 1));
    assert(lines.take(i).last() == lines[i - 1]);
}

/// Keep the well-formed lines of a raw word list, in canonical form: the
/// filtering applied to a word list before a session is started on it.
pub fn build_dictionary(lines: &Vec<Vec<char>>) -> (r: Vec<Vec<char>>)
    ensures
        r@.map_values(|v: Vec<char>| v@) == dictionary_of(lines@.map_values(|v: Vec<char>| v@)),
        forall|i: int| 0 <= i < r@.len() ==> is_normal_word(#[trigger] r@[i]@),
{
    let ghost ls = lines@.map_values(|v: Vec<char>| v@);
    let mut out: Vec<Vec<char>> = Vec::new();
    let mut i: usize = 0;
    while i < lines.len()
        invariant
            i <= lines@.len(),
            ls == lines@.map_values(|v: Vec<char>| v@),
            out@.map_values(|v: Vec<char>| v@) == dictionary_of(ls.take(i as int)),
        decreases lines@.len() - i,
    {
        let ghost iw = i as int;
        if word_is_valid(&lines[i]) {
            let w = normalize_word(&lines[i]);
            out.push(w);
        }
        proof {
            lemma_dictionary_take_step(ls, iw + 1);
            assert(out@.map_values(|v: Vec<char>| v@) =~= dictionary_of(ls.take(iw + 1)));
        }
        i += 1;
    }
    proof {
        assert(ls.take(lines@.len() as int) =~= ls);
        lemma_dictionary_normal(ls);
        assert forall|k: int| 0 <= k < out@.len() implies is_normal_word(#[trigger] out@[k]@) by {
            assert(out@.map_values(|v: Vec<char>| v@)[k] == out@[k]@);
        }
    }
    out
}

} // verus!
