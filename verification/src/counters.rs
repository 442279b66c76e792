//! The letter-occurrence multiset behind scoring, held in a
//! `counter::Counter`, with contracts for the few operations scoring needs.

use vstd::prelude::*;
use vstd::multiset::Multiset;
use crate::scoring::count_in;

verus! {

#[verifier::external_type_specification]
#[verifier::external_body]
#[verifier::reject_recursive_types(T)]
#[verifier::reject_recursive_types(N)]
#[verifier::reject_recursive_types(S)]
pub struct ExCounter<T, N, S>(counter::Counter<T, N, S>);

/// The letters a counter holds: each letter occurs as many times as its
/// stored count.
pub uninterp spec fn counter_ms(c: counter::Counter<char>) -> Multiset<char>;

/// Relies on `counter::Counter`'s `FromIterator` impl, which counts the
/// occurrences of each collected item.
#[verifier::external_body]
pub(crate) fn counter_from_word(w: &Vec<char>) -> (r: counter::Counter<char>)
    ensures
        forall|ch: char| counter_ms(r).count(ch) == count_in(w@, ch),
{
    w.iter().copied().collect()
}

/// Relies on the derived `Clone` of `counter::Counter`: the copy holds the
/// same counts as the original.
#[verifier::external_body]
pub(crate) fn counter_clone(c: &counter::Counter<char>) -> (r: counter::Counter<char>)
    ensures
        counter_ms(r) == counter_ms(*c),
{
    c.clone()
}

/// Relies on `counter::Counter::subtract`: each subtracted item loses one
/// count if any is left; counts never go below zero.
#[verifier::external_body]
pub(crate) fn counter_subtract_one(c: &mut counter::Counter<char>, ch: char)
    ensures
        forall|x: char|
            counter_ms(*final(c)).count(x) as int == (if x == ch && counter_ms(*old(c)).count(ch)
                > 0 {
                counter_ms(*old(c)).count(x) - 1
            } else {
                counter_ms(*old(c)).count(x) as int
            }),
{
    c.subtract(std::iter::once(ch));
}

/// Relies on `counter::Counter`'s `Index` impl: the stored count of `ch`,
/// zero when the letter is absent.
#[verifier::external_body]
pub(crate) fn counter_count(c: &counter::Counter<char>, ch: char) -> (r: usize)
    ensures
        r as nat == counter_ms(*c).count(ch),
{
    c[&ch]
}

} // verus!
