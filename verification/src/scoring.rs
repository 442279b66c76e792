//! The two-pass, multiset-based scoring of a guess against the hidden word.

use vstd::prelude::*;
use crate::counters::counter_count;
use crate::counters::counter_from_word;
use crate::counters::counter_ms;
use crate::counters::counter_subtract_one;
use crate::letters::LetterState;

verus! {

/// How many times `ch` occurs in `s`.
pub open spec fn count_in(s: Seq<char>, ch: char) -> int
    decreases s.len(),
{
    if s.len() == 0 {
        0
    } else {
        count_in(s.drop_last(), ch) + if s.last() == ch {
            1int
        } else {
            0int
        }
    }
}

/// One step of counting over a prefix.
proof fn lemma_count_take_step(s: Seq<char>, i: int, ch: char)
    requires
        0 < i <= s.len(),
    ensures
        count_in(s.take(i), ch) == count_in(s.take(i - 1), ch) + if s[i - 1] == ch {
            1int
        } else {
            0int
        },
{
    assert(s.take(i).drop_last() =~= s.take(i - 1));
    assert(s.take(i).last() == s[i - 1]);
}

/// Counting over a prefix never exceeds counting over the whole word.
proof fn lemma_count_take_le(s: Seq<char>, i: int, ch: char)
    requires
        0 <= i <= s.len(),
    ensures
        count_in(s.take(i), ch) <= count_in(s, ch),
    decreases s.len() - i,
{
    if i == s.len() {
        assert(s.take(i) =~= s);
    } else {
        lemma_count_take_step(s, i + 1, ch);
        lemma_count_take_le(s, i + 1, ch);
    }
}

/// Number of positions `j < i` where the guess agrees with the hidden word
/// and the common letter is `ch`: the exact matches the first pass credits.
pub open spec fn exact_upto(h: Seq<char>, g: Seq<char>, i: int, ch: char) -> int
    decreases i,
{
    if i <= 0 {
        0
    } else {
        exact_upto(h, g, i - 1, ch) + if g[i - 1] == h[i - 1] && g[i - 1] == ch {
            1int
        } else {
            0int
        }
    }
}

/// Number of positions `j < i` the second pass marks `WrongPlace` for `ch`.
pub open spec fn wrong_upto(h: Seq<char>, g: Seq<char>, i: int, ch: char) -> int
    decreases i, 0int,
{
    if i <= 0 {
        0
    } else {
        wrong_upto(h, g, i - 1, ch) + if wrong_at(h, g, i - 1) && g[i - 1] == ch {
            1int
        } else {
            0int
        }
    }
}

/// What is left of `ch`'s occurrence budget when the second pass reaches
/// position `i`: its count in the hidden word, less the exact matches of the
/// whole first pass, less the wrong-place credits given before `i`.
pub open spec fn budget_at(h: Seq<char>, g: Seq<char>, i: int, ch: char) -> int
    decreases i, 1int,
{
    count_in(h, ch) - exact_upto(h, g, g.len() as int, ch) - wrong_upto(h, g, i, ch)
}

/// Whether the second pass marks position `i` as `WrongPlace`: no exact
/// match there, and the guessed letter still has budget left.
pub open spec fn wrong_at(h: Seq<char>, g: Seq<char>, i: int) -> bool
    decreases i, 2int,
{
    g[i] != h[i] && budget_at(h, g, i, g[i]) > 0
}

/// The state the two passes give position `i`.
pub open spec fn state_at(h: Seq<char>, g: Seq<char>, i: int) -> LetterState {
    if g[i] == h[i] {
        LetterState::RightPlace
    } else if wrong_at(h, g, i) {
        LetterState::WrongPlace
    } else {
        LetterState::NotPresent
    }
}

/// The whole score of a guess against a hidden word of the same length:
/// exact matches first, then wrong-place credits while budget is left, in
/// guess order.
pub open spec fn score_spec(h: Seq<char>, g: Seq<char>) -> Seq<LetterState> {
    Seq::new(g.len(), |i: int| state_at(h, g, i))
}

/// Exact matches for `ch` in the first `i` positions are occurrences of `ch`
/// in the first `i` positions of the hidden word.
proof fn lemma_exact_le_count(h: Seq<char>, g: Seq<char>, i: int, ch: char)
    requires
        g.len() == h.len(),
        0 <= i <= g.len(),
    ensures
        0 <= exact_upto(h, g, i, ch) <= count_in(h.take(i), ch),
    decreases i,
{
    if i > 0 {
        lemma_exact_le_count(h, g, i - 1, ch);
        lemma_count_take_step(h, i, ch);
    }
}

/// The second pass only credits a letter while budget is left, so exact and
/// wrong-place credits together never exceed the letter's count in the
/// hidden word.
proof fn lemma_credit_le_count(h: Seq<char>, g: Seq<char>, i: int, ch: char)
    requires
        g.len() == h.len(),
        0 <= i <= g.len(),
    ensures
        0 <= wrong_upto(h, g, i, ch),
        exact_upto(h, g, g.len() as int, ch) + wrong_upto(h, g, i, ch) <= count_in(h, ch),
    decreases i,
{
    if i == 0 {
        lemma_exact_le_count(h, g, g.len() as int, ch);
        lemma_count_take_le(h, g.len() as int, ch);
        assert(h.take(g.len() as int) =~= h);
    } else {
        lemma_credit_le_count(h, g, i - 1, ch);
        if wrong_at(h, g, i - 1) && g[i - 1] == ch {
            assert(budget_at(h, g, i - 1, ch) > 0);
            assert(wrong_upto(h, g, i, ch) == wrong_upto(h, g, i - 1, ch) + 1);
        } else {
            assert(wrong_upto(h, g, i, ch) == wrong_upto(h, g, i - 1, ch));
        }
    }
}

/// Number of positions `j < i` whose state in `states` is `RightPlace`.
pub open spec fn right_place_upto(states: Seq<LetterState>, i: int) -> int
    decreases i,
{
    if i <= 0 {
        0
    } else {
        right_place_upto(states, i - 1) + if states[i - 1] is RightPlace {
            1int
        } else {
            0int
        }
    }
}

/// Number of positions `j < i` where the guess shows `ch` and the state
/// credits it as present (`RightPlace` or `WrongPlace`).
pub open spec fn credited_upto(g: Seq<char>, states: Seq<LetterState>, i: int, ch: char) -> int
    decreases i,
{
    if i <= 0 {
        0
    } else {
        credited_upto(g, states, i - 1, ch) + if g[i - 1] == ch && (states[i - 1] is RightPlace
            || states[i - 1] is WrongPlace) {
            1int
        } else {
            0int
        }
    }
}

/// In a score, the credits for `ch` are exactly the exact matches plus the
/// wrong-place credits of the two passes.
proof fn lemma_credited_split(h: Seq<char>, g: Seq<char>, i: int, ch: char)
    requires
        g.len() == h.len(),
        0 <= i <= g.len(),
    ensures
        credited_upto(g, score_spec(h, g), i, ch) == exact_upto(h, g, i, ch) + wrong_upto(
            h,
            g,
            i,
            ch,
        ),
    decreases i,
{
    if i > 0 {
        lemma_credited_split(h, g, i - 1, ch);
        assert(score_spec(h, g)[i - 1] == state_at(h, g, i - 1));
        if g[i - 1] == h[i - 1] {
            assert(!wrong_at(h, g, i - 1));
            assert(state_at(h, g, i - 1) is RightPlace);
        } else if wrong_at(h, g, i - 1) {
            assert(state_at(h, g, i - 1) is WrongPlace);
        } else {
            assert(state_at(h, g, i - 1) is NotPresent);
        }
    }
}

/// A count of positions never exceeds the number of positions looked at.
proof fn lemma_right_place_le(states: Seq<LetterState>, i: int)
    requires
        0 <= i,
    ensures
        right_place_upto(states, i) <= i,
    decreases i,
{
    if i > 0 {
        lemma_right_place_le(states, i - 1);
    }
}

/// For a hidden word and a guess of equal length, the score never holds more
/// `RightPlace` marks than positions, and for every letter the positions
/// credited as present never outnumber the letter's occurrences in the
/// hidden word.
pub proof fn lemma_score_bounds(h: Seq<char>, g: Seq<char>)
    requires
        g.len() == h.len(),
    ensures
        right_place_upto(score_spec(h, g), g.len() as int) <= g.len(),
        forall|ch: char|
            #[trigger] credited_upto(g, score_spec(h, g), g.len() as int, ch) <= count_in(h, ch),
{
    lemma_right_place_le(score_spec(h, g), g.len() as int);
    assert forall|ch: char|
        #[trigger] credited_upto(g, score_spec(h, g), g.len() as int, ch) <= count_in(
            h,
            ch,
        ) by {
        lemma_credited_split(h, g, g.len() as int, ch);
        lemma_credit_le_count(h, g, g.len() as int, ch);
    }
}

/// Guessing the hidden word itself scores `RightPlace` at every position.
pub proof fn lemma_score_exact(h: Seq<char>)
    ensures
        score_spec(h, h).len() == h.len(),
        forall|i: int| 0 <= i < h.len() ==> #[trigger] score_spec(h, h)[i] is RightPlace,
{
}

/// Score a guess against a hidden word of the same length, building a fresh
/// letter budget from the hidden word.
pub fn score(hidden: &Vec<char>, guess: &Vec<char>) -> (r: Vec<LetterState>)
    requires
        guess@.len() == hidden@.len(),
    ensures
        r@ == score_spec(hidden@, guess@),
{
    let budget = counter_from_word(hidden);
    score_with(budget, hidden, guess)
}

/// The two passes, run on an already-built budget of the hidden word's
/// letter counts (a session clones its stored budget into this call).
pub(crate) fn score_with(
    budget: counter::Counter<char>,
    hidden: &Vec<char>,
    guess: &Vec<char>,
) -> (r: Vec<LetterState>)
    requires
        guess@.len() == hidden@.len(),
        forall|ch: char| counter_ms(budget).count(ch) == count_in(hidden@, ch),
    ensures
        r@ == score_spec(hidden@, guess@),
{
    let ghost h = hidden@;
    let ghost g = guess@;
    let mut budget = budget;
    let n = guess.len();
    let mut states: Vec<LetterState> = Vec::new();

    // Pass 1: exact matches consume their letter's budget first.
    let mut i: usize = 0;
    while i < n
        invariant
            n == g.len(),
            g.len() == h.len(),
            i <= n,
            hidden@ == h,
            guess@ == g,
            states@.len() == i as int,
            forall|j: int|
                0 <= j < i ==> states@[j] == (if g[j] == h[j] {
                    LetterState::RightPlace
                } else {
                    LetterState::NotPresent
                }),
            forall|ch: char|
                counter_ms(budget).count(ch) == count_in(h, ch) - exact_upto(h, g, i as int, ch),
        decreases n - i,
    {
        let ghost iw = i as int;
        let gc = guess[i];
        if gc == hidden[i] {
            states.push(LetterState::RightPlace);
            proof {
                lemma_exact_le_count(h, g, iw, gc);
                lemma_count_take_step(h, iw + 1, gc);
                lemma_count_take_le(h, iw + 1, gc);
                assert(counter_ms(budget).count(gc) > 0);
            }
            counter_subtract_one(&mut budget, gc);
        } else {
            states.push(LetterState::NotPresent);
        }
        proof {
            assert forall|ch: char|
                counter_ms(budget).count(ch) == count_in(h, ch) - exact_upto(
                    h,
                    g,
                    iw + 1,
                    ch,
                ) by {
                assert(exact_upto(h, g, iw + 1, ch) == exact_upto(h, g, iw, ch) + if g[iw] == h[iw]
                    && g[iw] == ch {
                    1int
                } else {
                    0int
                });
            }
        }
        i += 1;
    }

    // Pass 2: wrong-place credits while the guessed letter has budget left.
    let mut i: usize = 0;
    while i < n
        invariant
            n == g.len(),
            g.len() == h.len(),
            i <= n,
            hidden@ == h,
            guess@ == g,
            states@.len() == n as int,
            forall|j: int|
                i <= j < n ==> states@[j] == (if g[j] == h[j] {
                    LetterState::RightPlace
                } else {
                    LetterState::NotPresent
                }),
            forall|j: int| 0 <= j < i ==> states@[j] == state_at(h, g, j),
            forall|ch: char| counter_ms(budget).count(ch) == budget_at(h, g, i as int, ch),
        decreases n - i,
    {
        let ghost iw = i as int;
        let gc = guess[i];
        if gc != hidden[i] {
            let cnt = counter_count(&budget, gc);
            if cnt > 0 {
                proof {
                    assert(wrong_at(h, g, iw));
                }
                states.set(i, LetterState::WrongPlace);
                counter_subtract_one(&mut budget, gc);
            } else {
                proof {
                    assert(!wrong_at(h, g, iw));
                }
            }
        }
        proof {
            assert forall|ch: char|
                counter_ms(budget).count(ch) == budget_at(h, g, iw + 1, ch) by {
                assert(wrong_upto(h, g, iw + 1, ch) == wrong_upto(h, g, iw, ch) + if wrong_at(
                    h,
                    g,
                    iw,
                ) && g[iw] == ch {
                    1int
                } else {
                    0int
                });
            }
            assert(states@[iw] == state_at(h, g, iw));
        }
        i += 1;
    }
    proof {
        assert(states@ =~= score_spec(h, g));
    }
    states
}

} // verus!
