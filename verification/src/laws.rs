//! Session-level laws: what holds of every submission and of whole games.

use vstd::prelude::*;
use crate::letters::is_lower_letter;
use crate::letters::is_upper_letter;
use crate::letters::is_wellformed_guess;
use crate::letters::lower_of_char;
use crate::letters::normal_of;
use crate::letters::rank;
use crate::scoring::score_spec;
use crate::session::MAX_TRIES;
use crate::session::OutcomeKind;
use crate::session::SessionModel;
use crate::session::model_wf;
use crate::session::outcome_of;
use crate::session::step;
use crate::state_map::lemma_merged_monotonic;

verus! {

/// Across any submission, no letter's best-known state ever goes down under
/// the informativeness order.
pub proof fn lemma_states_monotonic(m: SessionModel, w: Seq<char>)
    requires
        model_wf(m),
    ensures
        step(m, w).states.len() == 26,
        forall|k: int| 0 <= k < 26 ==> rank(#[trigger] step(m, w).states[k]) >= rank(m.states[k]),
{
    if outcome_of(m, w) is Accepted {
        crate::letters::lemma_normalize_wellformed(w);
        lemma_merged_monotonic(
            m.states,
            normal_of(w),
            score_spec(m.hidden, normal_of(w)),
            normal_of(w).len() as int,
        );
    }
}

/// An ill-shaped submission is reported as `InvalidInput` and changes
/// nothing, so submitting it again gives the same outcome, with the attempt
/// counter untouched both times.
pub proof fn lemma_invalid_idempotent(m: SessionModel, w: Seq<char>)
    requires
        !is_wellformed_guess(w),
    ensures
        outcome_of(m, w) is InvalidInput,
        step(m, w) == m,
        outcome_of(step(m, w), w) == outcome_of(m, w),
        step(step(m, w), w) == m,
{
}

/// A word whose canonical form is the hidden word is itself a well-formed
/// guess.
proof fn lemma_hidden_guess_wellformed(m: SessionModel, w: Seq<char>)
    requires
        model_wf(m),
        normal_of(w) == m.hidden,
    ensures
        is_wellformed_guess(w),
{
    assert(w.len() == 5) by {
        assert(normal_of(w).len() == w.len());
    }
    assert forall|i: int| 0 <= i < w.len() implies is_lower_letter(#[trigger] w[i])
        || is_upper_letter(w[i]) by {
        assert(normal_of(w)[i] == lower_of_char(w[i]));
        assert(is_lower_letter(m.hidden[i]));
    }
}

/// A correct guess submitted on the last allowed attempt still wins: the
/// exact-match check comes before the exhaustion check.
pub proof fn lemma_win_on_last(m: SessionModel, w: Seq<char>)
    requires
        model_wf(m),
        m.tries == MAX_TRIES,
        normal_of(w) == m.hidden,
    ensures
        outcome_of(m, w) is Won,
        !(outcome_of(m, w) is Lost),
        !step(m, w).playing,
        step(m, w).tries == m.tries,
{
    lemma_hidden_guess_wellformed(m, w);
}

/// A valid, known, non-winning guess on the last allowed attempt loses the
/// game and reveals the hidden word unchanged.
pub proof fn lemma_exhaustion(m: SessionModel, w: Seq<char>)
    requires
        model_wf(m),
        m.tries == MAX_TRIES,
        is_wellformed_guess(w),
        m.dict.contains(normal_of(w)),
        normal_of(w) != m.hidden,
    ensures
        outcome_of(m, w) is Lost,
        !step(m, w).playing,
        step(m, w).hidden == m.hidden,
{
}

/// The session state after the first `i` of a sequence of submissions.
pub open spec fn run_upto(m: SessionModel, ws: Seq<Seq<char>>, i: int) -> SessionModel
    decreases i,
{
    if i <= 0 {
        m
    } else {
        step(run_upto(m, ws, i - 1), ws[i - 1])
    }
}

/// Misses (valid, known, non-winning guesses) while attempts remain are all
/// accepted: each consumes exactly one attempt and leaves the session in
/// progress with the same hidden word and dictionary.
proof fn lemma_misses_accepted(m: SessionModel, ws: Seq<Seq<char>>, i: int)
    requires
        model_wf(m),
        m.playing,
        0 <= i <= MAX_TRIES - m.tries,
        i <= ws.len(),
        forall|j: int| 0 <= j < i ==> is_wellformed_guess(#[trigger] ws[j]),
        forall|j: int| 0 <= j < i ==> m.dict.contains(normal_of(#[trigger] ws[j])),
        forall|j: int| 0 <= j < i ==> normal_of(#[trigger] ws[j]) != m.hidden,
    ensures
        model_wf(run_upto(m, ws, i)),
        run_upto(m, ws, i).playing,
        run_upto(m, ws, i).tries == m.tries + i,
        run_upto(m, ws, i).hidden == m.hidden,
        run_upto(m, ws, i).dict == m.dict,
    decreases i,
{
    if i > 0 {
        lemma_misses_accepted(m, ws, i - 1);
        let prev = run_upto(m, ws, i - 1);
        assert(outcome_of(prev, ws[i - 1]) is Accepted);
        lemma_states_monotonic(prev, ws[i - 1]);
    }
}

/// Six consecutive misses from a fresh session: the first five are accepted,
/// and the sixth is `Lost`, ending the session and revealing the original
/// hidden word.
pub proof fn lemma_exhaustion_in_six(m: SessionModel, ws: Seq<Seq<char>>)
    requires
        model_wf(m),
        m.playing,
        m.tries == 1,
        ws.len() == 6,
        forall|j: int| 0 <= j < 6 ==> is_wellformed_guess(#[trigger] ws[j]),
        forall|j: int| 0 <= j < 6 ==> m.dict.contains(normal_of(#[trigger] ws[j])),
        forall|j: int| 0 <= j < 6 ==> normal_of(#[trigger] ws[j]) != m.hidden,
    ensures
        forall|j: int| 0 <= j < 5 ==> outcome_of(run_upto(m, ws, j), #[trigger] ws[j]) is Accepted,
        outcome_of(run_upto(m, ws, 5), ws[5]) is Lost,
        !run_upto(m, ws, 6).playing,
        run_upto(m, ws, 6).hidden == m.hidden,
{
    assert forall|j: int| 0 <= j < 5 implies outcome_of(
        run_upto(m, ws, j),
        #[trigger] ws[j],
    ) is Accepted by {
        lemma_misses_accepted(m, ws, j);
    }
    lemma_misses_accepted(m, ws, 5);
    lemma_exhaustion(run_upto(m, ws, 5), ws[5]);
}

} // verus!
