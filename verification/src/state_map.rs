//! The persistent per-letter best-state map used for keyboard hints.
//!
//! Every alphabet letter has one slot, initialized to `Unknown`; scoring
//! evidence is merged in with a max under the informativeness order, so a
//! letter's displayed state never regresses.

use vstd::prelude::*;
use crate::letters::LetterState;
use crate::letters::is_lower_letter;
use crate::letters::letter_index;
use crate::letters::merge_state;
use crate::letters::rank;
use crate::letters::state_max;

verus! {

/// States after merging the evidence of the first `i` positions of a scored
/// guess into `states`: position by position, the guessed letter's slot is
/// raised to the max of its old state and the observed state.
pub open spec fn merged_upto(
    states: Seq<LetterState>,
    g: Seq<char>,
    sc: Seq<LetterState>,
    i: int,
) -> Seq<LetterState>
    decreases i,
{
    if i <= 0 {
        states
    } else {
        let prev = merged_upto(states, g, sc, i - 1);
        let k = letter_index(g[i - 1]);
        prev.update(k, state_max(prev[k], sc[i - 1]))
    }
}

/// Merging keeps the map's shape and never lowers any letter's state.
pub proof fn lemma_merged_monotonic(
    states: Seq<LetterState>,
    g: Seq<char>,
    sc: Seq<LetterState>,
    i: int,
)
    requires
        states.len() == 26,
        0 <= i <= g.len(),
        forall|j: int| 0 <= j < g.len() ==> is_lower_letter(#[trigger] g[j]),
    ensures
        merged_upto(states, g, sc, i).len() == 26,
        forall|k: int|
            0 <= k < 26 ==> rank(#[trigger] merged_upto(states, g, sc, i)[k]) >= rank(states[k]),
    decreases i,
{
    if i > 0 {
        lemma_merged_monotonic(states, g, sc, i - 1);
    }
}

/// The cumulative best-known state of every alphabet letter, one slot per
/// letter `'a'` through `'z'`.
pub struct LetterStateMap {
    states: Vec<LetterState>,
}

impl View for LetterStateMap {
    type V = Seq<LetterState>;

    closed spec fn view(&self) -> Seq<LetterState> {
        self.states@
    }
}

impl LetterStateMap {
    /// A well-shaped map has exactly one slot per alphabet letter.
    pub open spec fn wf(&self) -> bool {
        self@.len() == 26
    }

    /// A fresh map: nothing is known of any letter yet.
    pub fn new() -> (r: Self)
        ensures
            r.wf(),
            forall|k: int| 0 <= k < 26 ==> r@[k] == LetterState::Unknown,
    {
        let mut v: Vec<LetterState> = Vec::new();
        let mut i: usize = 0;
        while i < 26
            invariant
                i <= 26,
                v@.len() == i as int,
                forall|k: int| 0 <= k < i ==> v@[k] == LetterState::Unknown,
            decreases 26 - i,
        {
            v.push(LetterState::Unknown);
            i += 1;
        }
        LetterStateMap { states: v }
    }

    /// The current best-known state of one letter.
    pub fn get(&self, ch: char) -> (r: LetterState)
        requires
            self.wf(),
            is_lower_letter(ch),
        ensures
            r == self@[letter_index(ch)],
    {
        let k = (ch as u32 - 97) as usize;
        self.states[k]
    }

    /// Merge one scored guess into the map. Each position raises its
    /// letter's slot to at least the observed state; no letter's state is
    /// ever lowered.
    pub fn merge_guess(&mut self, guess: &Vec<char>, sc: &Vec<LetterState>)
        requires
            old(self).wf(),
            forall|j: int| 0 <= j < guess@.len() ==> is_lower_letter(#[trigger] guess@[j]),
            sc@.len() == guess@.len(),
        ensures
            final(self).wf(),
            final(self)@ == merged_upto(old(self)@, guess@, sc@, guess@.len() as int),
            forall|k: int| 0 <= k < 26 ==> rank(#[trigger] final(self)@[k]) >= rank(old(self)@[k]),
    {
        let ghost g = guess@;
        let ghost s0 = old(self)@;
        let n = guess.len();
        let mut i: usize = 0;
        while i < n
            invariant
                n == g.len(),
                i <= n,
                guess@ == g,
                sc@.len() == g.len(),
                forall|j: int| 0 <= j < g.len() ==> is_lower_letter(#[trigger] g[j]),
                s0.len() == 26,
                self.states@ == merged_upto(s0, g, sc@, i as int),
            decreases n - i,
        {
            proof {
                lemma_merged_monotonic(s0, g, sc@, i as int);
            }
            let k = (guess[i] as u32 - 97) as usize;
            let m = merge_state(self.states[k], sc[i]);
            self.states.set(k, m);
            i += 1;
        }
        proof {
            lemma_merged_monotonic(s0, g, sc@, g.len() as int);
        }
    }
}

} // verus!
