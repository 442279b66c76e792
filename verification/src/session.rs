//! The game session: validation, scoring, attempt counting, and the
//! win/loss state machine.
//!
//! A session owns the dictionary, the hidden word, its letter budget, the
//! persistent letter-state map and the attempt counter. Each submission is
//! validated in a fixed order (shape, dictionary membership, exact match,
//! attempt exhaustion) and moves the session one step through the state
//! machine described by [`step`] and [`outcome_of`].

use vstd::prelude::*;
use rand::seq::IndexedRandom;
use crate::counters::counter_clone;
use crate::counters::counter_from_word;
use crate::counters::counter_ms;
use crate::letters::LetterState;
use crate::letters::copy_word;
use crate::letters::is_normal_word;
use crate::letters::is_wellformed_guess;
use crate::letters::lemma_normalize_wellformed;
use crate::letters::normal_of;
use crate::letters::normalize_word;
use crate::letters::word_is_valid;
use crate::letters::words_equal;
use crate::scoring::count_in;
use crate::scoring::score_spec;
use crate::scoring::score_with;
use crate::state_map::LetterStateMap;
use crate::state_map::merged_upto;

verus! {

/// The most attempts a session allows before it is lost.
pub const MAX_TRIES: u32 = 6;

/// The mathematical state of one game session.
#[verifier::ext_equal]
pub struct SessionModel {
    /// The words the session accepts, in canonical form.
    pub dict: Seq<Seq<char>>,
    /// The hidden word, in canonical form.
    pub hidden: Seq<char>,
    /// The number of the attempt the next accepted guess uses, starting at 1.
    pub tries: int,
    /// The best-known state of each alphabet letter.
    pub states: Seq<LetterState>,
    /// Whether the session is still in progress.
    pub playing: bool,
}

/// Which kind of outcome a submission produces.
pub enum OutcomeKind {
    InvalidInput,
    UnknownWord,
    Accepted,
    Won,
    Lost,
}

/// A well-formed session model: a canonical hidden word drawn from a
/// canonical dictionary, an attempt number in range, one state per letter.
pub open spec fn model_wf(m: SessionModel) -> bool {
    &&& is_normal_word(m.hidden)
    &&& m.dict.contains(m.hidden)
    &&& forall|i: int| 0 <= i < m.dict.len() ==> is_normal_word(#[trigger] m.dict[i])
    &&& 1 <= m.tries <= MAX_TRIES
    &&& m.states.len() == 26
}

/// The outcome a submission gets, decided in the fixed validation order:
/// shape first, then dictionary membership, then the exact-match check,
/// then attempt exhaustion.
pub open spec fn outcome_of(m: SessionModel, w: Seq<char>) -> OutcomeKind {
    if !is_wellformed_guess(w) {
        OutcomeKind::InvalidInput
    } else if !m.dict.contains(normal_of(w)) {
        OutcomeKind::UnknownWord
    } else if normal_of(w) == m.hidden {
        OutcomeKind::Won
    } else if m.tries >= MAX_TRIES {
        OutcomeKind::Lost
    } else {
        OutcomeKind::Accepted
    }
}

/// The session state after a submission: rejected submissions change
/// nothing, a win or a loss ends the session, and an accepted guess is
/// scored, merged into the letter states, and consumes one attempt.
pub open spec fn step(m: SessionModel, w: Seq<char>) -> SessionModel {
    match outcome_of(m, w) {
        OutcomeKind::InvalidInput => m,
        OutcomeKind::UnknownWord => m,
        OutcomeKind::Won => SessionModel { playing: false, ..m },
        OutcomeKind::Lost => SessionModel { playing: false, ..m },
        OutcomeKind::Accepted => SessionModel {
            tries: m.tries + 1,
            states: merged_upto(
                m.states,
                normal_of(w),
                score_spec(m.hidden, normal_of(w)),
                normal_of(w).len() as int,
            ),
            ..m
        },
    }
}

/// One accepted, scored guess: the attempt it used, the word in canonical
/// form, and one state per position.
#[derive(Debug, PartialEq, Eq)]
pub struct Guess {
    pub try_no: u32,
    pub word: Vec<char>,
    pub states: Vec<LetterState>,
}

/// What one submission produced.
#[derive(Debug, PartialEq, Eq)]
pub enum Outcome {
    /// The submission was not five ASCII letters; nothing changed.
    InvalidInput,
    /// The word is not in the dictionary; nothing changed.
    UnknownWord,
    /// The guess was scored and the session goes on.
    Accepted(Guess),
    /// The guess was the hidden word; the attempt number that won.
    Won(u32),
    /// Attempts were exhausted; the hidden word, revealed.
    Lost(Vec<char>),
}

/// The kind of an outcome value.
pub open spec fn kind_of(o: Outcome) -> OutcomeKind {
    match o {
        Outcome::InvalidInput => OutcomeKind::InvalidInput,
        Outcome::UnknownWord => OutcomeKind::UnknownWord,
        Outcome::Accepted(_) => OutcomeKind::Accepted,
        Outcome::Won(_) => OutcomeKind::Won,
        Outcome::Lost(_) => OutcomeKind::Lost,
    }
}

/// Relies on `rand::seq::IndexedRandom::choose` on a slice, driven by
/// `rand::rng()`: `Some` of one element of the slice when it is not empty,
/// `None` when it is empty.
#[verifier::external_body]
fn choose_word(words: &Vec<Vec<char>>) -> (r: Option<Vec<char>>)
    ensures
        r is Some <==> words@.len() > 0,
        r matches Some(w) ==> exists|i: int| 0 <= i < words@.len() && w@ == #[trigger] words@[i]@,
{
    words.as_slice().choose(&mut rand::rng()).cloned()
}

/// One game: dictionary, hidden word, letter budget, accumulated letter
/// states and the attempt counter.
pub struct GameSession {
    dict: Vec<Vec<char>>,
    hidden: Vec<char>,
    budget: counter::Counter<char>,
    letter_states: LetterStateMap,
    try_no: u32,
    playing: bool,
}

impl View for GameSession {
    type V = SessionModel;

    closed spec fn view(&self) -> SessionModel {
        SessionModel {
            dict: self.dict@.map_values(|v: Vec<char>| v@),
            hidden: self.hidden@,
            tries: self.try_no as int,
            states: self.letter_states@,
            playing: self.playing,
        }
    }
}

impl GameSession {
    /// The stored letter budget holds exactly the hidden word's letter
    /// counts.
    pub closed spec fn budget_ok(&self) -> bool {
        forall|ch: char| counter_ms(self.budget).count(ch) == count_in(self@.hidden, ch)
    }

    /// Session invariant: a well-formed model and a matching letter budget.
    pub open spec fn wf(&self) -> bool {
        &&& model_wf(self@)
        &&& self.budget_ok()
    }

    /// Start a session with a chosen hidden word from the dictionary.
    /// The caller (a random selector, or a test) picks the word.
    pub fn new(dict: Vec<Vec<char>>, hidden: Vec<char>) -> (r: Self)
        requires
            is_normal_word(hidden@),
            dict@.map_values(|v: Vec<char>| v@).contains(hidden@),
            forall|i: int| 0 <= i < dict@.len() ==> is_normal_word(#[trigger] dict@[i]@),
        ensures
            r.wf(),
            r@.dict == dict@.map_values(|v: Vec<char>| v@),
            r@.hidden == hidden@,
            r@.tries == 1,
            r@.playing,
            forall|k: int| 0 <= k < 26 ==> r@.states[k] == LetterState::Unknown,
    {
        let budget = counter_from_word(&hidden);
        GameSession {
            dict,
            hidden,
            budget,
            letter_states: LetterStateMap::new(),
            try_no: 1,
            playing: true,
        }
    }

    /// Start a session with a hidden word drawn at random from a non-empty
    /// dictionary.
    pub fn new_random(dict: Vec<Vec<char>>) -> (r: Self)
        requires
            dict@.len() > 0,
            forall|i: int| 0 <= i < dict@.len() ==> is_normal_word(#[trigger] dict@[i]@),
        ensures
            r.wf(),
            r@.dict == dict@.map_values(|v: Vec<char>| v@),
            r@.tries == 1,
            r@.playing,
            forall|k: int| 0 <= k < 26 ==> r@.states[k] == LetterState::Unknown,
    {
        let chosen = choose_word(&dict);
        match chosen {
            Some(w) => {
                proof {
                    let i = choose|i: int| 0 <= i < dict@.len() && w@ == dict@[i]@;
                    assert(dict@.map_values(|v: Vec<char>| v@)[i] == w@);
                    assert(dict@.map_values(|v: Vec<char>| v@).contains(w@));
                }
                GameSession::new(dict, w)
            },
            None => vstd::pervasive::unreached(),
        }
    }

    /// Whether a raw word has the shape of a guess: five ASCII letters.
    pub fn word_valid(&self, word: &Vec<char>) -> (r: bool)
        ensures
            r == is_wellformed_guess(word@),
    {
        word_is_valid(word)
    }

    /// Whether a canonical word is in the session's dictionary.
    pub fn word_known(&self, word: &Vec<char>) -> (r: bool)
        ensures
            r == self@.dict.contains(word@),
    {
        let mut i: usize = 0;
        while i < self.dict.len()
            invariant
                i <= self.dict@.len(),
                forall|j: int| 0 <= j < i ==> self@.dict[j] != word@,
            decreases self.dict@.len() - i,
        {
            if words_equal(&self.dict[i], word) {
                proof {
                    assert(self@.dict[i as int] == word@);
                }
                return true;
            }
            i += 1;
        }
        proof {
            assert(forall|j: int| 0 <= j < self@.dict.len() ==> self@.dict[j] != word@);
        }
        false
    }

    /// The number of the attempt the next accepted guess would use.
    pub fn try_no(&self) -> (r: u32)
        ensures
            r as int == self@.tries,
    {
        self.try_no
    }

    /// Whether the session is still in progress.
    pub fn in_progress(&self) -> (r: bool)
        ensures
            r == self@.playing,
    {
        self.playing
    }

    /// The current best-known states of the alphabet letters, for display.
    pub fn letter_states(&self) -> (r: &LetterStateMap)
        ensures
            r@ == self@.states,
    {
        &self.letter_states
    }

    /// Submit one raw guess.
    ///
    /// The submission is validated in the fixed order: shape, then
    /// dictionary membership, then the exact-match check, then attempt
    /// exhaustion. Rejected submissions change nothing; a win or a loss
    /// ends the session; an accepted guess is scored, merged into the
    /// letter states, and consumes one attempt.
    pub fn submit(&mut self, word: &Vec<char>) -> (r: Outcome)
        requires
            old(self).wf(),
            old(self)@.playing,
        ensures
            final(self).wf(),
            final(self)@ == step(old(self)@, word@),
            kind_of(r) == outcome_of(old(self)@, word@),
            r matches Outcome::Won(n) ==> n as int == old(self)@.tries,
            r matches Outcome::Lost(h) ==> h@ == old(self)@.hidden,
            r matches Outcome::Accepted(g) ==> ({
                &&& g.try_no as int == old(self)@.tries
                &&& g.word@ == normal_of(word@)
                &&& g.states@ == score_spec(old(self)@.hidden, normal_of(word@))
            }),
    {
        if !word_is_valid(word) {
            return Outcome::InvalidInput;
        }
        let normal = normalize_word(word);
        proof {
            lemma_normalize_wellformed(word@);
        }
        if !self.word_known(&normal) {
            return Outcome::UnknownWord;
        }
        if words_equal(&normal, &self.hidden) {
            self.playing = false;
            proof {
                assert(self@ =~= step(old(self)@, word@));
            }
            return Outcome::Won(self.try_no);
        }
        if self.try_no >= MAX_TRIES {
            self.playing = false;
            let h = copy_word(&self.hidden);
            proof {
                assert(self@ =~= step(old(self)@, word@));
            }
            return Outcome::Lost(h);
        }
        let work = counter_clone(&self.budget);
        let sc = score_with(work, &self.hidden, &normal);
        self.letter_states.merge_guess(&normal, &sc);
        let try_no = self.try_no;
        self.try_no = self.try_no + 1;
        proof {
            assert(self@ =~= step(old(self)@, word@));
        }
        Outcome::Accepted(Guess { try_no, word: normal, states: sc })
    }
}

} // verus!
