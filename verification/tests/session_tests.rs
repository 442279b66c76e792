use wordle::letters::LetterState;
use wordle::session::GameSession;
use wordle::session::Outcome;
use wordle::state_map::LetterStateMap;

fn w(s: &str) -> Vec<char> {
    s.chars().collect()
}

fn dict() -> Vec<Vec<char>> {
    ["level", "ellen", "eerie", "crane", "slate", "abide", "erase", "query"]
        .iter()
        .map(|s| w(s))
        .collect()
}

#[test]
fn win_on_first_try() {
    let mut s = GameSession::new(dict(), w("crane"));
    assert!(s.in_progress());
    assert_eq!(s.try_no(), 1);
    assert_eq!(s.submit(&w("crane")), Outcome::Won(1));
    assert!(!s.in_progress());
}

#[test]
fn uppercase_input_is_normalized() {
    let mut s = GameSession::new(dict(), w("crane"));
    assert_eq!(s.submit(&w("CRANE")), Outcome::Won(1));
}

#[test]
fn invalid_input_reported_twice_without_consuming_attempts() {
    let mut s = GameSession::new(dict(), w("crane"));
    assert_eq!(s.submit(&w("cr4ne")), Outcome::InvalidInput);
    assert_eq!(s.try_no(), 1);
    assert_eq!(s.submit(&w("cr4ne")), Outcome::InvalidInput);
    assert_eq!(s.try_no(), 1);
    assert!(s.in_progress());
}

#[test]
fn short_and_long_inputs_are_invalid() {
    let mut s = GameSession::new(dict(), w("crane"));
    assert_eq!(s.submit(&w("cran")), Outcome::InvalidInput);
    assert_eq!(s.submit(&w("cranes")), Outcome::InvalidInput);
    assert_eq!(s.try_no(), 1);
}

#[test]
fn unknown_word_consumes_no_attempt() {
    let mut s = GameSession::new(dict(), w("crane"));
    assert_eq!(s.submit(&w("zzzzz")), Outcome::UnknownWord);
    assert_eq!(s.try_no(), 1);
    assert!(s.in_progress());
}

#[test]
fn malformed_input_is_invalid_not_unknown() {
    // Validation order: the shape check comes before dictionary membership.
    let mut s = GameSession::new(dict(), w("crane"));
    assert_eq!(s.submit(&w("zz2zz")), Outcome::InvalidInput);
}

#[test]
fn accepted_guess_is_scored_and_counted() {
    let mut s = GameSession::new(dict(), w("level"));
    let o = s.submit(&w("ellen"));
    match o {
        Outcome::Accepted(g) => {
            assert_eq!(g.try_no, 1);
            assert_eq!(g.word, w("ellen"));
            assert_eq!(
                g.states,
                vec![
                    LetterState::WrongPlace,
                    LetterState::WrongPlace,
                    LetterState::WrongPlace,
                    LetterState::RightPlace,
                    LetterState::NotPresent,
                ]
            );
        }
        other => panic!("expected an accepted guess, got {:?}", other),
    }
    assert_eq!(s.try_no(), 2);
    assert!(s.in_progress());
}

#[test]
fn letter_states_accumulate_without_demotion() {
    let mut s = GameSession::new(dict(), w("level"));

    // "eerie" against "level": the 'e' at position 2 is an exact match.
    match s.submit(&w("eerie")) {
        Outcome::Accepted(_) => {}
        other => panic!("expected an accepted guess, got {:?}", other),
    }
    assert_eq!(s.letter_states().get('e'), LetterState::RightPlace);
    assert_eq!(s.letter_states().get('r'), LetterState::NotPresent);
    assert_eq!(s.letter_states().get('l'), LetterState::Unknown);

    // "ellen" places its 'e's less well; the map must keep RightPlace.
    match s.submit(&w("ellen")) {
        Outcome::Accepted(_) => {}
        other => panic!("expected an accepted guess, got {:?}", other),
    }
    assert_eq!(s.letter_states().get('e'), LetterState::RightPlace);
    assert_eq!(s.letter_states().get('l'), LetterState::WrongPlace);
    assert_eq!(s.letter_states().get('n'), LetterState::NotPresent);
    assert_eq!(s.letter_states().get('r'), LetterState::NotPresent);
}

#[test]
fn win_on_last_attempt_is_won_not_lost() {
    let mut s = GameSession::new(dict(), w("query"));
    for _ in 0..5 {
        match s.submit(&w("slate")) {
            Outcome::Accepted(_) => {}
            other => panic!("expected an accepted guess, got {:?}", other),
        }
    }
    assert_eq!(s.try_no(), 6);
    assert_eq!(s.submit(&w("query")), Outcome::Won(6));
    assert!(!s.in_progress());
}

#[test]
fn six_misses_lose_and_reveal_the_hidden_word() {
    let mut s = GameSession::new(dict(), w("query"));
    let misses = ["level", "ellen", "eerie", "crane", "slate"];
    for (k, m) in misses.iter().enumerate() {
        match s.submit(&w(m)) {
            Outcome::Accepted(g) => assert_eq!(g.try_no as usize, k + 1),
            other => panic!("expected an accepted guess, got {:?}", other),
        }
    }
    assert_eq!(s.try_no(), 6);
    assert_eq!(s.submit(&w("abide")), Outcome::Lost(w("query")));
    assert!(!s.in_progress());
}

#[test]
fn random_session_draws_its_word_from_the_dictionary() {
    let mut s = GameSession::new_random(vec![w("crane")]);
    assert_eq!(s.submit(&w("crane")), Outcome::Won(1));
}

#[test]
fn fresh_letter_state_map_knows_nothing() {
    let m = LetterStateMap::new();
    for ch in 'a'..='z' {
        assert_eq!(m.get(ch), LetterState::Unknown);
    }
}

#[test]
fn word_checks_match_the_dictionary() {
    let s = GameSession::new(dict(), w("crane"));
    assert!(s.word_valid(&w("crane")));
    assert!(!s.word_valid(&w("cr4ne")));
    assert!(s.word_known(&w("slate")));
    assert!(!s.word_known(&w("zzzzz")));
}
