use wordle::dictionary::build_dictionary;
use wordle::letters::LetterState;
use wordle::letters::normalize_word;
use wordle::letters::word_is_valid;
use wordle::scoring::score;

fn w(s: &str) -> Vec<char> {
    s.chars().collect()
}

fn credited_for(guess: &[char], states: &[LetterState], ch: char) -> usize {
    guess
        .iter()
        .zip(states.iter())
        .filter(|(g, s)| {
            **g == ch && matches!(**s, LetterState::RightPlace | LetterState::WrongPlace)
        })
        .count()
}

fn count_of(word: &[char], ch: char) -> usize {
    word.iter().filter(|c| **c == ch).count()
}

#[test]
fn exact_match_scores_all_right_place() {
    let hidden = w("abide");
    let states = score(&hidden, &hidden);
    assert_eq!(states, vec![LetterState::RightPlace; 5]);
}

#[test]
fn duplicate_letters_eerie_vs_abide() {
    // Only one 'e' in the hidden word; the exact match at the last position
    // takes it, so the earlier 'e's are NotPresent.
    let states = score(&w("abide"), &w("eerie"));
    assert_eq!(
        states,
        vec![
            LetterState::NotPresent,
            LetterState::NotPresent,
            LetterState::NotPresent,
            LetterState::WrongPlace,
            LetterState::RightPlace,
        ]
    );
}

#[test]
fn duplicate_letters_erase_vs_abide() {
    // Exactly one of the two guessed 'e's is credited, and it is the
    // exact-match position; the 'a' is present elsewhere.
    let states = score(&w("abide"), &w("erase"));
    assert_eq!(
        states,
        vec![
            LetterState::NotPresent,
            LetterState::NotPresent,
            LetterState::WrongPlace,
            LetterState::NotPresent,
            LetterState::RightPlace,
        ]
    );
    let guess = w("erase");
    assert_eq!(credited_for(&guess, &states, 'e'), 1);
}

#[test]
fn over_guessing_ellen_vs_level() {
    // "level" holds two 'l's and two 'e's: exactly two of each are credited.
    let hidden = w("level");
    let guess = w("ellen");
    let states = score(&hidden, &guess);
    assert_eq!(
        states,
        vec![
            LetterState::WrongPlace,
            LetterState::WrongPlace,
            LetterState::WrongPlace,
            LetterState::RightPlace,
            LetterState::NotPresent,
        ]
    );
    assert_eq!(credited_for(&guess, &states, 'l'), 2);
    assert_eq!(credited_for(&guess, &states, 'e'), 2);
}

#[test]
fn credits_never_exceed_hidden_counts() {
    let pairs = [
        ("abide", "eerie"),
        ("abide", "erase"),
        ("level", "ellen"),
        ("level", "lulls"),
        ("crane", "crane"),
        ("sassy", "essay"),
    ];
    for (h, g) in pairs {
        let hidden = w(h);
        let guess = w(g);
        let states = score(&hidden, &guess);
        let right = states
            .iter()
            .filter(|s| matches!(**s, LetterState::RightPlace))
            .count();
        assert!(right <= hidden.len());
        for ch in 'a'..='z' {
            assert!(credited_for(&guess, &states, ch) <= count_of(&hidden, ch));
        }
    }
}

#[test]
fn word_shape_validation() {
    assert!(word_is_valid(&w("crane")));
    assert!(word_is_valid(&w("CRANE")));
    assert!(word_is_valid(&w("crANe")));
    assert!(!word_is_valid(&w("cran")));
    assert!(!word_is_valid(&w("cranes")));
    assert!(!word_is_valid(&w("cr4ne")));
    assert!(!word_is_valid(&w("cr ne")));
    assert!(!word_is_valid(&w("")));
}

#[test]
fn normalization_lowers_ascii_letters() {
    assert_eq!(normalize_word(&w("CrAnE")), w("crane"));
    assert_eq!(normalize_word(&w("crane")), w("crane"));
}

#[test]
fn dictionary_keeps_wellformed_lines_in_canonical_form() {
    let lines: Vec<Vec<char>> = vec![
        w("hello"),
        w("WORLD"),
        w("toolong"),
        w("ab1de"),
        w("hi"),
        w("crane"),
    ];
    let dict = build_dictionary(&lines);
    assert_eq!(dict, vec![w("hello"), w("world"), w("crane")]);
}
