use issen::search::fuzzy::{ascii_lower, fuzzy_match, score_classes, CharClass};

#[test]
fn matches_subsequence_case_insensitively() {
    assert!(fuzzy_match("chr", "Google Chrome").is_some());
    assert!(fuzzy_match("gcr", "Google Chrome").is_some());
    assert!(fuzzy_match("xyz", "Google Chrome").is_none());
}

#[test]
fn word_boundary_scores_higher_than_mid_word() {
    let boundary = fuzzy_match("c", "Google Chrome").unwrap();
    let mid_word = fuzzy_match("r", "Google Chrome").unwrap();
    assert!(boundary > mid_word);
}

#[test]
fn empty_query_matches_everything_with_zero_score() {
    assert_eq!(fuzzy_match("", "anything"), Some(0));
}

#[test]
fn scores_are_exact() {
    assert_eq!(fuzzy_match("c", "Google Chrome"), Some(9));
    assert_eq!(fuzzy_match("r", "Google Chrome"), Some(1));
    // A word start, then two consecutive characters.
    assert_eq!(fuzzy_match("chr", "Google Chrome"), Some(9 + 6 + 6));
    assert_eq!(fuzzy_match("gcr", "Google Chrome"), Some(9 + 9 + 1));
    assert_eq!(fuzzy_match("a", ""), None);
}

#[test]
fn a_capital_behind_a_small_letter_starts_a_word() {
    assert_eq!(fuzzy_match("p", "myPhone"), Some(9));
    assert_eq!(fuzzy_match("p", "myphone"), Some(1));
    // Behind a capital it does not.
    assert_eq!(fuzzy_match("p", "MYPHONE"), Some(1));
}

#[test]
fn separators_and_other_scripts_make_word_starts() {
    assert_eq!(fuzzy_match("b", "a-b"), Some(9));
    assert_eq!(fuzzy_match("b", "a9b"), Some(1));
    assert_eq!(fuzzy_match("b", "あb"), Some(1));
    assert_eq!(fuzzy_match("ト", "テスト"), Some(1));
}

#[test]
fn only_ascii_letters_ignore_case() {
    assert_eq!(fuzzy_match("É", "école"), None);
    assert_eq!(fuzzy_match("é", "école"), Some(9));
    assert_eq!(ascii_lower('Q'), 'q');
    assert_eq!(ascii_lower('É'), 'É');
    assert_eq!(ascii_lower('@'), '@');
}

#[test]
fn the_query_is_matched_as_early_as_possible() {
    // The second character is taken where it stands first, in the middle of a word.
    assert_eq!(fuzzy_match("ab", "axb b"), Some(9 + 1));
}

#[test]
fn query_case_does_not_change_the_score() {
    assert_eq!(fuzzy_match("CHR", "Google Chrome"), fuzzy_match("chr", "Google Chrome"));
}

#[test]
fn every_character_adds_between_one_and_fourteen() {
    let score = fuzzy_match("- -", "- - -").unwrap();
    assert!((3..=42).contains(&score));
    assert_eq!(fuzzy_match("--", "--"), Some(9 + 14));
}

#[test]
fn a_text_matches_itself() {
    assert!(fuzzy_match("Visual Studio Code", "Visual Studio Code").is_some());
}

#[test]
fn given_classes_decide_the_bonus() {
    let plain = CharClass { alphanumeric: true, uppercase: false, lowercase: true };
    let capital = CharClass { alphanumeric: true, uppercase: true, lowercase: false };
    let query = vec!['b'];
    let target = vec!['a', 'b'];
    assert_eq!(score_classes(&query, &target, &vec![plain, plain]), Some(1));
    assert_eq!(score_classes(&query, &target, &vec![plain, capital]), Some(9));
}
