use hangman::word_list::{get_filtered_word_list, parse_score, split_fields};

fn lines(xs: &[&str]) -> Vec<String> {
    xs.iter().map(|s| s.to_string()).collect()
}

fn sorted(mut v: Vec<String>) -> Vec<String> {
    v.sort();
    v
}

#[test]
fn filter_keeps_matching_records() {
    let corpus = lines(&["cat::60", "dog::90", "elephant::70"]);
    let out = get_filtered_word_list(&corpus, 3, 50, 51, 100);
    assert_eq!(sorted(out), lines(&["cat", "dog", "elephant"]));
}

#[test]
fn filter_score_bounds_are_inclusive() {
    let corpus = lines(&["low::50", "min::51", "max::100", "high::101"]);
    let out = get_filtered_word_list(&corpus, 1, 50, 51, 100);
    assert_eq!(sorted(out), lines(&["max", "min"]));
}

#[test]
fn filter_length_counts_letters_only() {
    // "a b-c" has 3 letters; "it's" has 3 letters; digits do not count.
    let corpus = lines(&["a b-c::60", "it's::60", "ab12::60", "abcd::60"]);
    let out = get_filtered_word_list(&corpus, 3, 3, 51, 100);
    assert_eq!(sorted(out), lines(&["a b-c", "it's"]));
}

#[test]
fn filter_length_bounds_are_inclusive() {
    let corpus = lines(&["ab::60", "abc::60", "abcd::60", "abcde::60"]);
    let out = get_filtered_word_list(&corpus, 3, 4, 51, 100);
    assert_eq!(sorted(out), lines(&["abc", "abcd"]));
}

#[test]
fn filter_drops_malformed_lines() {
    let corpus = lines(&[
        "good::60",
        "noscore",
        "bad::score",
        "too::many::fields",
        "big::300",
        "empty::",
        "::60",
    ]);
    let out = get_filtered_word_list(&corpus, 1, 50, 51, 100);
    assert_eq!(sorted(out), lines(&["good"]));
}

#[test]
fn filter_membership_is_stable_across_runs() {
    let corpus = lines(&["one::60", "two::70", "three::80", "four::90", "five::99"]);
    let a = get_filtered_word_list(&corpus, 3, 50, 51, 100);
    let b = get_filtered_word_list(&corpus, 3, 50, 51, 100);
    assert_eq!(sorted(a), sorted(b));
    assert_eq!(
        sorted(get_filtered_word_list(&corpus, 3, 50, 51, 100)),
        lines(&["five", "four", "one", "three", "two"])
    );
}

#[test]
fn filter_keeps_duplicates() {
    let corpus = lines(&["twin::60", "twin::60", "other::60"]);
    let out = get_filtered_word_list(&corpus, 1, 50, 51, 100);
    assert_eq!(sorted(out), lines(&["other", "twin", "twin"]));
}

#[test]
fn filter_of_empty_corpus_is_empty() {
    let corpus: Vec<String> = Vec::new();
    let out = get_filtered_word_list(&corpus, 3, 50, 51, 100);
    assert!(out.is_empty());
}

#[test]
fn parse_score_accepts_plain_decimals() {
    assert_eq!(parse_score("0"), Some(0));
    assert_eq!(parse_score("60"), Some(60));
    assert_eq!(parse_score("255"), Some(255));
    assert_eq!(parse_score("007"), Some(7));
    assert_eq!(parse_score("+42"), Some(42));
}

#[test]
fn parse_score_rejects_malformed_fields() {
    assert_eq!(parse_score(""), None);
    assert_eq!(parse_score("+"), None);
    assert_eq!(parse_score("256"), None);
    assert_eq!(parse_score("99999999999999999999"), None);
    assert_eq!(parse_score("12a"), None);
    assert_eq!(parse_score("-1"), None);
    assert_eq!(parse_score(" 5"), None);
}

#[test]
fn split_fields_wants_exactly_one_separator() {
    assert_eq!(
        split_fields("cat::60"),
        Some(("cat".to_string(), "60".to_string()))
    );
    assert_eq!(split_fields("cat:60"), None);
    assert_eq!(split_fields("a::b::c"), None);
    assert_eq!(split_fields(":::"), Some(("".to_string(), ":".to_string())));
    assert_eq!(split_fields("a::::b"), None);
    assert_eq!(split_fields("plain"), None);
    assert_eq!(split_fields("::60"), Some(("".to_string(), "60".to_string())));
}
