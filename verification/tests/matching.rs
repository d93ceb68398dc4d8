//! The matcher: classification and the stable three-way partition.
use dmenu_rs::matcher::gen_matches;
use dmenu_rs::item::{Item, MatchCode};

fn items_of(texts: &[&str]) -> Vec<Item> {
    texts.iter().map(|t| Item::new(t.to_string(), false, 10)).collect()
}

fn texts_of(items: &Vec<Item>) -> Vec<String> {
    items.iter().map(|it| it.text.clone()).collect()
}

#[test]
fn classify_exact_prefix_substring_none() {
    let exact = Item::new("app".to_string(), false, 1);
    let prefix = Item::new("apple".to_string(), false, 1);
    let substring = Item::new("pineapple".to_string(), false, 1);
    let none = Item::new("banana".to_string(), false, 1);
    assert!(matches!(exact.matches("app", true), Some(MatchCode::Exact)));
    assert!(matches!(prefix.matches("app", true), Some(MatchCode::Prefix)));
    assert!(matches!(substring.matches("app", true), Some(MatchCode::Substring)));
    assert!(matches!(none.matches("app", true), Some(MatchCode::NoMatch)));
}

#[test]
fn partition_is_exact_then_prefix_then_substring() {
    let items = items_of(&["apple", "app", "application", "banana"]);
    let matched = gen_matches(&items, "app", true).unwrap();
    assert_eq!(texts_of(&matched), vec!["app", "apple", "application"]);
}

#[test]
fn partition_keeps_source_order_within_groups() {
    let items = items_of(&["xay", "ab", "za", "a", "ax"]);
    let matched = gen_matches(&items, "a", true).unwrap();
    // exact: "a"; prefixes in source order; substrings in source order
    assert_eq!(texts_of(&matched), vec!["a", "ab", "ax", "xay", "za"]);
}

#[test]
fn empty_query_keeps_everything() {
    let items = items_of(&["apple", "", "banana"]);
    let matched = gen_matches(&items, "", true).unwrap();
    // an empty query matches at the start of every text: the empty text is
    // an exact match, everything else a prefix match in source order
    assert_eq!(texts_of(&matched), vec!["", "apple", "banana"]);
}

#[test]
fn case_insensitive_matching() {
    let items = items_of(&["Apple", "APP", "banana"]);
    let matched = gen_matches(&items, "app", false).unwrap();
    assert_eq!(texts_of(&matched), vec!["APP", "Apple"]);
    let strict = gen_matches(&items, "app", true).unwrap();
    assert_eq!(strict.len(), 0);
}

#[test]
fn query_with_regex_metacharacters_is_literal() {
    let items = items_of(&["a.c", "abc", "x(a.c)y"]);
    let matched = gen_matches(&items, "a.c", true).unwrap();
    // escaped: the dot matches only a literal dot
    assert_eq!(texts_of(&matched), vec!["a.c", "x(a.c)y"]);
}

#[test]
fn dropped_candidates_never_reappear() {
    let items = items_of(&["one", "two", "three"]);
    let matched = gen_matches(&items, "zzz", true).unwrap();
    assert!(matched.is_empty());
}

#[test]
fn fuzzy_ranks_matches_and_drops_misses() {
    let items = items_of(&["application", "app", "apple", "xyz"]);
    let ranked = dmenu_rs::plugins::gen_matches_fuzzy(&items, "app");
    let texts = texts_of(&ranked);
    // the miss is dropped
    assert!(!texts.contains(&"xyz".to_string()));
    assert_eq!(texts.len(), 3);
    // the exact text ranks first: shorter of the best-scored
    assert_eq!(texts[0], "app");
}

#[test]
fn fuzzy_empty_pattern_keeps_all() {
    let items = items_of(&["b", "a"]);
    let ranked = dmenu_rs::plugins::gen_matches_fuzzy(&items, "");
    assert_eq!(ranked.len(), 2);
}

#[test]
fn fuzzy_ranking_is_stable_among_equals() {
    // equal scores and equal lengths: the source order survives the sort
    let items = items_of(&["xb", "xc", "xa"]);
    let ranked = dmenu_rs::plugins::gen_matches_fuzzy(&items, "x");
    assert_eq!(texts_of(&ranked), vec!["xb", "xc", "xa"]);
}
