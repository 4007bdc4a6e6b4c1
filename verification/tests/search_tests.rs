use fuzzy_matcher::FuzzyMatcher;
use script_host::search::fuzzy_search;

fn names(list: &[&str]) -> Vec<String> {
    list.iter().map(|s| s.to_string()).collect()
}

#[test]
fn no_match_yields_nothing() {
    let items = names(&["breakout", "pong"]);
    let r = fuzzy_search("zzz", &items, 0);
    assert!(r.is_empty());
}

#[test]
fn matches_are_reported_best_first() {
    let items = names(&["breakout", "pong", "life", "ping"]);
    let r = fuzzy_search("p", &items, 0);
    // Exactly the matching entries are reported.
    let matcher = fuzzy_matcher::skim::SkimMatcherV2::default();
    let mut expected: Vec<(usize, i64)> = items
        .iter()
        .enumerate()
        .filter_map(|(i, item)| matcher.fuzzy_match(item, "p").map(|s| (i, s)))
        .filter(|(_, s)| *s > 0)
        .collect();
    // Stable descending sort by score, matching the host's ranking.
    expected.sort_by(|a, b| b.1.cmp(&a.1));
    let expected: Vec<usize> = expected.into_iter().map(|(i, _)| i).collect();
    assert_eq!(r, expected);
}

#[test]
fn the_score_floor_cuts_weak_matches() {
    let items = names(&["breakout", "pong"]);
    let all = fuzzy_search("pong", &items, 0);
    assert_eq!(all, vec![1]);
    // An absurdly high floor removes everything.
    let none = fuzzy_search("pong", &items, i64::MAX - 1);
    assert!(none.is_empty());
}

#[test]
fn equal_scores_keep_list_order() {
    let items = names(&["same", "same"]);
    let r = fuzzy_search("same", &items, 0);
    assert_eq!(r, vec![0, 1]);
}
