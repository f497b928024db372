use browser_records::bookmarks::fuzzy_match_bookmarks;
use browser_records::rank::{rank, rank_scores};
use browser_records::types::Bookmark;
use fuzzy_matcher::skim::SkimMatcherV2;
use fuzzy_matcher::FuzzyMatcher;

fn strings(v: &[&str]) -> Vec<String> {
    v.iter().map(|s| s.to_string()).collect()
}

#[test]
fn rank_scores_orders_by_score_then_position() {
    let scores = vec![Some(5), None, Some(7), Some(5)];
    assert_eq!(rank_scores(&scores, 10), vec![2, 0, 3]);
}

#[test]
fn rank_scores_truncates_to_limit() {
    let scores = vec![Some(5), None, Some(7), Some(5)];
    assert_eq!(rank_scores(&scores, 2), vec![2, 0]);
    assert_eq!(rank_scores(&scores, 0), Vec::<usize>::new());
}

#[test]
fn rank_scores_of_no_matches_is_empty() {
    let scores: Vec<Option<i64>> = vec![None, None];
    assert_eq!(rank_scores(&scores, 5), Vec::<usize>::new());
    assert_eq!(rank_scores(&Vec::new(), 5), Vec::<usize>::new());
}

#[test]
fn rank_scores_handles_extreme_scores() {
    let scores = vec![Some(i64::MIN), Some(i64::MAX), Some(i64::MIN)];
    assert_eq!(rank_scores(&scores, 3), vec![1, 0, 2]);
}

#[test]
fn rank_output_is_non_increasing_and_bounded() {
    let cands = strings(&["apple pie", "banana", "grape", "pineapple", "apricot", "papaya"]);
    let matcher = SkimMatcherV2::default();
    for limit in 0..8 {
        let r = rank(&cands, "ap", limit);
        assert!(r.len() <= limit);
        let scores: Vec<i64> = r
            .iter()
            .map(|&i| matcher.fuzzy_match(&cands[i], "ap").unwrap())
            .collect();
        for w in scores.windows(2) {
            assert!(w[0] >= w[1]);
        }
    }
}

#[test]
fn rank_leaves_out_candidates_without_the_query_in_order() {
    let cands = strings(&["banana", "apple", "cherry", "pa"]);
    let r = rank(&cands, "ap", 10);
    assert_eq!(r, vec![1]);
    assert!(!r.contains(&0));
    assert!(!r.contains(&2));
    assert!(!r.contains(&3));
}

#[test]
fn rank_keeps_input_order_on_equal_scores() {
    let cands = strings(&["abc", "xyz", "abc", "abc"]);
    assert_eq!(rank(&cands, "abc", 10), vec![0, 2, 3]);
    assert_eq!(rank(&cands, "abc", 2), vec![0, 2]);
}

#[test]
fn rank_matches_the_matcher_order() {
    let cands = strings(&["firefox bookmarks", "fb", "foo bar", "nothing"]);
    let matcher = SkimMatcherV2::default();
    let mut expected: Vec<(i64, usize)> = cands
        .iter()
        .enumerate()
        .filter_map(|(i, c)| matcher.fuzzy_match(c, "fb").map(|s| (s, i)))
        .collect();
    expected.sort_by(|a, b| b.0.cmp(&a.0));
    let expected: Vec<usize> = expected.into_iter().map(|(_, i)| i).collect();
    assert_eq!(rank(&cands, "fb", 10), expected);
}

#[test]
fn fuzzy_bookmark_is_top_result() {
    let bms = vec![Bookmark::new(
        Some("Example".to_string()),
        "https://example.com".to_string(),
        Some("ex".to_string()),
    )];
    assert_eq!(fuzzy_match_bookmarks(&bms, "exa", 7), vec![0]);
}

#[test]
fn fuzzy_bookmark_without_title_matches_its_url() {
    let bms = vec![
        Bookmark::new(None, "https://rust-lang.org".to_string(), None),
        Bookmark::new(Some("Docs".to_string()), "https://docs.rs".to_string(), None),
    ];
    assert_eq!(fuzzy_match_bookmarks(&bms, "rustlang", 7), vec![0]);
}
