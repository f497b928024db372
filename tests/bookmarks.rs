use browser_records::bookmarks::{
    blank_matches, bookmark_matches, bookmarks_from_rows, fuzzy_match_bookmarks, keyword_match,
};
use browser_records::browser::{is_running, plan, serve_fresh, Source};
use browser_records::config::{Bib, BrowserConfig, CommonConfig, Config};
use browser_records::types::Bookmark;

fn bm(title: Option<&str>, url: &str, keyword: Option<&str>) -> Bookmark {
    Bookmark::new(
        title.map(|s| s.to_string()),
        url.to_string(),
        keyword.map(|s| s.to_string()),
    )
}

fn example() -> Vec<Bookmark> {
    vec![bm(Some("Example"), "https://example.com", Some("ex"))]
}

#[test]
fn keyword_selects_its_bookmark() {
    let config = Config::default();
    assert_eq!(bookmark_matches("ex", &config, &example()), vec![0]);
}

#[test]
fn fuzzy_query_after_prefix_finds_the_bookmark() {
    let config = Config::default();
    assert_eq!(bookmark_matches("*exa", &config, &example()), vec![0]);
    assert_eq!(bookmark_matches("* exa  ", &config, &example()), vec![0]);
}

#[test]
fn input_without_prefix_selects_nothing() {
    let config = Config::default();
    assert!(bookmark_matches("exa", &config, &example()).is_empty());
}

#[test]
fn empty_keyword_never_matches() {
    let bms = vec![bm(Some("A"), "a", Some("")), bm(Some("B"), "b", Some("k"))];
    assert_eq!(keyword_match(&bms, ""), None);
    assert_eq!(keyword_match(&bms, "k"), Some(1));
    assert_eq!(keyword_match(&bms, "K"), None);
}

fn many() -> Vec<Bookmark> {
    vec![
        bm(Some("One"), "1", None),
        bm(None, "two", None),
        bm(Some("Three"), "3", None),
    ]
}

#[test]
fn blank_input_follows_the_policy() {
    let all = Config::new(Some("*".to_string()), Some(2), Some(Bib::All));
    assert_eq!(bookmark_matches("*  ", &all, &many()), vec![0, 1]);
    let nothing = Config::new(None, None, Some(Bib::Nothing));
    assert!(bookmark_matches("*", &nothing, &many()).is_empty());
    let unset = Config::new(None, None, None);
    assert!(bookmark_matches("*", &unset, &many()).is_empty());
    let listed = Config::new(
        None,
        Some(7),
        Some(Bib::Currated(vec!["Three".to_string(), "two".to_string()])),
    );
    assert_eq!(bookmark_matches("*", &listed, &many()), vec![1, 2]);
}

#[test]
fn curated_list_is_cut_at_the_limit() {
    let bib = Bib::Currated(vec!["One".to_string(), "Three".to_string()]);
    assert_eq!(blank_matches(&many(), &bib, 1), vec![0]);
    assert_eq!(blank_matches(&many(), &Bib::All, 10), vec![0, 1, 2]);
}

#[test]
fn fuzzy_results_respect_max_entries() {
    let bms = vec![
        bm(Some("rust book"), "1", None),
        bm(Some("rustonomicon"), "2", None),
        bm(Some("rust by example"), "3", None),
    ];
    let config = Config::new(Some("".to_string()), Some(2), None);
    let r = bookmark_matches("rust", &config, &bms);
    assert_eq!(r.len(), 2);
}

#[test]
fn unreadable_rows_are_skipped() {
    let rows = vec![
        Some((Some("A".to_string()), "a".to_string(), None)),
        None,
        Some((None, "b".to_string(), Some("k".to_string()))),
    ];
    let bms = bookmarks_from_rows(rows);
    assert_eq!(bms.len(), 2);
    assert_eq!(bms[0].title(), "A");
    assert_eq!(bms[1].title(), "b");
    assert_eq!(bms[1].url(), "b");
    assert_eq!(bms[1].keyword(), &Some("k".to_string()));
    assert!(bookmarks_from_rows(vec![]).is_empty());
}

#[test]
fn config_fallbacks() {
    let c = Config::new(None, None, None);
    assert_eq!(c.prefix(), "*");
    assert_eq!(c.max_entries(), 7);
    assert!(matches!(c.bib(), Bib::Nothing));
    let d = Config::default();
    assert_eq!(d.prefix(), "*");
    assert!(matches!(d.bib(), Bib::All));
    let common = CommonConfig::new(None, None);
    assert_eq!(common.browser_profile_name(), "default");
    assert!(common.prefix_args().is_empty());
    let set = CommonConfig::new(Some("work".to_string()), Some(vec!["x".to_string()]));
    assert_eq!(set.browser_profile_name(), "work");
    assert_eq!(set.prefix_args(), &["x".to_string()]);
    assert_eq!(CommonConfig::default().browser_profile_name(), "default");
    let browser = BrowserConfig::new(None, None);
    assert_eq!(browser.profile_name(), "default");
    assert_eq!(browser.command_prefix(), "");
    assert_eq!(BrowserConfig::default().command_prefix(), "");
    let b2 = BrowserConfig::new(Some("p".to_string()), Some("uwsm app -- ".to_string()));
    assert_eq!(b2.profile_name(), "p");
    assert_eq!(b2.command_prefix(), "uwsm app -- ");
}

#[test]
fn idle_browser_bookmark_scenario() {
    let table = Some(vec![Some("bash".to_string())]);
    let live = is_running(&table, "firefox");
    assert!(!live);
    assert_eq!(plan(live), Source::Extract);
    let rows = vec![Some((
        Some("Example".to_string()),
        "https://example.com".to_string(),
        Some("ex".to_string()),
    ))];
    let bms = serve_fresh(Ok(bookmarks_from_rows(rows))).unwrap();
    let config = Config::default();
    assert_eq!(bookmark_matches("ex", &config, &bms), vec![0]);
    assert_eq!(bms[0].url(), "https://example.com");
    assert_eq!(fuzzy_match_bookmarks(&bms, "exa", config.max_entries()), vec![0]);
}
