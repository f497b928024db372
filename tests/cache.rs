use browser_records::browser::{plan, serve_cached, serve_fresh, Source};
use browser_records::cache::{
    decode_bookmarks, decode_engines, encode_bookmarks, encode_engines, load_bookmarks,
    load_engines, RecordKind,
};
use browser_records::error::{CacheError, ExtractError, ProviderError};
use browser_records::types::Bookmark;
use browser_records::websearch::Engine;

fn sample() -> Vec<Bookmark> {
    vec![
        Bookmark::new(
            Some("Example".to_string()),
            "https://example.com".to_string(),
            Some("ex".to_string()),
        ),
        Bookmark::new(None, "https://rust-lang.org".to_string(), None),
        Bookmark::new(Some("Quote \" and \\ ü".to_string()), "u".to_string(), None),
    ]
}

fn texts(v: &[Bookmark]) -> Vec<(Option<String>, String, Option<String>)> {
    v.iter()
        .map(|b| (b.title.clone(), b.url.clone(), b.keyword.clone()))
        .collect()
}

#[test]
fn bookmarks_round_trip_through_the_cache_text() {
    let text = encode_bookmarks(&sample()).unwrap();
    let back = decode_bookmarks(&text).unwrap();
    assert_eq!(texts(&back), texts(&sample()));
    let again = load_bookmarks(Some(&text)).unwrap();
    assert_eq!(texts(&again), texts(&sample()));
}

#[test]
fn empty_set_round_trips() {
    let text = encode_bookmarks(&Vec::new()).unwrap();
    assert!(decode_bookmarks(&text).unwrap().is_empty());
}

#[test]
fn engines_round_trip_through_the_cache_text() {
    let es = vec![Engine::new("Duck", "https://d/?q={searchTerms}", "d", "duck.png")];
    let text = encode_engines(&es).unwrap();
    let back = load_engines(Some(&text)).unwrap();
    assert_eq!(back.len(), 1);
    assert_eq!(back[0].name, "Duck");
    assert_eq!(back[0].url, "https://d/?q={searchTerms}");
    assert_eq!(back[0].alias, "d");
    assert_eq!(back[0].icon, "duck.png");
    assert!(decode_engines(&encode_engines(&Vec::new()).unwrap()).unwrap().is_empty());
}

#[test]
fn missing_cache_file_is_not_found() {
    assert_eq!(load_bookmarks(None).err(), Some(CacheError::NotFound));
    assert_eq!(load_engines(None).err(), Some(CacheError::NotFound));
}

#[test]
fn unreadable_cache_text_is_corrupt() {
    assert_eq!(decode_bookmarks("not ron at all (").err(), Some(CacheError::Corrupt));
    assert_eq!(decode_bookmarks(r#"[[Some("a")]]"#).err(), Some(CacheError::Corrupt));
    assert_eq!(decode_bookmarks(r#"[[Some("a"), None, None]]"#).err(), Some(CacheError::Corrupt));
    assert_eq!(decode_engines(r#"[[Some("a"), Some("b"), None, Some("d")]]"#).err(), Some(CacheError::Corrupt));
}

#[test]
fn cache_rows_decode_in_order() {
    let b = decode_bookmarks(r#"[[Some("t"), Some("u"), None], [None, Some("v"), Some("k")]]"#).unwrap();
    assert_eq!(b.len(), 2);
    assert_eq!(b[0].title(), "t");
    assert_eq!(b[1].title(), "v");
    assert_eq!(b[1].keyword().as_deref(), Some("k"));
}

#[test]
fn cache_file_names_differ_by_kind() {
    assert_eq!(RecordKind::Bookmarks.file_name(), "firefox-bookmarks.ron");
    assert_eq!(RecordKind::Engines.file_name(), "firefox-engines.ron");
}

#[test]
fn live_browser_without_cache_fails_with_not_found() {
    assert_eq!(plan(true), Source::Cache);
    let r = serve_cached(load_bookmarks(None));
    assert_eq!(r.err(), Some(ProviderError::NotFound));
}

#[test]
fn live_browser_with_corrupt_cache_reports_it() {
    let r = serve_cached(load_bookmarks(Some("(")));
    assert_eq!(r.err(), Some(ProviderError::Cache(CacheError::Corrupt)));
}

#[test]
fn idle_browser_extracts_afresh() {
    assert_eq!(plan(false), Source::Extract);
    let fresh: Result<Vec<Bookmark>, ExtractError> = Ok(sample());
    assert_eq!(serve_fresh(fresh).unwrap().len(), 3);
    let failed: Result<Vec<Bookmark>, ExtractError> = Err(ExtractError::ConnectionFailed);
    assert_eq!(
        serve_fresh(failed).err(),
        Some(ProviderError::Extract(ExtractError::ConnectionFailed))
    );
}

#[test]
fn live_browser_serves_the_cached_snapshot() {
    let text = encode_bookmarks(&sample()).unwrap();
    let r = serve_cached(load_bookmarks(Some(&text))).unwrap();
    assert_eq!(texts(&r), texts(&sample()));
}
