use browser_records::engines::{engines_from_json, extract_search_engines};
use browser_records::error::ExtractError;
use browser_records::types::{ParameterData, UrlData};
use browser_records::websearch::{activation_url, engine_matches, Engine};

fn sidecar(json: &str) -> Vec<u8> {
    let mut file = b"mozLz40\0".to_vec();
    file.extend_from_slice(&lz4_flex::block::compress_prepend_size(json.as_bytes()));
    file
}

const DUCK: &str = r#"{
  "version": 6,
  "engines": [
    {"_name": "Google", "_isAppProvided": true, "_iconURL": "g",
     "_urls": [{"template": "https://google.com/search", "params": [{"name": "q", "value": "{searchTerms}"}]}]},
    {"_name": "DuckDuckGo", "_definedAliases": ["d", "ddg"], "_iconURL": "duck.png",
     "_urls": [{"template": "https://duckduckgo.com/?q={searchTerms}", "params": []}]}
  ],
  "metaData": {"current": "Google"}
}"#;

#[test]
fn alias_query_opens_the_engine_url() {
    let engines = extract_search_engines(&sidecar(DUCK)).unwrap();
    assert_eq!(engines.len(), 1);
    assert_eq!(engines[0].name, "DuckDuckGo");
    assert_eq!(engines[0].alias, "d");
    assert_eq!(engines[0].icon, "duck.png");
    let matches = engine_matches("d rust lang", "", &engines);
    assert_eq!(matches, vec![(0, "rust lang".to_string())]);
    let url = activation_url(&engines[matches[0].0], &matches[0].1);
    assert_eq!(url, "https://duckduckgo.com/?q=rust lang");
}

#[test]
fn parameters_are_appended_as_a_query_string() {
    let json = r#"{"engines": [{"_name": "S", "_iconURL": "i",
        "_urls": [{"template": "https://s.example/find", "params": [
            {"name": "q", "value": "{searchTerms}"}, {"name": "lang", "value": "en"}]}]}]}"#;
    let engines = extract_search_engines(&sidecar(json)).unwrap();
    assert_eq!(engines[0].url, "https://s.example/find?q={searchTerms}&lang=en");
    assert_eq!(engines[0].alias, "");
    assert_eq!(
        activation_url(&engines[0], "a b"),
        "https://s.example/find?q=a b&lang=en"
    );
}

#[test]
fn malformed_entries_are_skipped() {
    let json = r#"{"engines": [
        {"_iconURL": "i", "_urls": [{"template": "t", "params": []}]},
        {"_name": "NoUrls", "_iconURL": "i", "_urls": []},
        {"_name": "BadParam", "_iconURL": "i", "_urls": [{"template": "t", "params": [{"name": "q"}]}]},
        {"_name": "Good", "_iconURL": "i", "_definedAliases": [], "_urls": [{"template": "t", "params": []}]}
    ]}"#;
    let engines = extract_search_engines(&sidecar(json)).unwrap();
    assert_eq!(engines.len(), 1);
    assert_eq!(engines[0].name, "Good");
    assert_eq!(engines[0].url, "t");
}

#[test]
fn default_engine_is_moved_to_the_front() {
    let json = r#"{"engines": [
        {"_name": "A", "_iconURL": "i", "_urls": [{"template": "a", "params": []}]},
        {"_name": "B", "_iconURL": "i", "_urls": [{"template": "b", "params": []}]},
        {"_name": "C", "_iconURL": "i", "_urls": [{"template": "c", "params": []}]}
    ], "metaData": {"current": "C"}}"#;
    let engines = extract_search_engines(&sidecar(json)).unwrap();
    let names: Vec<&str> = engines.iter().map(|e| e.name.as_str()).collect();
    assert_eq!(names, vec!["C", "B", "A"]);
}

#[test]
fn short_file_fails_to_decompress() {
    assert_eq!(
        extract_search_engines(b"mozLz4").err(),
        Some(ExtractError::DecompressFailed)
    );
    assert_eq!(
        extract_search_engines(b"mozLz40\0\x01").err(),
        Some(ExtractError::DecompressFailed)
    );
}

#[test]
fn non_json_payload_is_malformed() {
    assert_eq!(
        extract_search_engines(&sidecar("not json")).err(),
        Some(ExtractError::MalformedSchema)
    );
}

#[test]
fn document_without_engines_is_malformed() {
    assert_eq!(
        extract_search_engines(&sidecar(r#"{"version": 6}"#)).err(),
        Some(ExtractError::MalformedSchema)
    );
    assert_eq!(
        extract_search_engines(&sidecar(r#"{"engines": 3}"#)).err(),
        Some(ExtractError::MalformedSchema)
    );
}

#[test]
fn empty_engine_list_is_not_an_error() {
    let engines = engines_from_json(&browser_records::json::Json::Object(vec![(
        "engines".to_string(),
        browser_records::json::Json::Array(vec![]),
    )]))
    .unwrap();
    assert!(engines.is_empty());
}

fn engine(name: &str, alias: &str) -> Engine {
    Engine::new(name, "https://x/?q={searchTerms}", alias, "icon")
}

#[test]
fn engines_without_alias_all_match() {
    let engines = vec![engine("A", ""), engine("B", "b"), engine("C", "")];
    let m = engine_matches("?hello", "?", &engines);
    assert_eq!(m, vec![(0, "hello".to_string()), (2, "hello".to_string())]);
}

#[test]
fn first_aliased_engine_wins() {
    let engines = vec![engine("A", ""), engine("B", "b"), engine("Bo", "bo")];
    assert_eq!(engine_matches("bo x", "", &engines), vec![(1, "o x".to_string())]);
}

#[test]
fn wrong_prefix_or_blank_query_matches_nothing() {
    let engines = vec![engine("A", "")];
    assert!(engine_matches("hello", "?", &engines).is_empty());
    assert!(engine_matches("?   ", "?", &engines).is_empty());
    let aliased = vec![engine("B", "b")];
    assert!(engine_matches("x", "", &aliased).is_empty());
}

#[test]
fn url_data_builds_the_full_url() {
    let u = UrlData::new(
        vec![
            ParameterData::new("a".to_string(), "1".to_string()),
            ParameterData::new("b".to_string(), "2".to_string()),
        ],
        "t".to_string(),
    );
    assert_eq!(u.url(), "t?a=1&b=2");
    assert_eq!(u.template(), "t");
    assert_eq!(u.params()[1].name(), "b");
    assert_eq!(u.params()[1].value(), "2");
    assert_eq!(UrlData::new(vec![], "t".to_string()).url(), "t");
}
