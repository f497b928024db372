use browser_records::browser::{
    default_browser_id, get_default_browser, is_running, Browser, Firefox,
};
use browser_records::error::ProviderError;
use browser_records::index::IndexAction;
use browser_records::pages::is_valid_page;

fn table(names: &[Option<&str>]) -> Option<Vec<Option<String>>> {
    Some(names.iter().map(|n| n.map(|s| s.to_string())).collect())
}

#[test]
fn liveness_needs_an_exact_match() {
    assert!(!is_running(&table(&[]), "firefox"));
    assert!(!is_running(&table(&[Some("firefox-bin"), Some("fire"), None]), "firefox"));
    assert!(is_running(&table(&[None, Some("bash"), Some("firefox")]), "firefox"));
}

#[test]
fn unreadable_process_table_counts_as_not_running() {
    assert!(!is_running(&None, "firefox"));
}

#[test]
fn profile_directory_is_found_by_name() {
    let dirs = vec![
        "profiles.ini".to_string(),
        "abcd.default-release".to_string(),
        "wxyz.work".to_string(),
    ];
    assert_eq!(Firefox::profile_dir(&dirs, "work"), Some(2));
    assert_eq!(Firefox::profile_dir(&dirs, "default"), Some(1));
    assert_eq!(Firefox::profile_dir(&dirs, "missing"), None);
    assert_eq!(Firefox::new("work").profile_dir2(&dirs), Some(2));
}

#[test]
fn browser_id_drops_the_desktop_suffix() {
    assert_eq!(default_browser_id("firefox.desktop\n"), "firefox");
    assert_eq!(default_browser_id("  org.chromium.Chromium.desktop "), "org.chromium.Chromium");
}

#[test]
fn only_firefox_is_supported() {
    match get_default_browser("firefox", "work") {
        Ok(Browser::Firefox(f)) => assert_eq!(f.profile_name, "work"),
        Err(_) => panic!("firefox must be supported"),
    }
    assert_eq!(
        get_default_browser("chromium", "default").err().map(|e| e == ProviderError::UnsupportedBrowser),
        Some(true)
    );
}

#[test]
fn new_window_command_puts_the_prefix_first() {
    let f = Firefox::new("default");
    assert_eq!(
        f.new_window("https://a", &[]),
        vec!["firefox", "--new-window", "https://a"]
    );
    let prefix = vec!["uwsm".to_string(), "app".to_string(), "--".to_string()];
    assert_eq!(
        f.new_window("https://a", &prefix),
        vec!["uwsm", "app", "--", "firefox", "--new-window", "https://a"]
    );
}

#[test]
fn page_addresses_are_recognised() {
    assert_eq!(is_valid_page("example.com").unwrap(), true);
    assert_eq!(is_valid_page("https://docs.rs/regex").unwrap(), true);
    assert_eq!(is_valid_page("192.168.0.1").unwrap(), true);
    assert_eq!(is_valid_page("localhost:8080").unwrap(), true);
    assert_eq!(is_valid_page("about:config").unwrap(), true);
    assert_eq!(is_valid_page("rust lang").unwrap(), false);
    assert_eq!(is_valid_page("localhost:99999").unwrap(), false);
}

#[test]
fn index_actions_by_number() {
    assert_eq!(IndexAction::from(0), IndexAction::Open);
    assert_eq!(IndexAction::from(1), IndexAction::CopyPath);
    assert_eq!(IndexAction::from(2), IndexAction::Back);
}
