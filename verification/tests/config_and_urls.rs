use google_search::adapter::Google;
use google_search::config::{default_config, Config, EntryValue};
use google_search::search_result::SearchResult;
use google_search::urls::{build_search_url, build_suggest_url};

const KEY: &str = "Always return query even if no results found";

#[test]
fn default_config_turns_policy_on() {
    let config = default_config();
    assert_eq!(config.get_bool(KEY), Some(true));
    assert!(config.include_query());
}

#[test]
fn missing_option_falls_back_to_on() {
    let config = Config::new();
    assert_eq!(config.get_bool(KEY), None);
    assert!(config.include_query());
}

#[test]
fn malformed_option_falls_back_to_on() {
    let mut config = Config::new();
    config.insert(KEY.to_string(), EntryValue::Other);
    assert_eq!(config.get_bool(KEY), None);
    assert!(config.include_query());
}

#[test]
fn unrelated_entry_is_not_the_option() {
    let mut config = Config::new();
    config.insert("some other option".to_string(), EntryValue::Bool { value: false });
    assert_eq!(config.get_bool(KEY), None);
    assert!(config.include_query());
}

#[test]
fn pushed_config_replaces_the_default() {
    let mut google = Google::new();
    let mut config = Config::new();
    config.insert(KEY.to_string(), EntryValue::Bool { value: false });
    google.lazy_load_config(config);
    let out = google.search("x", None);
    assert!(out.is_empty());
}

#[test]
fn config_schema_offered_to_host_is_the_default() {
    let google = Google::new();
    let schema = google.get_config_entries();
    assert_eq!(schema.get_bool(KEY), Some(true));
}

#[test]
fn suggest_url_percent_encodes_the_query() {
    assert_eq!(
        build_suggest_url("a b"),
        "https://google.com/complete/search?q=a%20b&output=toolbar&hl=en"
    );
    assert_eq!(
        build_suggest_url("rust"),
        "https://google.com/complete/search?q=rust&output=toolbar&hl=en"
    );
}

#[test]
fn search_url_percent_encodes_the_title() {
    assert_eq!(build_search_url("c++ tips"), "https://google.com/search?q=c%2B%2B%20tips");
    let google = Google::new();
    let chosen = SearchResult::new("c++ tips");
    assert_eq!(google.execute_url(&chosen), "https://google.com/search?q=c%2B%2B%20tips");
}

#[test]
fn adapter_name_and_label() {
    let google = Google::new();
    assert_eq!(google.name(), "Google-Search");
    let label = google.colored_name();
    let spelled: String = label.iter().map(|c| c.character).collect();
    assert_eq!(spelled, "Google");
    assert_eq!(label[0].red, 66);
    assert_eq!(label[0].green, 133);
    assert_eq!(label[0].blue, 244);
    assert_eq!(label[0].alpha, 255);
}
