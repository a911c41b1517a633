use google_search::adapter::Google;
use google_search::normalize::normalize;
use google_search::search_result::SearchResult;
use google_search::xml::parse_suggestions;

fn titles(results: &[SearchResult]) -> Vec<String> {
    results.iter().map(|r| r.title().to_string()).collect()
}

fn strings(items: &[&str]) -> Vec<String> {
    items.iter().map(|s| s.to_string()).collect()
}

#[test]
fn parser_extracts_data_attributes_in_document_order() {
    let raw = r#"<root><suggestion data="cats"/><other/><suggestion data="dogs"/></root>"#;
    assert_eq!(parse_suggestions(raw), strings(&["cats", "dogs"]));
}

#[test]
fn parser_skips_suggestion_without_data() {
    let raw = r#"<root><suggestion/><suggestion data="x"/></root>"#;
    assert_eq!(parse_suggestions(raw), strings(&["x"]));
}

#[test]
fn parser_reads_nested_suggestions() {
    let raw = r#"<toplevel><CompleteSuggestion><suggestion data="alpha"/></CompleteSuggestion><CompleteSuggestion><suggestion data="beta"/></CompleteSuggestion></toplevel>"#;
    assert_eq!(parse_suggestions(raw), strings(&["alpha", "beta"]));
}

#[test]
fn malformed_markup_yields_no_candidates() {
    assert_eq!(parse_suggestions("<root><suggestion"), Vec::<String>::new());
    assert_eq!(parse_suggestions(""), Vec::<String>::new());
    assert_eq!(parse_suggestions("not xml at all"), Vec::<String>::new());
}

#[test]
fn policy_true_forces_query_to_front_without_duplicate() {
    let candidates = strings(&["pear", "apple"]);
    let out = normalize(&candidates, "apple", true);
    assert_eq!(titles(&out), strings(&["apple", "pear"]));
}

#[test]
fn policy_false_leaves_sorted_deduped_list() {
    let candidates = strings(&["pear", "apple"]);
    let out = normalize(&candidates, "apple", false);
    assert_eq!(titles(&out), strings(&["apple", "pear"]));
}

#[test]
fn policy_toggle_distinguished_by_absent_query() {
    let candidates = strings(&["pear", "banana"]);
    let with_query = normalize(&candidates, "apple", true);
    assert_eq!(titles(&with_query), strings(&["apple", "banana", "pear"]));
    let without = normalize(&candidates, "apple", false);
    assert_eq!(titles(&without), strings(&["banana", "pear"]));
}

#[test]
fn empty_candidates_yield_query_or_nothing() {
    let none: Vec<String> = Vec::new();
    assert_eq!(titles(&normalize(&none, "x", true)), strings(&["x"]));
    assert_eq!(titles(&normalize(&none, "x", false)), Vec::<String>::new());
}

#[test]
fn duplicates_collapse_to_one() {
    let candidates = strings(&["b", "a", "b", "a", "b"]);
    let out = normalize(&candidates, "z", false);
    assert_eq!(titles(&out), strings(&["a", "b"]));
}

#[test]
fn sort_is_by_code_point() {
    let candidates = strings(&["pear", "Banana", "apple"]);
    let out = normalize(&candidates, "z", false);
    assert_eq!(titles(&out), strings(&["Banana", "apple", "pear"]));
}

#[test]
fn normalize_is_deterministic_on_fixed_input() {
    let candidates = strings(&["pear", "apple", "pear"]);
    let first = titles(&normalize(&candidates, "plum", true));
    let second = titles(&normalize(&candidates, "plum", true));
    assert_eq!(first, second);
    assert_eq!(first, strings(&["plum", "apple", "pear"]));
}

#[test]
fn normalize_never_fills_extra_info() {
    let candidates = strings(&["pear", "apple"]);
    for r in normalize(&candidates, "apple", true) {
        assert!(r.extra_info.is_none());
    }
}

#[test]
fn search_degrades_to_query_on_transport_failure() {
    let google = Google::new();
    let out = google.search("x", None);
    assert_eq!(titles(&out), strings(&["x"]));
}

#[test]
fn search_runs_whole_pipeline_on_response() {
    let google = Google::new();
    let raw = r#"<toplevel><suggestion data="pear"/><suggestion data="apple"/><suggestion data="banana"/><suggestion data="pear"/></toplevel>"#;
    let out = google.search("apple", Some(raw));
    assert_eq!(titles(&out), strings(&["apple", "banana", "pear"]));
}

#[test]
fn search_result_carries_only_title() {
    let r = SearchResult::new("hello");
    assert_eq!(r.title(), "hello");
    assert!(r.extra_info.is_none());
}
