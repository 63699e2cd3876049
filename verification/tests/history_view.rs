use torii::history_view::{parse_optional_json, status_family_key};

#[test]
fn parse_optional_json_handles_invalid_and_valid() {
    assert!(parse_optional_json(&Some("invalid".to_string())).is_none());
    let pretty = parse_optional_json(&Some("{\"k\":1}".to_string())).expect("pretty json");
    assert!(pretty.contains("\"k\": 1"));
}

#[test]
fn nothing_stored_gives_nothing() {
    assert!(parse_optional_json(&None).is_none());
}

#[test]
fn pretty_json_is_indented_and_reformatted() {
    let pretty = parse_optional_json(&Some("[1,2]".to_string())).unwrap();
    assert_eq!(pretty, "[\n  1,\n  2\n]");
}

#[test]
fn status_families_group_by_hundreds() {
    assert_eq!(status_family_key(Some(101)), "history_tab_status_family_1xx");
    assert_eq!(status_family_key(Some(200)), "history_tab_status_family_2xx");
    assert_eq!(status_family_key(Some(399)), "history_tab_status_family_3xx");
    assert_eq!(status_family_key(Some(404)), "history_tab_status_family_4xx");
    assert_eq!(status_family_key(Some(599)), "history_tab_status_family_5xx");
    assert_eq!(status_family_key(Some(600)), "history_tab_status_family_unknown");
    assert_eq!(status_family_key(Some(99)), "history_tab_status_family_unknown");
    assert_eq!(status_family_key(None), "history_tab_status_family_unknown");
}
