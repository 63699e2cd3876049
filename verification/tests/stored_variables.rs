use torii::stored_variables::{entries_from_parsed, entry_from, parse_variable_entries, JsonMember, JsonValue};
use torii::variable_resolution::{VariableEntry, VariableValue};

fn plain(key: &str, enabled: bool, value: &str) -> VariableEntry {
    VariableEntry { key: key.to_string(), enabled, value: VariableValue::Plain { value: value.to_string() } }
}

#[test]
fn stored_lists_decode_into_definitions() {
    let text = r#"[
        {"key": "host", "value": {"type": "plain", "value": "example.test"}},
        {"key": "off", "enabled": false, "value": {"type": "plain", "value": "x"}},
        {"key": "token", "enabled": true, "value": {"type": "secret", "secret_ref": "k1"}},
        {"key": "none", "value": {"type": "secret", "secret_ref": null}},
        {"key": "bare", "value": {"type": "secret"}}
    ]"#;
    let entries = parse_variable_entries(text).unwrap();
    assert_eq!(
        entries,
        vec![
            plain("host", true, "example.test"),
            plain("off", false, "x"),
            VariableEntry { key: "token".into(), enabled: true, value: VariableValue::Secret { secret_ref: Some("k1".into()) } },
            VariableEntry { key: "none".into(), enabled: true, value: VariableValue::Secret { secret_ref: None } },
            VariableEntry { key: "bare".into(), enabled: true, value: VariableValue::Secret { secret_ref: None } },
        ]
    );
}

#[test]
fn a_list_with_an_item_that_is_not_a_definition_holds_none() {
    assert!(parse_variable_entries(r#"[{"key": "a", "value": {"type": "plain", "value": "1"}}, 5]"#).is_none());
    assert!(parse_variable_entries(r#"[{"key": "a", "enabled": 1, "value": {"type": "plain", "value": "1"}}]"#).is_none());
    assert!(parse_variable_entries(r#"[{"key": "a", "value": {"type": "other"}}]"#).is_none());
    assert!(parse_variable_entries(r#"[{"value": {"type": "plain", "value": "1"}}]"#).is_none());
}

#[test]
fn objects_become_enabled_plain_definitions_and_other_text_none() {
    let entries = parse_variable_entries(r#"{"b": 2, "a": "x", "c": {"d": [true, null]}}"#).unwrap();
    assert_eq!(entries, vec![plain("a", true, "x"), plain("b", true, "2"), plain("c", true, r#"{"d":[true,null]}"#)]);
    assert_eq!(parse_variable_entries("not json").unwrap(), vec![]);
    assert_eq!(parse_variable_entries("42").unwrap(), vec![]);
    assert_eq!(parse_variable_entries("[]").unwrap(), vec![]);
}

fn member(name: &str, value: JsonValue, text: &str) -> JsonMember {
    JsonMember { name: name.to_string(), value, text: text.to_string() }
}

#[test]
fn parsed_values_give_their_definitions() {
    assert_eq!(entries_from_parsed(&None).unwrap(), vec![]);
    assert_eq!(entries_from_parsed(&Some(JsonValue::Bool(true))).unwrap(), vec![]);
    let members = JsonValue::Members(vec![
        member("k", JsonValue::Text("v".to_string()), "\"v\""),
        member("n", JsonValue::Number("1.5".to_string()), "1.5"),
    ]);
    assert_eq!(entries_from_parsed(&Some(members)).unwrap(), vec![plain("k", true, "v"), plain("n", true, "1.5")]);
    let item = || JsonValue::Members(vec![
        member("key", JsonValue::Text("k".to_string()), "\"k\""),
        member("enabled", JsonValue::Bool(false), "false"),
        member("value", JsonValue::Members(vec![
            member("type", JsonValue::Text("plain".to_string()), "\"plain\""),
            member("value", JsonValue::Text("v".to_string()), "\"v\""),
        ]), "{}"),
    ]);
    assert_eq!(entry_from(&item()), Some(plain("k", false, "v")));
    assert_eq!(entry_from(&JsonValue::Null), None);
    let list = JsonValue::List(vec![item(), JsonValue::Number("3".to_string())]);
    assert!(entries_from_parsed(&Some(list)).is_none());
    assert_eq!(entries_from_parsed(&Some(JsonValue::List(vec![item()]))).unwrap(), vec![plain("k", false, "v")]);
}
