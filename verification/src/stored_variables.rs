//! Reading the variable definitions stored with a workspace, an environment
//! or a request: a JSON list of definitions, or a JSON object whose members
//! are plain definitions.
use vstd::prelude::*;

use crate::text::{chars_eq, chars_of};
use crate::variable_resolution::{VariableEntry, VariableValue};

verus! {

/// A JSON value as plain data: a number keeps its JSON text, an object its
/// members in the order the parser gives them.
#[derive(Debug, PartialEq, Eq)]
pub enum JsonValue {
    Null,
    Bool(bool),
    Number(String),
    Text(String),
    List(Vec<JsonValue>),
    Members(Vec<JsonMember>),
}

/// A member of a JSON object: its name, its value, and the value's JSON
/// text.
#[derive(Debug, PartialEq, Eq)]
pub struct JsonMember {
    pub name: String,
    pub value: JsonValue,
    pub text: String,
}

#[verifier::external_type_specification]
#[verifier::external_body]
pub struct ExJsonValue(serde_json::Value);

/// What `serde_json::from_str::<serde_json::Value>` reads a text as, as
/// plain data; `None` when the text is not JSON. A function of the text
/// alone.
pub uninterp spec fn parsed_json(text: Seq<char>) -> Option<JsonValue>;

/// A parsed JSON value as plain data, member for member and item for item,
/// each member with the JSON text of its value (`Value`'s `Display`).
#[verifier::external_body]
fn json_value(value: serde_json::Value) -> JsonValue {
    match value {
        serde_json::Value::Null => JsonValue::Null,
        serde_json::Value::Bool(b) => JsonValue::Bool(b),
        serde_json::Value::Number(n) => JsonValue::Number(n.to_string()),
        serde_json::Value::String(s) => JsonValue::Text(s),
        serde_json::Value::Array(items) => JsonValue::List(items.into_iter().map(json_value).collect()),
        serde_json::Value::Object(m) => JsonValue::Members(
            m.into_iter().map(|(name, v)| JsonMember { name, text: v.to_string(), value: json_value(v) }).collect(),
        ),
    }
}

/// Parses a text with `serde_json::from_str` into a `serde_json::Value`
/// and hands it over as plain data; `None` when it is not JSON.
#[verifier::external_body]
fn read_json(text: &str) -> (r: Option<JsonValue>)
    ensures
        r == parsed_json(text@),
{
    serde_json::from_str::<serde_json::Value>(text).ok().map(json_value)
}

/// The value of the first member named `name`.
pub open spec fn member_of(members: Seq<JsonMember>, name: Seq<char>) -> Option<JsonValue>
    decreases members.len(),
{
    if members.len() == 0 {
        None
    } else if members[0].name@ == name {
        Some(members[0].value)
    } else {
        member_of(members.drop_first(), name)
    }
}

/// A stored value: an object tagged by its `type` member, `plain` with a
/// string `value`, or `secret` with a `secret_ref` that is a string, null
/// or absent.
pub open spec fn value_from_json(v: JsonValue) -> Option<VariableValue> {
    match v {
        JsonValue::Members(ms) => match member_of(ms@, "type"@) {
            Some(JsonValue::Text(tag)) => if tag@ == "plain"@ {
                match member_of(ms@, "value"@) {
                    Some(JsonValue::Text(value)) => Some(VariableValue::Plain { value }),
                    _ => None,
                }
            } else if tag@ == "secret"@ {
                match member_of(ms@, "secret_ref"@) {
                    None => Some(VariableValue::Secret { secret_ref: None }),
                    Some(JsonValue::Null) => Some(VariableValue::Secret { secret_ref: None }),
                    Some(JsonValue::Text(r)) => Some(VariableValue::Secret { secret_ref: Some(r) }),
                    _ => None,
                }
            } else {
                None
            },
            _ => None,
        },
        _ => None,
    }
}

/// A stored definition: an object with a string `key`, a boolean `enabled`
/// (enabled when absent) and a `value`.
pub open spec fn entry_from_json(v: JsonValue) -> Option<VariableEntry> {
    match v {
        JsonValue::Members(ms) => match (
            member_of(ms@, "key"@),
            member_of(ms@, "enabled"@),
            member_of(ms@, "value"@),
        ) {
            (Some(JsonValue::Text(key)), enabled, Some(value)) => match (
                enabled,
                value_from_json(value),
            ) {
                (None, Some(value)) => Some(VariableEntry { key, enabled: true, value }),
                (Some(JsonValue::Bool(b)), Some(value)) => Some(VariableEntry { key, enabled: b, value }),
                _ => None,
            },
            _ => None,
        },
        _ => None,
    }
}

/// The definitions of a list, when every item is one.
pub open spec fn entries_from_list(items: Seq<JsonValue>) -> Option<Seq<VariableEntry>>
    decreases items.len(),
{
    if items.len() == 0 {
        Some(Seq::empty())
    } else {
        match (entries_from_list(items.drop_last()), entry_from_json(items.last())) {
            (Some(rest), Some(e)) => Some(rest.push(e)),
            _ => None,
        }
    }
}

/// The definition a member of a stored object makes: enabled, plain, with
/// the member's text when it is a string and its JSON text otherwise.
pub open spec fn entry_from_member(m: JsonMember) -> VariableEntry {
    VariableEntry {
        key: m.name,
        enabled: true,
        value: VariableValue::Plain {
            value: match m.value {
                JsonValue::Text(s) => s,
                _ => m.text,
            },
        },
    }
}

/// The definitions stored text holds, given what it parses to: none when it
/// is not JSON or neither a list nor an object; a list's definitions, or
/// `None` when an item is not one; an object's members as plain
/// definitions.
pub open spec fn stored_entries(parsed: Option<JsonValue>) -> Option<Seq<VariableEntry>> {
    match parsed {
        Some(JsonValue::List(items)) => entries_from_list(items@),
        Some(JsonValue::Members(ms)) => Some(ms@.map_values(|m: JsonMember| entry_from_member(m))),
        _ => Some(Seq::empty()),
    }
}

/// The text is exactly `lit`.
fn text_is(s: &String, lit: &str) -> (r: bool)
    ensures
        r == (s@ == lit@),
{
    let a = chars_of(s.as_str());
    let b = chars_of(lit);
    chars_eq(a.as_slice(), b.as_slice())
}

/// The value of the first member named `name`.
fn find_member<'a>(members: &'a Vec<JsonMember>, name: &str) -> (r: Option<&'a JsonValue>)
    ensures
        match r {
            Some(v) => member_of(members@, name@) == Some(*v),
            None => member_of(members@, name@) is None,
        },
{
    let mut i: usize = 0;
    proof {
        assert(members@.skip(0) =~= members@);
    }
    while i < members.len()
        invariant
            i <= members.len(),
            member_of(members@, name@) == member_of(members@.skip(i as int), name@),
        decreases members.len() - i,
    {
        proof {
            assert(members@.skip(i as int).drop_first() =~= members@.skip(i + 1));
            assert(members@.skip(i as int)[0] == members@[i as int]);
        }
        if text_is(&members[i].name, name) {
            return Some(&members[i].value);
        }
        i = i + 1;
    }
    None
}

/// A stored value, as `value_from_json` reads it.
fn value_from(v: &JsonValue) -> (r: Option<VariableValue>)
    ensures
        r == value_from_json(*v),
{
    match v {
        JsonValue::Members(ms) => match find_member(ms, "type") {
            Some(JsonValue::Text(tag)) => {
                if text_is(tag, "plain") {
                    match find_member(ms, "value") {
                        Some(JsonValue::Text(value)) => Some(VariableValue::Plain { value: value.clone() }),
                        _ => None,
                    }
                } else if text_is(tag, "secret") {
                    match find_member(ms, "secret_ref") {
                        None => Some(VariableValue::Secret { secret_ref: None }),
                        Some(JsonValue::Null) => Some(VariableValue::Secret { secret_ref: None }),
                        Some(JsonValue::Text(r)) => Some(VariableValue::Secret { secret_ref: Some(r.clone()) }),
                        _ => None,
                    }
                } else {
                    None
                }
            },
            _ => None,
        },
        _ => None,
    }
}

/// A stored definition, as `entry_from_json` reads it.
pub fn entry_from(v: &JsonValue) -> (r: Option<VariableEntry>)
    ensures
        r == entry_from_json(*v),
{
    match v {
        JsonValue::Members(ms) => {
            let key = match find_member(ms, "key") {
                Some(JsonValue::Text(k)) => k.clone(),
                _ => {
                    return None;
                },
            };
            let enabled = match find_member(ms, "enabled") {
                None => true,
                Some(JsonValue::Bool(b)) => *b,
                Some(_) => {
                    return None;
                },
            };
            let value = match find_member(ms, "value") {
                Some(x) => match value_from(x) {
                    Some(value) => value,
                    None => {
                        return None;
                    },
                },
                None => {
                    return None;
                },
            };
            Some(VariableEntry { key, enabled, value })
        },
        _ => None,
    }
}

/// The definitions stored text holds, as `stored_entries` reads them from
/// what the text parses to.
pub fn entries_from_parsed(parsed: &Option<JsonValue>) -> (r: Option<Vec<VariableEntry>>)
    ensures
        match r {
            Some(v) => stored_entries(*parsed) == Some(v@),
            None => stored_entries(*parsed) is None,
        },
{
    match parsed {
        Some(JsonValue::List(items)) => {
            let mut out: Vec<VariableEntry> = Vec::new();
            let mut i: usize = 0;
            while i < items.len()
                invariant
                    i <= items.len(),
                    stored_entries(*parsed) == entries_from_list(items@),
                    entries_from_list(items@.take(i as int)) == Some(out@),
                decreases items.len() - i,
            {
                proof {
                    assert(items@.take(i + 1).drop_last() =~= items@.take(i as int));
                    assert(items@.take(i + 1).last() == items@[i as int]);
                }
                match entry_from(&items[i]) {
                    Some(e) => {
                        out.push(e);
                    },
                    None => {
                        proof {
                            assert(entries_from_list(items@.take(i + 1)) is None);
                            lemma_list_fails_from(items@, i as int + 1);
                        }
                        return None;
                    },
                }
                i = i + 1;
            }
            proof {
                assert(items@.take(i as int) =~= items@);
            }
            Some(out)
        },
        Some(JsonValue::Members(ms)) => {
            let mut out: Vec<VariableEntry> = Vec::new();
            let mut i: usize = 0;
            while i < ms.len()
                invariant
                    i <= ms.len(),
                    out@ == ms@.take(i as int).map_values(|m: JsonMember| entry_from_member(m)),
                decreases ms.len() - i,
            {
                let value = match &ms[i].value {
                    JsonValue::Text(s) => s.clone(),
                    _ => ms[i].text.clone(),
                };
                out.push(VariableEntry { key: ms[i].name.clone(), enabled: true, value: VariableValue::Plain { value } });
                proof {
                    assert(out@ =~= ms@.take(i + 1).map_values(|m: JsonMember| entry_from_member(m)));
                }
                i = i + 1;
            }
            proof {
                assert(ms@.take(i as int) =~= ms@);
            }
            Some(out)
        },
        _ => {
            let v: Vec<VariableEntry> = Vec::new();
            proof {
                assert(v@ =~= Seq::<VariableEntry>::empty());
            }
            Some(v)
        },
    }
}

/// A list whose first `n` items hold one that is not a definition holds no
/// definitions as a whole.
proof fn lemma_list_fails_from(items: Seq<JsonValue>, n: int)
    requires
        0 < n <= items.len(),
        entries_from_list(items.take(n)) is None,
    ensures
        entries_from_list(items) is None,
    decreases items.len() - n,
{
    if n < items.len() {
        assert(items.take(n + 1).drop_last() =~= items.take(n));
        lemma_list_fails_from(items, n + 1);
    } else {
        assert(items.take(n) =~= items);
    }
}

/// The definitions stored text holds: a JSON list of definitions, or a JSON
/// object whose members are enabled plain definitions (a non-string value
/// as its JSON text); none when the text is not JSON or is another value;
/// `None` when a list item is not a definition.
pub fn parse_variable_entries(text: &str) -> (r: Option<Vec<VariableEntry>>)
    ensures
        match r {
            Some(v) => stored_entries(parsed_json(text@)) == Some(v@),
            None => stored_entries(parsed_json(text@)) is None,
        },
{
    let parsed = read_json(text);
    entries_from_parsed(&parsed)
}

} // verus!
