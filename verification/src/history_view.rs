//! Text shown for stored history entries.
use vstd::prelude::*;

use crate::domain::opt_view;

verus! {

/// serde_json's pretty-printed form of a JSON text; `None` when the text is
/// not JSON.
pub uninterp spec fn json_pretty_text(raw: Seq<char>) -> Option<Seq<char>>;

/// Parses a text as a `serde_json::Value` (`serde_json::from_str`) and
/// writes it back with `serde_json::to_string_pretty`; `None` when either
/// step fails.
#[verifier::external_body]
pub(crate) fn pretty_json(raw: &str) -> (r: Option<String>)
    ensures
        opt_view(r) == json_pretty_text(raw@),
{
    let parsed = serde_json::from_str::<serde_json::Value>(raw).ok()?;
    serde_json::to_string_pretty(&parsed).ok()
}

/// A stored JSON text, pretty-printed: `None` when nothing is stored or the
/// text is not JSON.
pub fn parse_optional_json(value: &Option<String>) -> (r: Option<String>)
    ensures
        value is None ==> r is None,
        value matches Some(raw) ==> opt_view(r) == json_pretty_text(raw@),
{
    match value {
        Some(raw) => pretty_json(raw.as_str()),
        None => None,
    }
}

/// The message key of the status family a history entry is grouped under:
/// its hundreds (`1xx` to `5xx`), or unknown for a missing or other code.
pub open spec fn status_family_key_spec(status_code: Option<i64>) -> Seq<char> {
    match status_code {
        Some(code) => if 100 <= code <= 199 {
            "history_tab_status_family_1xx"@
        } else if 200 <= code <= 299 {
            "history_tab_status_family_2xx"@
        } else if 300 <= code <= 399 {
            "history_tab_status_family_3xx"@
        } else if 400 <= code <= 499 {
            "history_tab_status_family_4xx"@
        } else if 500 <= code <= 599 {
            "history_tab_status_family_5xx"@
        } else {
            "history_tab_status_family_unknown"@
        },
        None => "history_tab_status_family_unknown"@,
    }
}

/// The message key of the status family a history entry is grouped under.
pub fn status_family_key(status_code: Option<i64>) -> (r: &'static str)
    ensures
        r@ == status_family_key_spec(status_code),
{
    match status_code {
        Some(code) => if 100 <= code && code <= 199 {
            "history_tab_status_family_1xx"
        } else if 200 <= code && code <= 299 {
            "history_tab_status_family_2xx"
        } else if 300 <= code && code <= 399 {
            "history_tab_status_family_3xx"
        } else if 400 <= code && code <= 499 {
            "history_tab_status_family_4xx"
        } else if 500 <= code && code <= 599 {
            "history_tab_status_family_5xx"
        } else {
            "history_tab_status_family_unknown"
        },
        None => "history_tab_status_family_unknown",
    }
}

} // verus!
