//! Decisions of the request tab: how to show a response body, which index a
//! label selects, how to name a saved file, and the small state machines of
//! the editor.
use vstd::prelude::*;
use vstd::string::{StringExecFns, StringSliceAdditionalSpecFns};
use vstd::utf8::encode_utf8;

use crate::domain::{opt_view, ApiKeyLocation, AuthType, BodyRef, BodyType, ResponseSummary};
use crate::history_view::{json_pretty_text, pretty_json};
use crate::error_classifier::ClassifiedError;
use crate::request_editor_state::ExecStatus;
use crate::text::{
    append_all, ascii_lower, ascii_upper, chars_eq, chars_of, decimal, decimal_chars,
    contains_seq, find_from, first_match, is_ws, lemma_first_match_is, lemma_trim_after_ws, match_at,
    starts_with, starts_with_exec, string_of, sub_vec, to_ascii_lowercase, to_ascii_uppercase, trim,
    trim_bounds,
};
use crate::variable_resolution::{join_names, missing_message};

verus! {

pub(crate) fn lowered(s: &str) -> (r: Vec<char>)
    ensures
        r@ == ascii_lower(s@),
{
    let c = chars_of(s);
    to_ascii_lowercase(c.as_slice())
}

pub(crate) fn is_lit(s: &[char], lit: &str) -> (r: bool)
    ensures
        r == (s@ == lit@),
{
    let l = chars_of(lit);
    chars_eq(s, l.as_slice())
}

fn starts_with_lit(s: &[char], lit: &str) -> (r: bool)
    ensures
        r == starts_with(s@, lit@),
{
    let l = chars_of(lit);
    starts_with_exec(s, l.as_slice())
}

/// An image media type: it starts with `image/`, in any letter case.
pub open spec fn spec_looks_like_image(media_type: Option<Seq<char>>) -> bool {
    media_type matches Some(m) && starts_with(ascii_lower(m), "image/"@)
}

pub open spec fn opt_str_view(o: Option<&str>) -> Option<Seq<char>> {
    match o {
        Some(s) => Some(s@),
        None => None,
    }
}

pub fn looks_like_image(media_type: Option<&str>) -> (r: bool)
    ensures
        r == spec_looks_like_image(opt_str_view(media_type)),
{
    match media_type {
        Some(value) => {
            let l = lowered(value);
            starts_with_lit(l.as_slice(), "image/")
        },
        None => false,
    }
}

/// HTML: the media type is `text/html`, in any letter case.
pub fn looks_like_html(media_type: Option<&str>) -> (r: bool)
    ensures
        r == (opt_str_view(media_type) matches Some(m) && ascii_lower(m) == "text/html"@),
{
    match media_type {
        Some(value) => {
            let l = lowered(value);
            is_lit(l.as_slice(), "text/html")
        },
        None => false,
    }
}

/// Media types whose bodies are shown as text; an unknown type counts as text.
pub open spec fn spec_is_text_like(media_type: Option<Seq<char>>) -> bool {
    match media_type {
        None => true,
        Some(m) => {
            let l = ascii_lower(m);
            ||| starts_with(l, "text/"@)
            ||| l == "application/json"@
            ||| l == "application/xml"@
            ||| l == "text/xml"@
            ||| l == "text/html"@
            ||| l == "application/javascript"@
            ||| l == "application/x-www-form-urlencoded"@
        },
    }
}

pub fn is_text_like_media_type(media_type: Option<&str>) -> (r: bool)
    ensures
        r == spec_is_text_like(opt_str_view(media_type)),
{
    let media_type = match media_type {
        None => return true,
        Some(m) => m,
    };
    let l = lowered(media_type);
    let s = l.as_slice();
    starts_with_lit(s, "text/") || is_lit(s, "application/json") || is_lit(s, "application/xml")
        || is_lit(s, "text/xml") || is_lit(s, "text/html") || is_lit(s, "application/javascript")
        || is_lit(s, "application/x-www-form-urlencoded")
}

/// The extension that a saved response body gets from its media type.
pub open spec fn spec_file_extension(media_type: Option<Seq<char>>) -> Seq<char> {
    match media_type {
        Some(m) => {
            let l = ascii_lower(m);
            if l == "application/json"@ {
                "json"@
            } else if l == "application/xml"@ || l == "text/xml"@ {
                "xml"@
            } else if l == "text/html"@ {
                "html"@
            } else if starts_with(l, "text/"@) {
                "txt"@
            } else if starts_with(l, "image/"@) {
                "img"@
            } else {
                "bin"@
            }
        },
        None => "bin"@,
    }
}

/// `response.<ext>`, the ext chosen by the media type.
pub fn suggested_file_name(media_type: Option<&str>) -> (r: String)
    ensures
        r@ == "response."@ + spec_file_extension(opt_str_view(media_type)),
{
    let ext: &str = match media_type {
        Some(m) => {
            let l = lowered(m);
            let s = l.as_slice();
            if is_lit(s, "application/json") {
                "json"
            } else if is_lit(s, "application/xml") || is_lit(s, "text/xml") {
                "xml"
            } else if is_lit(s, "text/html") {
                "html"
            } else if starts_with_lit(s, "text/") {
                "txt"
            } else if starts_with_lit(s, "image/") {
                "img"
            } else {
                "bin"
            }
        },
        None => "bin",
    };
    let mut out = chars_of("response.");
    let e = chars_of(ext);
    append_all(&mut out, e.as_slice());
    string_of(out.as_slice())
}

/// The position of a standard method in the method picker, in any case.
pub open spec fn spec_method_index(method: Seq<char>) -> Option<usize> {
    let u = ascii_upper(method);
    if u == "GET"@ {
        Some(0)
    } else if u == "POST"@ {
        Some(1)
    } else if u == "PUT"@ {
        Some(2)
    } else if u == "PATCH"@ {
        Some(3)
    } else if u == "DELETE"@ {
        Some(4)
    } else if u == "HEAD"@ {
        Some(5)
    } else if u == "OPTIONS"@ {
        Some(6)
    } else {
        None
    }
}

pub fn standard_method_index(method: &str) -> (r: Option<usize>)
    ensures
        r == spec_method_index(method@),
{
    let c = chars_of(method);
    let u = to_ascii_uppercase(c.as_slice());
    let s = u.as_slice();
    if is_lit(s, "GET") {
        Some(0)
    } else if is_lit(s, "POST") {
        Some(1)
    } else if is_lit(s, "PUT") {
        Some(2)
    } else if is_lit(s, "PATCH") {
        Some(3)
    } else if is_lit(s, "DELETE") {
        Some(4)
    } else if is_lit(s, "HEAD") {
        Some(5)
    } else if is_lit(s, "OPTIONS") {
        Some(6)
    } else {
        None
    }
}

#[derive(Debug, Clone, Copy, PartialEq, Eq, Structural)]
pub enum AuthKind {
    NoAuth,
    Basic,
    Bearer,
    ApiKey,
}

#[derive(Debug, Clone, Copy, PartialEq, Eq, Structural)]
pub enum BodyKind {
    NoBody,
    RawText,
    RawJson,
    UrlEncoded,
    FormData,
    BinaryFile,
}

/// The auth kind a picker label selects; unknown labels select none.
pub fn auth_kind_from_label(label: &str) -> (r: AuthKind)
    ensures
        r == (if label@ == "Basic"@ {
            AuthKind::Basic
        } else if label@ == "Bearer"@ {
            AuthKind::Bearer
        } else if label@ == "API Key"@ {
            AuthKind::ApiKey
        } else {
            AuthKind::NoAuth
        }),
{
    let c = chars_of(label);
    let s = c.as_slice();
    if is_lit(s, "Basic") {
        AuthKind::Basic
    } else if is_lit(s, "Bearer") {
        AuthKind::Bearer
    } else if is_lit(s, "API Key") {
        AuthKind::ApiKey
    } else {
        AuthKind::NoAuth
    }
}

/// The picker position of an auth setting.
pub fn auth_type_index(auth: &AuthType) -> (r: usize)
    ensures
        r == (match *auth {
            AuthType::NoAuth => 0usize,
            AuthType::Basic { .. } => 1,
            AuthType::Bearer { .. } => 2,
            AuthType::ApiKey { .. } => 3,
        }),
{
    match auth {
        AuthType::NoAuth => 0,
        AuthType::Basic { .. } => 1,
        AuthType::Bearer { .. } => 2,
        AuthType::ApiKey { .. } => 3,
    }
}

pub fn api_key_location_index(location: ApiKeyLocation) -> (r: usize)
    ensures
        r == (match location {
            ApiKeyLocation::Header => 0usize,
            ApiKeyLocation::Query => 1,
        }),
{
    match location {
        ApiKeyLocation::Header => 0,
        ApiKeyLocation::Query => 1,
    }
}

/// Index 1 is the query string; every other index is the header.
pub fn api_key_location_from_index(index: usize) -> (r: ApiKeyLocation)
    ensures
        r == (if index == 1 {
            ApiKeyLocation::Query
        } else {
            ApiKeyLocation::Header
        }),
{
    match index {
        1 => ApiKeyLocation::Query,
        _ => ApiKeyLocation::Header,
    }
}

/// The body kind a picker label selects; unknown labels select none.
pub fn body_kind_from_label(label: &str) -> (r: BodyKind)
    ensures
        r == (if label@ == "Raw Text"@ {
            BodyKind::RawText
        } else if label@ == "Raw JSON"@ {
            BodyKind::RawJson
        } else if label@ == "URL Encoded"@ {
            BodyKind::UrlEncoded
        } else if label@ == "Form Data"@ {
            BodyKind::FormData
        } else if label@ == "Binary File"@ {
            BodyKind::BinaryFile
        } else {
            BodyKind::NoBody
        }),
{
    let c = chars_of(label);
    let s = c.as_slice();
    if is_lit(s, "Raw Text") {
        BodyKind::RawText
    } else if is_lit(s, "Raw JSON") {
        BodyKind::RawJson
    } else if is_lit(s, "URL Encoded") {
        BodyKind::UrlEncoded
    } else if is_lit(s, "Form Data") {
        BodyKind::FormData
    } else if is_lit(s, "Binary File") {
        BodyKind::BinaryFile
    } else {
        BodyKind::NoBody
    }
}

/// The picker position of a body.
pub fn body_type_index(body: &BodyType) -> (r: usize)
    ensures
        r == (match *body {
            BodyType::NoBody => 0usize,
            BodyType::RawText { .. } => 1,
            BodyType::RawJson { .. } => 2,
            BodyType::UrlEncoded { .. } => 3,
            BodyType::FormData { .. } => 4,
            BodyType::BinaryFile { .. } => 5,
        }),
{
    match body {
        BodyType::NoBody => 0,
        BodyType::RawText { .. } => 1,
        BodyType::RawJson { .. } => 2,
        BodyType::UrlEncoded { .. } => 3,
        BodyType::FormData { .. } => 4,
        BodyType::BinaryFile { .. } => 5,
    }
}

/// Keeps at most `max_bytes` bytes, and says whether any were dropped.
pub fn truncate_for_tab_cap(bytes: Vec<u8>, max_bytes: usize) -> (r: (Vec<u8>, bool))
    ensures
        r.1 == (bytes@.len() > max_bytes),
        r.0@ == (if r.1 {
            bytes@.take(max_bytes as int)
        } else {
            bytes@
        }),
{
    if bytes.len() > max_bytes {
        let mut out: Vec<u8> = Vec::new();
        let mut i: usize = 0;
        while i < max_bytes
            invariant
                i <= max_bytes < bytes.len(),
                out@ == bytes@.take(i as int),
            decreases max_bytes - i,
        {
            out.push(bytes[i]);
            proof {
                assert(bytes@.take(i + 1) =~= bytes@.take(i as int).push(bytes@[i as int]));
            }
            i = i + 1;
        }
        (out, true)
    } else {
        (bytes, false)
    }
}

/// A value, or a dash where there is none.
pub fn dash_or(value: Option<String>) -> (r: String)
    ensures
        r@ == (match value {
            Some(v) => v@,
            None => "—"@,
        }),
{
    match value {
        Some(v) => v,
        None => crate::domain::owned("—"),
    }
}

/// A duration in milliseconds as `"<n> ms"`, or a dash.
pub fn format_ms(value: Option<u64>) -> (r: String)
    ensures
        r@ == (match value {
            Some(ms) => decimal(ms as nat) + " ms"@,
            None => "—"@,
        }),
{
    match value {
        Some(ms) => {
            let mut out = decimal_chars(ms as u128);
            let tail = chars_of(" ms");
            append_all(&mut out, tail.as_slice());
            string_of(out.as_slice())
        },
        None => crate::domain::owned("—"),
    }
}

/// What a preflight message of missing variables is made of: the names
/// after `missing variables:` and the scopes after `; checked scopes:`, each
/// trimmed.
pub open spec fn spec_preflight_parts(message: Seq<char>) -> (Option<Seq<char>>, Option<Seq<char>>) {
    let mp = "missing variables:"@;
    let sp = "; checked scopes:"@;
    match first_match(message, mp) {
        None => (None, None),
        Some(start) => {
            let tail = trim(message.skip(start + mp.len()));
            match first_match(tail, sp) {
                Some(split) => (Some(trim(tail.take(split))), Some(trim(tail.skip(split + sp.len())))),
                None => (Some(tail), None),
            }
        },
    }
}

proof fn lemma_missing_message_shape(names: Seq<Seq<char>>)
    ensures
        missing_message(names) =~= "missing variables:"@ + seq![' '] + join_names(names)
            + "; checked scopes:"@ + seq![' '] + "request overrides -> active environment -> workspace"@,
        "request overrides -> active environment -> workspace"@.len() > 0,
        "request overrides -> active environment -> workspace"@[0] == 'r',
        "request overrides -> active environment -> workspace"@.last() == 'e',
{
    reveal_strlit("missing variables:");
    reveal_strlit("missing variables: ");
    reveal_strlit("; checked scopes:");
    reveal_strlit("request overrides -> active environment -> workspace");
    reveal_strlit("; checked scopes: request overrides -> active environment -> workspace");
}

proof fn lemma_parts_of_shape(j: Seq<char>, scopes: Seq<char>)
    requires
        j.len() > 0,
        !is_ws(j[0]),
        !is_ws(j.last()),
        scopes.len() > 0,
        !is_ws(scopes[0]),
        !is_ws(scopes.last()),
        forall|i: int| 0 <= i < j.len() ==> !match_at(j + "; checked scopes:"@, "; checked scopes:"@, i),
    ensures
        spec_preflight_parts(
            "missing variables:"@ + seq![' '] + j + "; checked scopes:"@ + seq![' '] + scopes,
        ) == (Some(j), Some(scopes)),
{
    let mp = "missing variables:"@;
    let sp = "; checked scopes:"@;
    let msg = mp + seq![' '] + j + sp + seq![' '] + scopes;
    assert(msg.subrange(0, mp.len() as int) =~= mp);
    lemma_first_match_is(msg, mp, 0);
    let tail = j + sp + seq![' '] + scopes;
    let after = msg.skip(mp.len() as int);
    assert(after =~= seq![' '] + tail);
    assert(after[1] == j[0]);
    assert(after.last() == scopes.last());
    lemma_trim_after_ws(after, 1);
    assert(after.skip(1) =~= tail);
    assert(tail.subrange(j.len() as int, (j.len() + sp.len()) as int) =~= sp);
    assert forall|i: int| 0 <= i < j.len() implies !match_at(tail, sp, i) by {
        assert(!match_at(j + sp, sp, i));
        assert(tail.subrange(i, i + sp.len()) =~= (j + sp).subrange(i, i + sp.len()));
    }
    lemma_first_match_is(tail, sp, j.len() as int);
    assert(tail.take(j.len() as int) =~= j);
    lemma_trim_after_ws(j, 0);
    assert(j.skip(0) =~= j);
    let rest = tail.skip((j.len() + sp.len()) as int);
    assert(rest =~= seq![' '] + scopes);
    assert(rest[1] == scopes[0]);
    assert(rest.last() == scopes.last());
    lemma_trim_after_ws(rest, 1);
    assert(rest.skip(1) =~= scopes);
}

/// The message that resolution gives for missing names parses back into
/// those names, joined by `", "`, and the scopes it checked, provided the
/// joined names neither start nor end with whitespace and no
/// `; checked scopes:` begins within them.
pub proof fn law_missing_message_parses_back(names: Seq<Seq<char>>)
    requires
        join_names(names).len() > 0,
        !is_ws(join_names(names)[0]),
        !is_ws(join_names(names).last()),
        forall|i: int|
            0 <= i < join_names(names).len() ==> !match_at(
                join_names(names) + "; checked scopes:"@,
                "; checked scopes:"@,
                i,
            ),
    ensures
        spec_preflight_parts(missing_message(names)) == (
            Some(join_names(names)),
            Some("request overrides -> active environment -> workspace"@),
        ),
{
    lemma_missing_message_shape(names);
    lemma_parts_of_shape(join_names(names), "request overrides -> active environment -> workspace"@);
}

/// The scopes marker: no comma in it, and a semicolon only first.
proof fn lemma_scopes_marker_chars()
    ensures
        "; checked scopes:"@.len() == 17,
        "; checked scopes:"@[0] == ';',
        forall|k: int| 0 <= k < 17 ==> "; checked scopes:"@[k] != ',',
        forall|k: int| 1 <= k < 17 ==> "; checked scopes:"@[k] != ';',
{
    reveal_strlit("; checked scopes:");
}

/// Names none of which holds the marker join into a text that holds none.
proof fn lemma_join_without_marker(names: Seq<Seq<char>>)
    requires
        forall|i: int| 0 <= i < names.len() ==> !contains_seq(#[trigger] names[i], "; checked scopes:"@),
    ensures
        !contains_seq(join_names(names), "; checked scopes:"@),
    decreases names.len(),
{
    let sp = "; checked scopes:"@;
    lemma_scopes_marker_chars();
    if names.len() == 0 {
        assert(join_names(names) =~= Seq::<char>::empty());
        assert forall|p: int| !match_at(join_names(names), sp, p) by {}
    } else if names.len() == 1 {
        assert(!contains_seq(names[0], sp));
    } else {
        let init = names.drop_last();
        assert forall|i: int| 0 <= i < init.len() implies !contains_seq(#[trigger] init[i], sp) by {
            assert(init[i] == names[i]);
        }
        lemma_join_without_marker(init);
        let a = join_names(init);
        let last = names.last();
        assert(!contains_seq(last, sp));
        reveal_strlit(", ");
        let whole = join_names(names);
        assert(whole == a + ", "@ + last);
        let l = a.len() as int;
        assert forall|p: int| !match_at(whole, sp, p) by {
            if match_at(whole, sp, p) {
                if p + 17 <= l {
                    assert(whole.subrange(p, p + 17) =~= a.subrange(p, p + 17));
                    assert(match_at(a, sp, p));
                } else if p >= l + 2 {
                    assert(whole.subrange(p, p + 17) =~= last.subrange(p - l - 2, p - l - 2 + 17));
                    assert(match_at(last, sp, p - l - 2));
                } else if p <= l {
                    assert(whole[l] == ',');
                    assert(whole.subrange(p, p + 17)[l - p] == whole[l]);
                } else {
                    assert(whole[l + 1] == ' ');
                    assert(whole.subrange(p, p + 17)[0] == whole[p]);
                }
            }
        }
    }
}

/// The first and last characters of joined non-empty names are those of
/// the first and last names.
proof fn lemma_join_ends(names: Seq<Seq<char>>)
    requires
        names.len() > 0,
        forall|i: int| 0 <= i < names.len() ==> (#[trigger] names[i]).len() > 0,
    ensures
        join_names(names).len() > 0,
        join_names(names)[0] == names[0][0],
        join_names(names).last() == names.last().last(),
    decreases names.len(),
{
    if names.len() > 1 {
        let init = names.drop_last();
        assert forall|i: int| 0 <= i < init.len() implies (#[trigger] init[i]).len() > 0 by {
            assert(init[i] == names[i]);
        }
        lemma_join_ends(init);
        reveal_strlit(", ");
        assert(init[0] == names[0]);
    }
}

/// The message that resolution gives for missing names, each non-empty,
/// trimmed and free of `; checked scopes:`, parses back into those names
/// joined by `", "` and the scopes it checked.
pub proof fn law_missing_names_parse_back(names: Seq<Seq<char>>)
    requires
        names.len() > 0,
        forall|i: int|
            0 <= i < names.len() ==> {
                &&& (#[trigger] names[i]).len() > 0
                &&& !is_ws(names[i][0])
                &&& !is_ws(names[i].last())
                &&& !contains_seq(names[i], "; checked scopes:"@)
            },
    ensures
        spec_preflight_parts(missing_message(names)) == (
            Some(join_names(names)),
            Some("request overrides -> active environment -> workspace"@),
        ),
{
    let sp = "; checked scopes:"@;
    let j = join_names(names);
    lemma_join_ends(names);
    lemma_join_without_marker(names);
    lemma_scopes_marker_chars();
    assert(names.last() == names[names.len() - 1]);
    assert forall|p: int| 0 <= p < j.len() implies !match_at(j + sp, sp, p) by {
        if match_at(j + sp, sp, p) {
            if p + 17 <= j.len() {
                assert((j + sp).subrange(p, p + 17) =~= j.subrange(p, p + 17));
                assert(match_at(j, sp, p));
            } else {
                let m = j.len() - p;
                assert((j + sp).subrange(p, p + 17)[m] == sp[0]);
            }
        }
    }
    law_missing_message_parses_back(names);
}

/// Splits a preflight message into the missing names and the scopes checked.
pub fn parse_preflight_message(message: &str) -> (r: (Option<String>, Option<String>))
    ensures
        (match r.0 {
            Some(s) => Some(s@),
            None => None,
        }) == spec_preflight_parts(message@).0,
        (match r.1 {
            Some(s) => Some(s@),
            None => None,
        }) == spec_preflight_parts(message@).1,
{
    let m = chars_of(message);
    let mp = chars_of("missing variables:");
    let sp = chars_of("; checked scopes:");
    proof {
        assert(m@.subrange(0, m@.len() as int) =~= m@);
    }
    let start = match find_from(m.as_slice(), mp.as_slice(), 0) {
        None => return (None, None),
        Some(s) => s,
    };
    assert(start + mp@.len() <= m@.len());
    assert(mp.len() == mp@.len() && m.len() == m@.len());
    let after: usize = start + mp.len();
    let (a, b) = trim_bounds(m.as_slice(), after, m.len());
    let tail = sub_vec(m.as_slice(), a, b);
    proof {
        assert(m@.subrange(start + mp@.len(), m@.len() as int) =~= m@.skip(start + mp@.len()));
        assert(tail@.subrange(0, tail@.len() as int) =~= tail@);
    }
    match find_from(tail.as_slice(), sp.as_slice(), 0) {
        Some(split) => {
            let (va, vb) = trim_bounds(tail.as_slice(), 0, split);
            let (sa, sb) = trim_bounds(tail.as_slice(), split + sp.len(), tail.len());
            let vars = sub_vec(tail.as_slice(), va, vb);
            let scopes = sub_vec(tail.as_slice(), sa, sb);
            proof {
                assert(tail@.subrange(0, split as int) =~= tail@.take(split as int));
                assert(tail@.subrange(split + sp@.len(), tail@.len() as int) =~= tail@.skip(
                    split + sp@.len(),
                ));
            }
            (Some(string_of(vars.as_slice())), Some(string_of(scopes.as_slice())))
        },
        None => (Some(string_of(tail.as_slice())), None),
    }
}

/// The message key that describes a status code: the code's own for the
/// common codes, else the generic one of its class, else the unknown one.
pub open spec fn has_own_description(code: u16) -> bool {
    ||| 100 <= code <= 103
    ||| 200 <= code <= 208
    ||| code == 226
    ||| 300 <= code <= 308
    ||| 400 <= code <= 418
    ||| 421 <= code <= 426
    ||| code == 428 || code == 429 || code == 431 || code == 451
    ||| 500 <= code <= 508
    ||| code == 510 || code == 511
}

pub open spec fn spec_status_description_key(code: u16) -> Seq<char> {
    if has_own_description(code) {
        "request_tab_status_desc_"@ + decimal(code as nat)
    } else if 100 <= code <= 599 {
        "request_tab_status_desc_"@ + decimal((code / 100) as nat) + "xx_generic"@
    } else {
        "request_tab_status_desc_unknown"@
    }
}

pub fn status_description_key(code: u16) -> (r: String)
    ensures
        r@ == spec_status_description_key(code),
{
    let own = (100 <= code && code <= 103) || (200 <= code && code <= 208) || code == 226 || (300
        <= code && code <= 308) || (400 <= code && code <= 418) || (421 <= code && code <= 426)
        || code == 428 || code == 429 || code == 431 || code == 451 || (500 <= code && code
        <= 508) || code == 510 || code == 511;
    if own {
        let mut out = chars_of("request_tab_status_desc_");
        let d = decimal_chars(code as u128);
        append_all(&mut out, d.as_slice());
        string_of(out.as_slice())
    } else if 100 <= code && code <= 599 {
        let mut out = chars_of("request_tab_status_desc_");
        let d = decimal_chars((code / 100) as u128);
        append_all(&mut out, d.as_slice());
        let tail = chars_of("xx_generic");
        append_all(&mut out, tail.as_slice());
        string_of(out.as_slice())
    } else {
        crate::domain::owned("request_tab_status_desc_unknown")
    }
}

/// Guards a handler against re-entry: a nested entry is refused and
/// remembered, to be run once the outer one leaves.
#[derive(Debug, Default)]
pub struct ReentrancyGuard {
    pub active: bool,
    pub deferred: bool,
}

impl ReentrancyGuard {
    pub fn enter(&mut self) -> (r: bool)
        ensures
            r == !old(self).active,
            final(self).active,
            final(self).deferred == (old(self).deferred || old(self).active),
    {
        if self.active {
            self.deferred = true;
            return false;
        }
        self.active = true;
        true
    }

    pub fn leave_and_take_deferred(&mut self) -> (r: bool)
        ensures
            r == old(self).deferred,
            !final(self).active,
            !final(self).deferred,
    {
        self.active = false;
        let deferred = self.deferred;
        self.deferred = false;
        deferred
    }

    pub fn is_active(&self) -> (r: bool)
        ensures
            r == self.active,
    {
        self.active
    }
}


/// `u8::to_ascii_lowercase`.
pub open spec fn lower_byte(b: u8) -> u8 {
    if 65 <= b && b <= 90 {
        (b + 32) as u8
    } else {
        b
    }
}

/// `str::to_ascii_lowercase`, byte by byte.
pub open spec fn lower_bytes(s: Seq<u8>) -> Seq<u8> {
    s.map_values(|b: u8| lower_byte(b))
}

pub open spec fn byte_match_at(s: Seq<u8>, p: Seq<u8>, i: int) -> bool {
    0 <= i && i + p.len() <= s.len() && s.subrange(i, i + p.len()) == p
}

/// The first position from `from` on where `p` occurs in `s`.
pub open spec fn first_byte_match(s: Seq<u8>, p: Seq<u8>, from: int) -> Option<int>
    decreases s.len() - from,
{
    if from < 0 || from + p.len() > s.len() {
        None
    } else if byte_match_at(s, p, from) {
        Some(from)
    } else if from >= s.len() {
        None
    } else {
        first_byte_match(s, p, from + 1)
    }
}

/// The positions of the occurrences of `p` in `s` from `from` on, each
/// search resuming after the previous occurrence (so they do not overlap).
pub open spec fn matches_from(s: Seq<u8>, p: Seq<u8>, from: int) -> Seq<int>
    decreases s.len() - from,
{
    if p.len() == 0 || from < 0 || from > s.len() {
        Seq::empty()
    } else {
        match first_byte_match(s, p, from) {
            None => Seq::empty(),
            Some(i) => if i >= from && i + p.len() > from && i + p.len() <= s.len() {
                seq![i] + matches_from(s, p, i + p.len())
            } else {
                Seq::empty()
            },
        }
    }
}

proof fn lemma_first_byte_match_bounds(s: Seq<u8>, p: Seq<u8>, from: int)
    requires
        0 <= from,
    ensures
        first_byte_match(s, p, from) matches Some(i) ==> from <= i && byte_match_at(s, p, i)
            && forall|j: int| from <= j < i ==> !byte_match_at(s, p, j),
        first_byte_match(s, p, from) is None ==> forall|j: int| from <= j ==> !byte_match_at(s, p, j),
    decreases s.len() - from,
{
    if !(from < 0 || from + p.len() > s.len()) && !byte_match_at(s, p, from) && from < s.len() {
        lemma_first_byte_match_bounds(s, p, from + 1);
    }
}

fn lower_byte_vec(s: &[u8]) -> (r: Vec<u8>)
    ensures
        r@ == lower_bytes(s@),
{
    let mut out: Vec<u8> = Vec::new();
    let mut i: usize = 0;
    while i < s.len()
        invariant
            i <= s.len(),
            out@ == lower_bytes(s@).take(i as int),
        decreases s.len() - i,
    {
        let b = s[i];
        let l: u8 = if 65 <= b && b <= 90 {
            b + 32
        } else {
            b
        };
        out.push(l);
        proof {
            assert(out@ =~= lower_bytes(s@).take(i + 1));
        }
        i = i + 1;
    }
    proof {
        assert(out@ =~= lower_bytes(s@));
    }
    out
}

fn bytes_match_at(s: &[u8], p: &[u8], i: usize) -> (r: bool)
    requires
        i + p.len() <= s.len(),
    ensures
        r == byte_match_at(s@, p@, i as int),
{
    let mut k: usize = 0;
    while k < p.len()
        invariant
            k <= p.len(),
            i + p.len() <= s.len(),
            forall|j: int| 0 <= j < k ==> s@[i + j] == p@[j],
        decreases p.len() - k,
    {
        if s[i + k] != p[k] {
            proof {
                assert(s@.subrange(i as int, i + p@.len())[k as int] != p@[k as int]);
            }
            return false;
        }
        k = k + 1;
    }
    proof {
        assert(s@.subrange(i as int, i + p@.len()) =~= p@);
    }
    true
}

/// The first position from `from` on where `p` occurs in `s`.
fn find_bytes_from(s: &[u8], p: &[u8], from: usize) -> (r: Option<usize>)
    requires
        from <= s.len(),
    ensures
        r == (match first_byte_match(s@, p@, from as int) {
            Some(i) => Some(i as usize),
            None => None,
        }),
    decreases s.len() - from,
{
    if p.len() > s.len() - from {
        return None;
    }
    if bytes_match_at(s, p, from) {
        Some(from)
    } else {
        if from == s.len() {
            return None;
        }
        find_bytes_from(s, p, from + 1)
    }
}

/// The byte positions where `query` occurs in `text`, ignoring ASCII
/// letter case, left to right and without overlap; none for a blank query.
pub fn search_matches(text: &str, query: &str) -> (r: Vec<usize>)
    ensures
        trim(query@).len() == 0 ==> r@.len() == 0,
        trim(query@).len() > 0 ==> r@.map_values(|i: usize| i as int) == matches_from(
            lower_bytes(text.spec_bytes()),
            lower_bytes(query.spec_bytes()),
            0,
        ),
{
    let q = chars_of(query);
    let (a, b) = trim_bounds(q.as_slice(), 0, q.len());
    proof {
        assert(q@.subrange(0, q@.len() as int) =~= q@);
    }
    let mut out: Vec<usize> = Vec::new();
    if a == b {
        return out;
    }
    let s = lower_byte_vec(text.as_bytes());
    let p = lower_byte_vec(query.as_bytes());
    if p.len() == 0 {
        return out;
    }
    let ghost full = matches_from(s@, p@, 0);
    let mut offset: usize = 0;
    while offset <= s.len()
        invariant
            offset <= s.len() + 1,
            p@.len() > 0,
            trim(query@).len() > 0,
            s@ == lower_bytes(text.spec_bytes()),
            p@ == lower_bytes(query.spec_bytes()),
            full == matches_from(s@, p@, 0),
            offset <= s.len() ==> out@.map_values(|i: usize| i as int) + matches_from(s@, p@, offset as int) == full,
            offset > s.len() ==> out@.map_values(|i: usize| i as int) == full,
        decreases s.len() + 1 - offset,
    {
        let ghost before = out@;
        match find_bytes_from(s.as_slice(), p.as_slice(), offset) {
            None => {
                proof {
                    assert(matches_from(s@, p@, offset as int) =~= Seq::<int>::empty());
                    assert(out@.map_values(|i: usize| i as int) =~= full);
                }
                return out;
            },
            Some(found) => {
                proof {
                    lemma_first_byte_match_bounds(s@, p@, offset as int);
                }
                out.push(found);
                proof {
                    assert(out@.map_values(|i: usize| i as int) =~= before.map_values(|i: usize| i as int).push(found as int));
                    assert(matches_from(s@, p@, offset as int) =~= seq![found as int] + matches_from(s@, p@, found + p@.len()));
                    assert(before.map_values(|i: usize| i as int).push(found as int) + matches_from(s@, p@, found + p@.len())
                        =~= before.map_values(|i: usize| i as int) + (seq![found as int] + matches_from(s@, p@, found + p@.len())));
                }
                offset = found + p.len();
                if offset > s.len() {
                    proof {
                        assert(matches_from(s@, p@, offset as int) =~= Seq::<int>::empty());
                    }
                }
            },
        }
    }
    out
}

/// Text for the user: the key of a message the interface translates, text
/// as it is, or a translated message followed by text.
#[derive(Debug, Clone, PartialEq, Eq)]
pub enum DisplayText {
    MessageKey(String),
    Text(String),
    MessageKeyThen { key: String, rest: String },
}

/// The characters of a display text: which form, then its parts.
pub enum DisplayTextView {
    MessageKey(Seq<char>),
    Text(Seq<char>),
    MessageKeyThen(Seq<char>, Seq<char>),
}

impl View for DisplayText {
    type V = DisplayTextView;

    open spec fn view(&self) -> DisplayTextView {
        match self {
            DisplayText::MessageKey(k) => DisplayTextView::MessageKey(k@),
            DisplayText::Text(t) => DisplayTextView::Text(t@),
            DisplayText::MessageKeyThen { key, rest } => DisplayTextView::MessageKeyThen(key@, rest@),
        }
    }
}

/// The title and the detail shown for a failed exchange.
pub open spec fn error_display_spec(classified: Option<ClassifiedError>, summary: Seq<char>) -> (
    DisplayTextView,
    Seq<char>,
) {
    match classified {
        Some(ClassifiedError::DnsFailure { host }) => (
            DisplayTextView::MessageKey("request_tab_error_dns_failure"@),
            "Could not resolve host: "@ + host@,
        ),
        Some(ClassifiedError::ConnectionRefused { host, port }) => (
            DisplayTextView::MessageKey("request_tab_error_connection_refused"@),
            "Connection refused: "@ + host@ + ":"@ + decimal(port as nat),
        ),
        Some(ClassifiedError::ConnectionTimeout) => (
            DisplayTextView::MessageKey("request_tab_error_connection_timeout"@),
            summary,
        ),
        Some(ClassifiedError::RequestTimeout) => (
            DisplayTextView::MessageKey("request_tab_error_request_timeout"@),
            summary,
        ),
        Some(ClassifiedError::TlsError { reason }) => (
            DisplayTextView::MessageKey("request_tab_error_tls_failure"@),
            reason@,
        ),
        Some(ClassifiedError::TransportError { summary: s, detail }) => (
            DisplayTextView::Text(s@),
            detail@,
        ),
        None => (DisplayTextView::MessageKey("request_tab_error_transport_generic"@), summary),
    }
}

/// The title and the detail shown for a failed exchange: a translated title
/// by the kind of failure, and its detail (the host, the host and port, the
/// reason, or the summary).
pub fn classified_error_display(classified: Option<&ClassifiedError>, summary: &str) -> (r: (
    DisplayText,
    String,
))
    ensures
        (r.0@, r.1@) == error_display_spec(
            match classified {
                Some(c) => Some(*c),
                None => None,
            },
            summary@,
        ),
{
    match classified {
        Some(ClassifiedError::DnsFailure { host }) => {
            let mut out = chars_of("Could not resolve host: ");
            let h = chars_of(host.as_str());
            append_all(&mut out, h.as_slice());
            (
                DisplayText::MessageKey(crate::domain::owned("request_tab_error_dns_failure")),
                string_of(out.as_slice()),
            )
        },
        Some(ClassifiedError::ConnectionRefused { host, port }) => {
            let digits = decimal_chars(*port as u128);
            let mut out = chars_of("Connection refused: ");
            let h = chars_of(host.as_str());
            append_all(&mut out, h.as_slice());
            out.push(':');
            append_all(&mut out, digits.as_slice());
            proof {
                reveal_strlit(":");
                assert(out@ =~= "Connection refused: "@ + host@ + ":"@ + decimal(*port as nat));
            }
            (
                DisplayText::MessageKey(crate::domain::owned("request_tab_error_connection_refused")),
                string_of(out.as_slice()),
            )
        },
        Some(ClassifiedError::ConnectionTimeout) => (
            DisplayText::MessageKey(crate::domain::owned("request_tab_error_connection_timeout")),
            crate::domain::owned(summary),
        ),
        Some(ClassifiedError::RequestTimeout) => (
            DisplayText::MessageKey(crate::domain::owned("request_tab_error_request_timeout")),
            crate::domain::owned(summary),
        ),
        Some(ClassifiedError::TlsError { reason }) => (
            DisplayText::MessageKey(crate::domain::owned("request_tab_error_tls_failure")),
            reason.clone(),
        ),
        Some(ClassifiedError::TransportError { summary: s, detail }) => (
            DisplayText::Text(s.clone()),
            detail.clone(),
        ),
        None => (
            DisplayText::MessageKey(crate::domain::owned("request_tab_error_transport_generic")),
            crate::domain::owned(summary),
        ),
    }
}

/// The summary of the latest run shown above the response.
pub open spec fn run_summary_spec(status: ExecStatus) -> DisplayTextView {
    match status {
        ExecStatus::Idle => DisplayTextView::MessageKey("request_tab_latest_run_none"@),
        ExecStatus::Sending => DisplayTextView::MessageKey("request_tab_sending"@),
        ExecStatus::Streaming => DisplayTextView::MessageKey("request_tab_streaming"@),
        ExecStatus::Completed { response } => {
            let status_line = decimal(response.status_code as nat) + " "@ + response.status_text@;
            DisplayTextView::Text(
                match response.total_ms {
                    Some(ms) => status_line + " • "@ + decimal(ms as nat) + " ms"@,
                    None => status_line,
                },
            )
        },
        ExecStatus::Failed { summary, .. } => DisplayTextView::MessageKeyThen(
            "request_tab_response_failed"@,
            ": "@ + summary@,
        ),
        ExecStatus::Cancelled { partial_size } => match partial_size {
            Some(size) => DisplayTextView::MessageKeyThen(
                "request_tab_response_cancelled_with_bytes"@,
                " ("@ + decimal(size as nat) + ")"@,
            ),
            None => DisplayTextView::MessageKey("request_tab_response_cancelled"@),
        },
    }
}

/// The summary of the latest run: its state, or for a response its status
/// line and total time, for a failure its summary, for a cancellation the
/// bytes received.
pub fn latest_run_summary(status: &ExecStatus) -> (r: DisplayText)
    ensures
        r@ == run_summary_spec(*status),
{
    match status {
        ExecStatus::Idle => DisplayText::MessageKey(crate::domain::owned("request_tab_latest_run_none")),
        ExecStatus::Sending => DisplayText::MessageKey(crate::domain::owned("request_tab_sending")),
        ExecStatus::Streaming => DisplayText::MessageKey(crate::domain::owned("request_tab_streaming")),
        ExecStatus::Completed { response } => {
            let mut out = decimal_chars(response.status_code as u128);
            out.push(' ');
            let text = chars_of(response.status_text.as_str());
            append_all(&mut out, text.as_slice());
            let ghost status_line = out@;
            proof {
                reveal_strlit(" ");
                assert(status_line =~= decimal(response.status_code as nat) + " "@
                    + response.status_text@);
            }
            if let Some(ms) = response.total_ms {
                let sep = chars_of(" • ");
                append_all(&mut out, sep.as_slice());
                let digits = decimal_chars(ms as u128);
                append_all(&mut out, digits.as_slice());
                let unit = chars_of(" ms");
                append_all(&mut out, unit.as_slice());
                proof {
                    assert(out@ =~= status_line + " • "@ + decimal(ms as nat) + " ms"@);
                }
            }
            DisplayText::Text(string_of(out.as_slice()))
        },
        ExecStatus::Failed { summary, .. } => {
            let mut rest = chars_of(": ");
            let s = chars_of(summary.as_str());
            append_all(&mut rest, s.as_slice());
            DisplayText::MessageKeyThen {
                key: crate::domain::owned("request_tab_response_failed"),
                rest: string_of(rest.as_slice()),
            }
        },
        ExecStatus::Cancelled { partial_size } => match partial_size {
            Some(size) => {
                let mut rest = chars_of(" (");
                let digits = decimal_chars(*size as u128);
                append_all(&mut rest, digits.as_slice());
                let close = chars_of(")");
                append_all(&mut rest, close.as_slice());
                DisplayText::MessageKeyThen {
                    key: crate::domain::owned("request_tab_response_cancelled_with_bytes"),
                    rest: string_of(rest.as_slice()),
                }
            },
            None => DisplayText::MessageKey(crate::domain::owned("request_tab_response_cancelled")),
        },
    }
}

/// What `String::from_utf8_lossy` makes of bytes.
pub uninterp spec fn utf8_lossy_text(bytes: Seq<u8>) -> Seq<char>;

/// Bytes as text, each invalid UTF-8 sequence replaced by U+FFFD
/// (`String::from_utf8_lossy`); valid UTF-8 is decoded as it is.
#[verifier::external_body]
fn lossy_text(bytes: &[u8]) -> (r: String)
    ensures
        r@ == utf8_lossy_text(bytes@),
        (exists|t: Seq<char>| encode_utf8(t) == bytes@) ==> encode_utf8(r@) == bytes@,
{
    String::from_utf8_lossy(bytes).into_owned()
}

/// What re-writing a text through `quick_xml`'s `Reader` (text not
/// trimmed) into a `Writer` indenting by two spaces gives; `None` when
/// reading or writing an event fails or the output is not UTF-8.
pub uninterp spec fn xml_pretty_text(input: Seq<char>) -> Option<Seq<char>>;

/// Re-indents XML or HTML: every event `quick_xml::Reader::read_event`
/// reads (text not trimmed) is written with `Writer::write_event` to a
/// writer made by `Writer::new_with_indent(.., b' ', 2)`, until the end.
#[verifier::external_body]
fn pretty_print_xml_like(input: &str) -> (r: Option<String>)
    ensures
        opt_view(r) == xml_pretty_text(input@),
{
    let mut reader = quick_xml::Reader::from_str(input);
    reader.config_mut().trim_text(false);
    let mut writer = quick_xml::Writer::new_with_indent(Vec::new(), b' ', 2);
    loop {
        match reader.read_event() {
            Ok(quick_xml::events::Event::Eof) => break,
            Ok(event) => writer.write_event(event).ok()?,
            Err(_) => return None,
        }
    }
    String::from_utf8(writer.into_inner()).ok()
}

/// A pretty-printed form of a text, or the text itself when there is none.
pub open spec fn or_text(pretty: Option<Seq<char>>, text: Seq<char>) -> Seq<char> {
    match pretty {
        Some(p) => p,
        None => text,
    }
}

/// The media types whose bodies are re-indented as XML.
pub open spec fn xml_like_media_type(lowered: Seq<char>) -> bool {
    lowered == "application/xml"@ || lowered == "text/xml"@ || lowered == "text/html"@
}

/// The text shown for preview bytes: decoded (invalid UTF-8 replaced);
/// pretty-printed JSON for `application/json` and re-indented XML for
/// `application/xml`, `text/xml` and `text/html` (types compared without
/// ASCII case), each falling back to the decoded text.
pub open spec fn preview_text_spec(bytes: Seq<u8>, media_type: Option<Seq<char>>) -> Seq<char> {
    let text = utf8_lossy_text(bytes);
    match media_type {
        Some(mt) => if ascii_lower(mt) == "application/json"@ {
            or_text(json_pretty_text(text), text)
        } else if xml_like_media_type(ascii_lower(mt)) {
            or_text(xml_pretty_text(text), text)
        } else {
            text
        },
        None => text,
    }
}

/// The text shown for preview bytes of the given media type.
pub fn render_preview_text(bytes: &[u8], media_type: Option<&str>) -> (r: String)
    ensures
        r@ == preview_text_spec(
            bytes@,
            match media_type {
                Some(mt) => Some(mt@),
                None => None,
            },
        ),
{
    let text = lossy_text(bytes);
    match media_type {
        None => text,
        Some(mt) => {
            let l = lowered(mt);
            if is_lit(l.as_slice(), "application/json") {
                match pretty_json(text.as_str()) {
                    Some(p) => p,
                    None => text,
                }
            } else if is_lit(l.as_slice(), "application/xml") || is_lit(l.as_slice(), "text/xml")
                || is_lit(l.as_slice(), "text/html") {
                match pretty_print_xml_like(text.as_str()) {
                    Some(p) => p,
                    None => text,
                }
            } else {
                text
            }
        },
    }
}

/// The body text shown for a response, and the message key of the notice
/// that follows it when only a preview of a larger body is shown.
#[derive(Debug, Clone, PartialEq, Eq)]
pub struct BodyPreviewText {
    pub text: String,
    pub truncated_notice: Option<String>,
}

/// The key of the notice shown under a preview of a larger body.
pub open spec fn truncated_notice_key() -> Seq<char> {
    "request_tab_response_truncated"@
}

/// The body text shown for a response: the full text when it was loaded;
/// else nothing for an empty body, the preview rendered for its media type,
/// and for a stored body its preview (nothing when it has none) followed by
/// the truncation notice when the body is larger than the preview.
pub fn response_body_preview_text(response: &ResponseSummary, loaded_full_body_text: &Option<String>) -> (r:
    BodyPreviewText)
    ensures
        loaded_full_body_text matches Some(full) ==> r.text@ == full@ && r.truncated_notice is None,
        loaded_full_body_text is None ==> match response.body_ref {
            BodyRef::Empty => r.text@ == Seq::<char>::empty() && r.truncated_notice is None,
            BodyRef::InMemoryPreview { bytes, .. } => r.text@ == preview_text_spec(
                bytes@,
                opt_view(response.media_type),
            ) && r.truncated_notice is None,
            BodyRef::DiskBlob { preview, size_bytes, .. } => {
                &&& r.text@ == (match preview {
                    Some(b) => preview_text_spec(b@, opt_view(response.media_type)),
                    None => Seq::empty(),
                })
                &&& (size_bytes > (match preview {
                    Some(b) => b@.len(),
                    None => 0,
                }) <==> r.truncated_notice is Some)
                &&& r.truncated_notice matches Some(k) ==> k@ == truncated_notice_key()
            },
        },
{
    if let Some(full) = loaded_full_body_text {
        return BodyPreviewText { text: full.clone(), truncated_notice: None };
    }
    let media_type: Option<&str> = match &response.media_type {
        Some(m) => Some(m.as_str()),
        None => None,
    };
    match &response.body_ref {
        BodyRef::Empty => BodyPreviewText { text: String::new(), truncated_notice: None },
        BodyRef::InMemoryPreview { bytes, .. } => BodyPreviewText {
            text: render_preview_text(bytes.as_slice(), media_type),
            truncated_notice: None,
        },
        BodyRef::DiskBlob { preview, size_bytes, .. } => {
            let (text, preview_len) = match preview {
                Some(b) => (render_preview_text(b.as_slice(), media_type), b.len() as u64),
                None => (String::new(), 0u64),
            };
            let truncated_notice = if *size_bytes > preview_len {
                Some(String::from_str("request_tab_response_truncated"))
            } else {
                None
            };
            BodyPreviewText { text, truncated_notice }
        },
    }
}

} // verus!
