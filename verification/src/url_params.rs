//! Keeping a request's URL and its query parameter table in step.
use vstd::prelude::*;
use vstd::string::StringExecFns;
use vstd::utf8::encode_utf8;

use crate::domain::{kv_view, kvs_view, opt_view, KeyValuePair};
use crate::request_body::string_pairs_view;
use crate::text::{chars_of, first_match, find_from, string_of, sub_vec, trim, trim_bounds};

verus! {

/// What `url::Url::parse` makes of a text: `None` when it is not a URL,
/// else the URL's query (`Url::query`).
pub uninterp spec fn url_query_part(url: Seq<char>) -> Option<Option<Seq<char>>>;

/// The name/value pairs that `url::form_urlencoded::parse` decodes from a
/// query.
pub uninterp spec fn form_decode(query: Seq<char>) -> Seq<(Seq<char>, Seq<char>)>;

/// What a URL becomes without a query: `None` when the text is not a URL
/// (`url::Url::parse`); else the URL after `Url::set_query(None)`, as text.
pub uninterp spec fn url_without_query(url: Seq<char>) -> Option<Seq<char>>;

/// What a URL becomes with exactly these query pairs: `None` when the text
/// is not a URL (`url::Url::parse`); else the URL after
/// `Url::query_pairs_mut().clear().extend_pairs(..)`, as text.
pub uninterp spec fn url_with_query_pairs(url: Seq<char>, pairs: Seq<(Seq<char>, Seq<char>)>) -> Option<
    Seq<char>,
>;

/// A byte that form encoding keeps as it is: `*`, `-`, `.`, `_`, an ASCII
/// digit or letter.
pub open spec fn form_byte_unchanged(b: u8) -> bool {
    b == 42 || b == 45 || b == 46 || b == 95 || (48 <= b && b <= 57) || (65 <= b && b <= 90) || (97
        <= b && b <= 122)
}

/// An upper-case hexadecimal digit.
pub open spec fn hex_digit(n: nat) -> char {
    if n < 10 {
        ((n + 48) as u32) as char
    } else {
        ((n + 55) as u32) as char
    }
}

/// How form encoding writes one byte: kept, `+` for a space, else `%XX`
/// in upper-case hexadecimal.
pub open spec fn form_byte(b: u8) -> Seq<char> {
    if form_byte_unchanged(b) {
        seq![(b as u32) as char]
    } else if b == 32 {
        seq!['+']
    } else {
        seq!['%', hex_digit((b / 16) as nat), hex_digit((b % 16) as nat)]
    }
}

/// Form encoding of bytes, byte by byte.
pub open spec fn form_bytes(b: Seq<u8>) -> Seq<char>
    decreases b.len(),
{
    if b.len() == 0 {
        Seq::empty()
    } else {
        form_bytes(b.drop_last()) + form_byte(b.last())
    }
}

/// One pair: the encoded UTF-8 of the name, `=`, the encoded UTF-8 of the
/// value.
pub open spec fn form_pair(p: (Seq<char>, Seq<char>)) -> Seq<char> {
    form_bytes(encode_utf8(p.0)) + seq!['='] + form_bytes(encode_utf8(p.1))
}

/// The `application/x-www-form-urlencoded` text of name/value pairs, as
/// `url::form_urlencoded::Serializer` writes it from an empty string:
/// the pairs joined by `&`.
pub open spec fn form_encode(pairs: Seq<(Seq<char>, Seq<char>)>) -> Seq<char>
    decreases pairs.len(),
{
    if pairs.len() == 0 {
        Seq::empty()
    } else if pairs.len() == 1 {
        form_pair(pairs[0])
    } else {
        form_encode(pairs.drop_last()) + seq!['&'] + form_pair(pairs.last())
    }
}

pub open spec fn opt_opt_view(o: Option<Option<String>>) -> Option<Option<Seq<char>>> {
    match o {
        Some(q) => Some(opt_view(q)),
        None => None,
    }
}

/// Parses a URL (`url::Url::parse`) and reads its query (`Url::query`).
#[verifier::external_body]
fn parse_url_query(url: &str) -> (r: Option<Option<String>>)
    ensures
        opt_opt_view(r) == url_query_part(url@),
{
    match url::Url::parse(url) {
        Ok(parsed) => Some(parsed.query().map(|q| q.to_string())),
        Err(_) => None,
    }
}

/// Decodes the pairs of a query (`url::form_urlencoded::parse`).
#[verifier::external_body]
fn decode_query_pairs(query: &str) -> (r: Vec<(String, String)>)
    ensures
        string_pairs_view(r@) == form_decode(query@),
{
    url::form_urlencoded::parse(query.as_bytes()).map(|(k, v)| (k.to_string(), v.to_string())).collect()
}

/// Drops the query of a URL (`url::Url::parse`, `Url::set_query(None)`,
/// `to_string`).
#[verifier::external_body]
fn strip_url_query(url: &str) -> (r: Option<String>)
    ensures
        opt_view(r) == url_without_query(url@),
{
    let mut parsed = url::Url::parse(url).ok()?;
    parsed.set_query(None);
    Some(parsed.to_string())
}

/// Replaces the query pairs of a URL (`url::Url::parse`,
/// `Url::query_pairs_mut().clear().extend_pairs(..)`, `to_string`); it
/// fails exactly when the parse does.
#[verifier::external_body]
pub(crate) fn replace_url_query_pairs(url: &str, pairs: &Vec<(String, String)>) -> (r: Option<String>)
    ensures
        opt_view(r) == url_with_query_pairs(url@, string_pairs_view(pairs@)),
        r is Some <==> url_parse_text(url@) is Ok,
{
    let mut parsed = url::Url::parse(url).ok()?;
    parsed.query_pairs_mut().clear().extend_pairs(pairs.iter().map(|(k, v)| (k.as_str(), v.as_str())));
    Some(parsed.to_string())
}

/// What `url::Url::parse` makes of a text: the URL's serialization
/// (`Url::as_str`), or the text of the parse error (`Display`).
pub uninterp spec fn url_parse_text(url: Seq<char>) -> Result<Seq<char>, Seq<char>>;

pub open spec fn text_result_view(r: Result<String, String>) -> Result<Seq<char>, Seq<char>> {
    match r {
        Ok(t) => Ok(t@),
        Err(e) => Err(e@),
    }
}

/// Parses a URL (`url::Url::parse`): its serialization, or the parse
/// error's message.
#[verifier::external_body]
pub(crate) fn parse_url_text(url: &str) -> (r: Result<String, String>)
    ensures
        text_result_view(r) == url_parse_text(url@),
{
    match url::Url::parse(url) {
        Ok(parsed) => Ok(parsed.as_str().to_string()),
        Err(e) => Err(e.to_string()),
    }
}

/// What a URL becomes with these pairs added after its query: `None` when
/// the text is not a URL (`url::Url::parse`); else the URL after
/// `Url::query_pairs_mut().extend_pairs(..)`, as text.
pub uninterp spec fn url_with_appended_query_pairs(
    url: Seq<char>,
    pairs: Seq<(Seq<char>, Seq<char>)>,
) -> Option<Seq<char>>;

/// Adds query pairs after the query of a URL (`url::Url::parse`,
/// `Url::query_pairs_mut().extend_pairs(..)`, `to_string`); it fails
/// exactly when the parse does.
#[verifier::external_body]
pub(crate) fn append_url_query_pairs(url: &str, pairs: &Vec<(String, String)>) -> (r: Option<String>)
    ensures
        opt_view(r) == url_with_appended_query_pairs(url@, string_pairs_view(pairs@)),
        r is Some <==> url_parse_text(url@) is Ok,
{
    let mut parsed = url::Url::parse(url).ok()?;
    parsed.query_pairs_mut().extend_pairs(pairs.iter().map(|(k, v)| (k.as_str(), v.as_str())));
    Some(parsed.to_string())
}

/// Encodes name/value pairs as a form (`url::form_urlencoded::Serializer`
/// on an empty string, `extend_pairs`, `finish`): each byte of each name
/// and value through `byte_serialize`, `=` within a pair, `&` between.
#[verifier::external_body]
fn encode_query_pairs(pairs: &Vec<(String, String)>) -> (r: String)
    ensures
        r@ == form_encode(string_pairs_view(pairs@)),
{
    url::form_urlencoded::Serializer::new(String::new()).extend_pairs(
        pairs.iter().map(|(k, v)| (k.as_str(), v.as_str())),
    ).finish()
}

/// `s` split at its first `c`: the text before and after it.
pub open spec fn split_once(s: Seq<char>, c: char) -> Option<(Seq<char>, Seq<char>)> {
    match first_match(s, seq![c]) {
        Some(i) => Some((s.take(i), s.skip(i + 1))),
        None => None,
    }
}

/// The query of a text that is not a URL: what follows its first `?`, up to
/// the first `#` after that.
pub open spec fn raw_query_of(url: Seq<char>) -> Option<Seq<char>> {
    match split_once(url, '?') {
        Some((_, q)) => match split_once(q, '#') {
            Some((qq, _)) => Some(qq),
            None => Some(q),
        },
        None => None,
    }
}

/// The query parameters a URL carries, each enabled: from its query when it
/// parses as a URL, else from the text after its first `?`.
pub open spec fn url_params_spec(url: Seq<char>) -> Seq<(Seq<char>, Seq<char>, bool)> {
    let query = match url_query_part(url) {
        Some(q) => q,
        None => raw_query_of(url),
    };
    match query {
        Some(q) => form_decode(q).map_values(|p: (Seq<char>, Seq<char>)| (p.0, p.1, true)),
        None => Seq::empty(),
    }
}

fn split_once_exec(s: &[char], c: char) -> (r: Option<(Vec<char>, Vec<char>)>)
    ensures
        match split_once(s@, c) {
            Some((a, b)) => r matches Some(p) && p.0@ == a && p.1@ == b,
            None => r is None,
        },
{
    let pat: Vec<char> = vec![c];
    proof {
        assert(pat@ =~= seq![c]);
        assert(s@.subrange(0, s@.len() as int) =~= s@);
    }
    match find_from(s, pat.as_slice(), 0) {
        None => None,
        Some(i) => {
            assert(i + 1 <= s.len());
            proof {
                assert(s@.subrange(0, i as int) =~= s@.take(i as int));
                assert(s@.subrange(i + 1, s@.len() as int) =~= s@.skip(i + 1));
            }
            Some((sub_vec(s, 0, i), sub_vec(s, i + 1, s.len())))
        },
    }
}

/// The query parameters in a URL, each enabled.
pub fn params_from_url_query(url: &str) -> (r: Vec<KeyValuePair>)
    ensures
        kvs_view(r@) == url_params_spec(url@),
{
    let query: Option<String> = match parse_url_query(url) {
        Some(q) => q,
        None => {
            let chars = chars_of(url);
            match split_once_exec(chars.as_slice(), '?') {
                None => None,
                Some((_, q)) => match split_once_exec(q.as_slice(), '#') {
                    Some((qq, _)) => Some(string_of(qq.as_slice())),
                    None => Some(string_of(q.as_slice())),
                },
            }
        },
    };
    let mut out: Vec<KeyValuePair> = Vec::new();
    if let Some(q) = query {
        let pairs = decode_query_pairs(q.as_str());
        let ghost want = form_decode(q@).map_values(|p: (Seq<char>, Seq<char>)| (p.0, p.1, true));
        let mut i: usize = 0;
        while i < pairs.len()
            invariant
                i <= pairs.len(),
                string_pairs_view(pairs@) == form_decode(q@),
                want == form_decode(q@).map_values(|p: (Seq<char>, Seq<char>)| (p.0, p.1, true)),
                kvs_view(out@) == want.take(i as int),
            decreases pairs.len() - i,
        {
            let ghost before = out@;
            let pair = KeyValuePair::new(pairs[i].0.as_str(), pairs[i].1.as_str());
            out.push(pair);
            proof {
                assert(string_pairs_view(pairs@)[i as int] == (pairs@[i as int].0@, pairs@[i as int].1@));
                assert(want[i as int] == (form_decode(q@)[i as int].0, form_decode(q@)[i as int].1, true));
                assert(kvs_view(out@) =~= kvs_view(before).push((pair.key@, pair.value@, pair.enabled)));
                assert(kvs_view(out@) =~= want.take(i + 1));
            }
            i = i + 1;
        }
        proof {
            assert(want.take(pairs@.len() as int) =~= want);
        }
    } else {
        proof {
            assert(kvs_view(out@) =~= Seq::<(Seq<char>, Seq<char>, bool)>::empty());
        }
    }
    out
}

/// The parameters that go into a URL: the enabled ones with a non-blank
/// name, as name/value pairs, in order.
pub open spec fn sendable_params(params: Seq<KeyValuePair>) -> Seq<(Seq<char>, Seq<char>)>
    decreases params.len(),
{
    if params.len() == 0 {
        Seq::empty()
    } else {
        let rest = sendable_params(params.drop_last());
        let p = params.last();
        if p.enabled && trim(p.key@).len() > 0 {
            rest.push((p.key@, p.value@))
        } else {
            rest
        }
    }
}

/// A text that is not a URL with its query replaced: the part before its
/// first `?` (and before its first `#`), then `?` and the encoded pairs if
/// there are any, then the fragment if there was one.
pub open spec fn text_with_query(base_url: Seq<char>, pairs: Seq<(Seq<char>, Seq<char>)>) -> Seq<char> {
    let (base, fragment) = match split_once(base_url, '#') {
        Some((b, f)) => (b, Some(f)),
        None => (base_url, None),
    };
    let path_only = match split_once(base, '?') {
        Some((p, _)) => p,
        None => base,
    };
    let query = if pairs.len() == 0 {
        Seq::empty()
    } else {
        form_encode(pairs)
    };
    match fragment {
        Some(f) => if query.len() == 0 {
            path_only + "#"@ + f
        } else {
            path_only + "?"@ + query + "#"@ + f
        },
        None => if query.len() == 0 {
            path_only
        } else {
            path_only + "?"@ + query
        },
    }
}

/// The URL with its query replaced by the sendable parameters: through the
/// URL parser (no query at all when there are none), or by text when the
/// text is not a URL.
pub open spec fn url_with_params_spec(base_url: Seq<char>, params: Seq<KeyValuePair>) -> Seq<char> {
    let pairs = sendable_params(params);
    let parsed = if pairs.len() == 0 {
        url_without_query(base_url)
    } else {
        url_with_query_pairs(base_url, pairs)
    };
    match parsed {
        Some(u) => u,
        None => text_with_query(base_url, pairs),
    }
}

pub(crate) fn sendable_pairs(params: &[KeyValuePair]) -> (r: Vec<(String, String)>)
    ensures
        string_pairs_view(r@) == sendable_params(params@),
{
    let mut out: Vec<(String, String)> = Vec::new();
    let mut i: usize = 0;
    while i < params.len()
        invariant
            i <= params.len(),
            string_pairs_view(out@) == sendable_params(params@.take(i as int)),
        decreases params.len() - i,
    {
        proof {
            assert(params@.take(i + 1).drop_last() =~= params@.take(i as int));
        }
        let p = &params[i];
        let key = chars_of(p.key.as_str());
        let (a, b) = trim_bounds(key.as_slice(), 0, key.len());
        proof {
            assert(key@.subrange(0, key@.len() as int) =~= key@);
        }
        if p.enabled && a < b {
            let ghost before = out@;
            let pair = (p.key.clone(), p.value.clone());
            out.push(pair);
            proof {
                assert(string_pairs_view(out@) =~= string_pairs_view(before).push((pair.0@, pair.1@)));
            }
        }
        i = i + 1;
    }
    proof {
        assert(params@.take(params@.len() as int) =~= params@);
    }
    out
}

/// The URL with its query replaced by the enabled parameters that have a
/// name: through the URL parser when the text is a URL, else by text.
pub fn url_with_params(base_url: &str, params: &[KeyValuePair]) -> (r: String)
    ensures
        r@ == url_with_params_spec(base_url@, params@),
{
    let pairs = sendable_pairs(params);
    let parsed = if pairs.len() == 0 {
        strip_url_query(base_url)
    } else {
        replace_url_query_pairs(base_url, &pairs)
    };
    if let Some(u) = parsed {
        return u;
    }
    let chars = chars_of(base_url);
    let (base, fragment): (Vec<char>, Option<Vec<char>>) = match split_once_exec(chars.as_slice(), '#') {
        Some((b, f)) => (b, Some(f)),
        None => (chars, None),
    };
    let path_only: Vec<char> = match split_once_exec(base.as_slice(), '?') {
        Some((p, _)) => p,
        None => base,
    };
    let query: String = if pairs.len() == 0 {
        String::new()
    } else {
        encode_query_pairs(&pairs)
    };
    let path = string_of(path_only.as_slice());
    match fragment {
        Some(f) => {
            let frag = string_of(f.as_slice());
            if query.as_str().is_empty() {
                path.concat("#").concat(frag.as_str())
            } else {
                path.concat("?").concat(query.as_str()).concat("#").concat(frag.as_str())
            }
        },
        None => {
            if query.as_str().is_empty() {
                path
            } else {
                path.concat("?").concat(query.as_str())
            }
        },
    }
}

/// The disabled pairs of a table, in order.
pub open spec fn disabled_pairs(v: Seq<(Seq<char>, Seq<char>, bool)>) -> Seq<(Seq<char>, Seq<char>, bool)>
    decreases v.len(),
{
    if v.len() == 0 {
        Seq::empty()
    } else if v.last().2 {
        disabled_pairs(v.drop_last())
    } else {
        disabled_pairs(v.drop_last()).push(v.last())
    }
}

/// The parameter table after the URL was edited: the parameters of the new
/// URL, each enabled, then the disabled rows of the table as it was.
pub fn params_after_url_edit(url: &str, params: &Vec<KeyValuePair>) -> (r: Vec<KeyValuePair>)
    ensures
        kvs_view(r@) == url_params_spec(url@) + disabled_pairs(kvs_view(params@)),
{
    let mut merged = params_from_url_query(url);
    let ghost from_url = kvs_view(merged@);
    let mut i: usize = 0;
    while i < params.len()
        invariant
            i <= params.len(),
            kvs_view(merged@) == from_url + disabled_pairs(kvs_view(params@.take(i as int))),
        decreases params.len() - i,
    {
        proof {
            assert(kvs_view(params@.take(i + 1)).drop_last() =~= kvs_view(params@.take(i as int)));
            assert(kvs_view(params@.take(i + 1)).last() == kv_view(params@[i as int]));
        }
        if !params[i].enabled {
            let ghost before = merged@;
            merged.push(params[i].duplicate());
            proof {
                assert(kvs_view(merged@) =~= kvs_view(before).push(kv_view(params@[i as int])));
            }
        }
        i = i + 1;
    }
    proof {
        assert(params@.take(i as int) =~= params@);
    }
    merged
}

} // verus!
