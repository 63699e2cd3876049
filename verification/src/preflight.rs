//! The checks a request goes through before it is sent, and what is then
//! sent: the method, the URL with its query, the headers and the body plan.
//! A request that fails a check is not sent; the message says why.
use vstd::prelude::*;
use vstd::string::{StringExecFns, StringSliceAdditionalSpecFns};
use vstd::utf8::encode_utf8;

use crate::auth::{
    auth_error_text, header_name_accepts, header_name_valid, header_value_ok, header_value_valid,
    pairs_view, resolve_auth, resolve_auth_outcome, AuthResolutionError, ResolvedAuth,
};
use crate::domain::{KeyValuePair, RequestItem};
use crate::repos::SecretStore;
use crate::request_body::{
    body_plan_error_text, plan_request_body, planned_body, string_pairs_view, BodyPlanError,
    RequestBodyPlan,
};
use crate::response_view::{is_lit, lowered};
use crate::text::ascii_lower;
use crate::url_params::{
    append_url_query_pairs, parse_url_text, replace_url_query_pairs, sendable_pairs,
    sendable_params, url_parse_text, url_with_appended_query_pairs, url_with_query_pairs,
};

verus! {

/// A byte that a method name may hold: a letter, a digit or one of
/// `` !#$%&'*+-.^_`|~ ``.
pub open spec fn method_char_ok(b: u8) -> bool {
    ||| 48 <= b <= 57
    ||| 65 <= b <= 90
    ||| 97 <= b <= 122
    ||| b == 33 || b == 35 || b == 36 || b == 37 || b == 38 || b == 39 || b == 42
    ||| b == 43 || b == 45 || b == 46 || b == 94 || b == 95 || b == 96 || b == 124 || b == 126
}

/// The bytes make a method name: there is at least one, and each is allowed.
pub open spec fn method_token_ok(bytes: Seq<u8>) -> bool {
    bytes.len() > 0 && forall|i: int| 0 <= i < bytes.len() ==> method_char_ok(#[trigger] bytes[i])
}

/// Whether text is a method name (`http::Method::from_bytes`, which accepts
/// exactly a non-empty run of the token bytes above).
#[verifier::external_body]
fn method_valid(method: &str) -> (r: bool)
    ensures
        r == method_token_ok(method.spec_bytes()),
{
    http::Method::from_bytes(method.as_bytes()).is_ok()
}

/// A request ready for the transport.
#[derive(Debug)]
pub struct PreparedRequest {
    pub method: String,
    pub url: String,
    /// Name/value pairs, in the order they are added.
    pub headers: Vec<(String, String)>,
    pub body: RequestBodyPlan,
}

/// A header row that is sent: enabled, with a name, and both the name and
/// the value valid in a header.
pub open spec fn header_row_sent(p: KeyValuePair) -> bool {
    &&& p.enabled
    &&& p.key@.len() > 0
    &&& header_name_accepts(encode_utf8(p.key@))
    &&& header_value_ok(encode_utf8(p.value@))
}

/// The header rows that are sent, as name/value pairs, in order.
pub open spec fn sent_headers(rows: Seq<KeyValuePair>) -> Seq<(Seq<char>, Seq<char>)>
    decreases rows.len(),
{
    if rows.len() == 0 {
        Seq::empty()
    } else {
        let rest = sent_headers(rows.drop_last());
        let p = rows.last();
        if header_row_sent(p) {
            rest.push((p.key@, p.value@))
        } else {
            rest
        }
    }
}

/// A header name that is `Content-Type`, in any letter case.
pub open spec fn names_content_type(name: Seq<char>) -> bool {
    ascii_lower(name) == "content-type"@
}

pub open spec fn has_content_type(headers: Seq<(Seq<char>, Seq<char>)>) -> bool {
    exists|i: int| 0 <= i < headers.len() && names_content_type(#[trigger] headers[i].0)
}

/// The URL that is sent: with a query made of the parameters and then the
/// auth pairs when there are parameters (one serializer session gives the
/// same query as the parameters followed by the auth pairs), with the auth
/// pairs added to its own query when there are only those, else as parsed.
pub open spec fn request_url_spec(
    url: Seq<char>,
    params: Seq<(Seq<char>, Seq<char>)>,
    extra: Seq<(Seq<char>, Seq<char>)>,
) -> Option<Seq<char>> {
    if params.len() > 0 {
        url_with_query_pairs(url, params + extra)
    } else if extra.len() > 0 {
        url_with_appended_query_pairs(url, extra)
    } else {
        match url_parse_text(url) {
            Ok(t) => Some(t),
            Err(_) => None,
        }
    }
}

/// The content type that a body plan is sent with.
pub open spec fn plan_content_type(plan: RequestBodyPlan) -> Option<Seq<char>> {
    match plan {
        RequestBodyPlan::NoBody => None,
        RequestBodyPlan::Inline { content_type, .. } => Some(content_type@),
        RequestBodyPlan::Multipart { boundary, .. } => Some(
            "multipart/form-data; boundary="@ + boundary@,
        ),
        RequestBodyPlan::BinaryBlob { .. } => Some("application/octet-stream"@),
    }
}

/// The body's content type is added when no header sets one.
pub open spec fn needs_content_type(
    headers: Seq<(Seq<char>, Seq<char>)>,
    content_type: Option<Seq<char>>,
) -> bool {
    content_type is Some && !has_content_type(headers)
}

/// The headers that are sent: the given ones, then the body's content type
/// when no header sets one.
pub open spec fn with_content_type(
    headers: Seq<(Seq<char>, Seq<char>)>,
    content_type: Option<Seq<char>>,
) -> Seq<(Seq<char>, Seq<char>)> {
    if needs_content_type(headers, content_type) {
        headers.push(("content-type"@, content_type->0))
    } else {
        headers
    }
}

/// The header rows that are sent, as name/value pairs, in order.
fn header_rows_sent(rows: &Vec<KeyValuePair>) -> (r: Vec<(String, String)>)
    ensures
        string_pairs_view(r@) == sent_headers(rows@),
{
    let mut out: Vec<(String, String)> = Vec::new();
    let mut i: usize = 0;
    while i < rows.len()
        invariant
            i <= rows.len(),
            string_pairs_view(out@) == sent_headers(rows@.take(i as int)),
        decreases rows.len() - i,
    {
        let row = &rows[i];
        proof {
            assert(rows@.take(i as int + 1).drop_last() =~= rows@.take(i as int));
            assert(rows@.take(i as int + 1).last() == rows@[i as int]);
        }
        if row.enabled && !row.key.as_str().is_empty() && header_name_valid(row.key.as_str())
            && header_value_valid(row.value.as_str()) {
            let ghost before = out@;
            out.push((row.key.clone(), row.value.clone()));
            proof {
                assert(string_pairs_view(out@) =~= string_pairs_view(before).push(
                    (row.key@, row.value@),
                ));
            }
        }
        i = i + 1;
    }
    proof {
        assert(rows@.take(rows.len() as int) =~= rows@);
    }
    out
}

/// Appends copies of pairs.
fn append_pairs(out: &mut Vec<(String, String)>, more: &Vec<(String, String)>)
    ensures
        string_pairs_view(final(out)@) == string_pairs_view(old(out)@) + pairs_view(more@),
{
    let ghost start = out@;
    let mut i: usize = 0;
    while i < more.len()
        invariant
            i <= more.len(),
            string_pairs_view(out@) == string_pairs_view(start) + pairs_view(more@.take(i as int)),
        decreases more.len() - i,
    {
        let ghost before = out@;
        out.push((more[i].0.clone(), more[i].1.clone()));
        proof {
            assert(string_pairs_view(out@) =~= string_pairs_view(before).push(
                (more@[i as int].0@, more@[i as int].1@),
            ));
            assert(pairs_view(more@.take(i as int + 1)) =~= pairs_view(more@.take(i as int)).push(
                (more@[i as int].0@, more@[i as int].1@),
            ));
        }
        i = i + 1;
    }
    proof {
        assert(more@.take(more.len() as int) =~= more@);
    }
}

/// Whether some header is named `Content-Type`, in any letter case.
fn sets_content_type(headers: &Vec<(String, String)>) -> (r: bool)
    ensures
        r == has_content_type(string_pairs_view(headers@)),
{
    let ghost hv = string_pairs_view(headers@);
    let mut i: usize = 0;
    while i < headers.len()
        invariant
            i <= headers.len(),
            hv == string_pairs_view(headers@),
            forall|j: int| 0 <= j < i ==> !names_content_type(#[trigger] hv[j].0),
        decreases headers.len() - i,
    {
        let l = lowered(headers[i].0.as_str());
        if is_lit(l.as_slice(), "content-type") {
            proof {
                assert(names_content_type(hv[i as int].0));
            }
            return true;
        }
        i = i + 1;
    }
    false
}

/// What the checks give for a request, the auth setting's outcome and the
/// body plan. The checks, in order: the URL parses, the auth setting
/// applies, the method is valid, the body can be built, and a content type
/// that has to be added is a valid header value; then the request to send.
pub open spec fn preflight_outcome(
    request: RequestItem,
    auth: Result<ResolvedAuth, AuthResolutionError>,
    body: Result<RequestBodyPlan, BodyPlanError>,
    r: Result<PreparedRequest, String>,
) -> bool {
    &&& url_parse_text(request.url@) matches Err(e) ==> (r matches Err(m) && m@ == "invalid URL: "@
        + e)
    &&& auth matches Err(a) ==> (url_parse_text(request.url@) is Ok ==> (r matches Err(m) && (exists|
        rest: Seq<char>,
    | m@ == "auth resolution failed: "@ + rest) && (!(a is SecretStore) ==> m@
        == "auth resolution failed: "@ + auth_error_text(a))))
    &&& url_parse_text(request.url@) is Ok && auth is Ok && !method_token_ok(
        encode_utf8(request.method@),
    ) ==> (r matches Err(m) && m@ == "invalid HTTP method: '"@ + request.method@ + "'"@)
    &&& body matches Err(b) ==> (url_parse_text(request.url@) is Ok && auth is Ok
        && method_token_ok(encode_utf8(request.method@)) ==> (r matches Err(m) && m@
        == "request body invalid: "@ + body_plan_error_text(b)))
    &&& auth matches Ok(a) ==> (body matches Ok(plan) ==> (url_parse_text(request.url@) is Ok
        && method_token_ok(encode_utf8(request.method@)) ==> {
        let headers = sent_headers(request.headers@) + pairs_view(a.headers@);
        let content_type = plan_content_type(plan);
        if needs_content_type(headers, content_type) && !header_value_ok(
            encode_utf8(content_type->0),
        ) {
            r matches Err(m) && m@ == "invalid content-type: failed to parse header value"@
        } else {
            &&& r matches Ok(p)
            &&& p.method@ == request.method@
            &&& request_url_spec(
                request.url@,
                sendable_params(request.params@),
                pairs_view(a.query_pairs@),
            ) == Some(p.url@)
            &&& string_pairs_view(p.headers@) == with_content_type(headers, content_type)
            &&& p.body == plan
        }
    }))
}

/// The checks and the request to send, with the auth setting and the body
/// plan already worked out; see `preflight_outcome`.
pub fn preflight_with(
    request: &RequestItem,
    auth: Result<ResolvedAuth, AuthResolutionError>,
    body: Result<RequestBodyPlan, BodyPlanError>,
) -> (r: Result<PreparedRequest, String>)
    ensures
        preflight_outcome(*request, auth, body, r),
{
    let parsed_url = match parse_url_text(request.url.as_str()) {
        Ok(u) => u,
        Err(e) => {
            return Err(String::from_str("invalid URL: ").concat(e.as_str()));
        },
    };
    let auth = match auth {
        Ok(a) => a,
        Err(e) => {
            let message = e.message();
            return Err(String::from_str("auth resolution failed: ").concat(message.as_str()));
        },
    };
    if !method_valid(request.method.as_str()) {
        return Err(
            String::from_str("invalid HTTP method: '").concat(request.method.as_str()).concat("'"),
        );
    }
    let mut headers = header_rows_sent(&request.headers);
    append_pairs(&mut headers, &auth.headers);
    let ghost base_headers = string_pairs_view(headers@);
    let params = sendable_pairs(&request.params);
    let url = if params.len() > 0 {
        let mut all = params;
        append_pairs(&mut all, &auth.query_pairs);
        replace_url_query_pairs(request.url.as_str(), &all).unwrap()
    } else if auth.query_pairs.len() > 0 {
        proof {
            assert(string_pairs_view(auth.query_pairs@) =~= pairs_view(auth.query_pairs@));
        }
        append_url_query_pairs(request.url.as_str(), &auth.query_pairs).unwrap()
    } else {
        parsed_url
    };
    let plan = match body {
        Ok(p) => p,
        Err(e) => {
            let message = e.message();
            return Err(String::from_str("request body invalid: ").concat(message.as_str()));
        },
    };
    if let Some(content_type) = plan.content_type() {
        if !sets_content_type(&headers) {
            if !header_value_valid(content_type.as_str()) {
                return Err(String::from_str("invalid content-type: failed to parse header value"));
            }
            let ghost before = headers@;
            headers.push((String::from_str("content-type"), content_type));
            proof {
                assert(string_pairs_view(headers@) =~= string_pairs_view(before).push(
                    (headers@.last().0@, headers@.last().1@),
                ));
            }
        }
    }
    Ok(PreparedRequest { method: request.method.clone(), url, headers, body: plan })
}

/// Checks a request and works out what to send: the URL is checked first;
/// then the auth setting is applied (reading its secret from the store) and
/// the body planned, and `preflight_with` decides. With the URL valid, the
/// result is what the checks give for an outcome `resolve_auth` may give
/// and a body plan `plan_request_body` may give.
pub fn prepare_request<S: SecretStore>(request: &RequestItem, secret_store: &S) -> (r: Result<
    PreparedRequest,
    String,
>)
    ensures
        url_parse_text(request.url@) matches Err(e) ==> (r matches Err(m) && m@ == "invalid URL: "@
            + e),
        url_parse_text(request.url@) is Ok ==> exists|
            auth: Result<ResolvedAuth, AuthResolutionError>,
            body: Result<RequestBodyPlan, BodyPlanError>,
        |
            #![trigger preflight_outcome(*request, auth, body, r)]
            resolve_auth_outcome(request.auth, auth) && planned_body(request.body, body)
                && preflight_outcome(*request, auth, body, r),
{
    if let Err(e) = parse_url_text(request.url.as_str()) {
        return Err(String::from_str("invalid URL: ").concat(e.as_str()));
    }
    let auth = resolve_auth(&request.auth, secret_store);
    let body = plan_request_body(&request.body);
    let ghost (auth_view, body_view) = (auth, body);
    let r = preflight_with(request, auth, body);
    proof {
        assert(preflight_outcome(*request, auth_view, body_view, r));
    }
    r
}

} // verus!
