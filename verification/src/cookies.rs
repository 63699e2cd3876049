//! The cookies a response sets: each `Set-Cookie` header that parses as a
//! cookie becomes a row of the cookies table.
use cookie::{Cookie, SameSite};
use vstd::prelude::*;
use vstd::string::StringSliceAdditionalSpecFns;
use vstd::utf8::{decode_utf8, encode_utf8, is_char_boundary};

use crate::domain::{opt_view, owned, ResponseHeaderRow};
use crate::response_view::{is_lit, lowered};
use crate::text::{append_all, ascii_lower, chars_of, decimal, decimal_chars, string_of};

verus! {

broadcast use vstd::utf8::encode_utf8_decode_utf8;

/// The `SameSite` attribute of a cookie.
#[derive(Debug, Clone, Copy, PartialEq, Eq, Structural)]
pub enum SameSitePolicy {
    Strict,
    Lax,
    /// `SameSite=None`: sent with cross-site requests too.
    Unrestricted,
}

/// What a cookie parses to, as plain values.
#[derive(Debug, Clone, PartialEq, Eq)]
pub struct CookieAttributes {
    pub name: String,
    pub value: String,
    pub domain: Option<String>,
    pub path: Option<String>,
    /// `Max-Age`, in whole seconds.
    pub max_age_seconds: Option<i64>,
    /// `Expires`, in Unix seconds (the date is read as UTC).
    pub expires_unix_seconds: Option<i64>,
    pub secure: Option<bool>,
    pub http_only: Option<bool>,
    pub same_site: Option<SameSitePolicy>,
}

/// The attributes of a cookie, with the text of each as characters.
pub struct CookieAttributesView {
    pub name: Seq<char>,
    pub value: Seq<char>,
    pub domain: Option<Seq<char>>,
    pub path: Option<Seq<char>>,
    pub max_age_seconds: Option<i64>,
    pub expires_unix_seconds: Option<i64>,
    pub secure: Option<bool>,
    pub http_only: Option<bool>,
    pub same_site: Option<SameSitePolicy>,
}

impl View for CookieAttributes {
    type V = CookieAttributesView;

    open spec fn view(&self) -> CookieAttributesView {
        CookieAttributesView {
            name: self.name@,
            value: self.value@,
            domain: opt_view(self.domain),
            path: opt_view(self.path),
            max_age_seconds: self.max_age_seconds,
            expires_unix_seconds: self.expires_unix_seconds,
            secure: self.secure,
            http_only: self.http_only,
            same_site: self.same_site,
        }
    }
}

pub open spec fn opt_attributes_view(o: Option<CookieAttributes>) -> Option<CookieAttributesView> {
    match o {
        Some(a) => Some(a@),
        None => None,
    }
}

/// What `cookie::Cookie::parse` makes of a `Set-Cookie` header value:
/// `None` when it is not a cookie.
pub uninterp spec fn set_cookie_attributes(header_value: Seq<char>) -> Option<CookieAttributesView>;

/// Parses a header value with `cookie::Cookie::parse` (no percent-decoding)
/// and reads the cookie's name, value, domain, path, `Max-Age` in whole
/// seconds, expiry date in Unix seconds, `Secure`, `HttpOnly` and
/// `SameSite`; `None` when the parse fails.
#[verifier::external_body]
fn parse_cookie(header_value: &str) -> (r: Option<CookieAttributes>)
    ensures
        opt_attributes_view(r) == set_cookie_attributes(header_value@),
{
    let c = Cookie::parse(header_value).ok()?;
    let same_site = c.same_site().map(|s| match s {
        SameSite::Strict => SameSitePolicy::Strict,
        SameSite::Lax => SameSitePolicy::Lax,
        SameSite::None => SameSitePolicy::Unrestricted,
    });
    Some(CookieAttributes {
        name: c.name().to_string(), value: c.value().to_string(),
        domain: c.domain().map(str::to_string), path: c.path().map(str::to_string),
        max_age_seconds: c.max_age().map(|d| d.whole_seconds()),
        expires_unix_seconds: c.expires_datetime().map(|t| t.unix_timestamp()),
        secure: c.secure(), http_only: c.http_only(), same_site,
    })
}

/// How the `time` crate writes a Unix time in UTC with a format
/// description; `None` when the time is out of its range or the
/// description does not parse.
pub uninterp spec fn utc_second_text(unix_seconds: i64, description: Seq<char>) -> Option<Seq<char>>;

/// The format in which the cookies table shows an expiry date.
pub open spec fn expiry_description() -> Seq<char> {
    "[year]-[month]-[day] [hour]:[minute]:[second] UTC"@
}

/// Formats a Unix time with `time::OffsetDateTime::from_unix_timestamp`,
/// `time::format_description::parse` of `description` and
/// `OffsetDateTime::format`; the text is a function of the two arguments.
#[verifier::external_body]
#[allow(deprecated)]
fn format_utc_seconds(unix_seconds: i64, description: &str) -> (r: Option<String>)
    ensures
        opt_view(r) == utc_second_text(unix_seconds, description@),
{
    let at = cookie::time::OffsetDateTime::from_unix_timestamp(unix_seconds).ok()?;
    let items = cookie::time::format_description::parse(description).ok()?;
    at.format(&items).ok()
}

/// One row of the cookies table.
#[derive(Debug, Clone, PartialEq, Eq)]
pub struct CookieRow {
    pub name: String,
    pub value_preview: String,
    pub domain: Option<String>,
    pub path: Option<String>,
    pub expires_or_max_age: Option<String>,
    pub secure: bool,
    pub http_only: bool,
    pub same_site: Option<String>,
}

/// A cookie row, with the text of each cell as characters.
pub struct CookieRowView {
    pub name: Seq<char>,
    pub value_preview: Seq<char>,
    pub domain: Option<Seq<char>>,
    pub path: Option<Seq<char>>,
    pub expires_or_max_age: Option<Seq<char>>,
    pub secure: bool,
    pub http_only: bool,
    pub same_site: Option<Seq<char>>,
}

impl View for CookieRow {
    type V = CookieRowView;

    open spec fn view(&self) -> CookieRowView {
        CookieRowView {
            name: self.name@,
            value_preview: self.value_preview@,
            domain: opt_view(self.domain),
            path: opt_view(self.path),
            expires_or_max_age: opt_view(self.expires_or_max_age),
            secure: self.secure,
            http_only: self.http_only,
            same_site: opt_view(self.same_site),
        }
    }
}

/// The longest value, in UTF-8 bytes, that the table shows whole.
pub const VALUE_PREVIEW_BYTES: usize = 80;

/// A value whose preview can be cut: it is short enough to show whole, or
/// its first `VALUE_PREVIEW_BYTES` bytes end on a character boundary.
pub open spec fn preview_cuttable(value: Seq<char>) -> bool {
    encode_utf8(value).len() <= VALUE_PREVIEW_BYTES || is_char_boundary(
        encode_utf8(value),
        VALUE_PREVIEW_BYTES as int,
    )
}

/// The shown value: whole when it fits, else its first
/// `VALUE_PREVIEW_BYTES` bytes and an ellipsis.
pub open spec fn value_preview_spec(value: Seq<char>) -> Seq<char> {
    let bytes = encode_utf8(value);
    if bytes.len() > VALUE_PREVIEW_BYTES {
        decode_utf8(bytes.take(VALUE_PREVIEW_BYTES as int)) + "…"@
    } else {
        value
    }
}

/// The decimal numeral of an integer, with a minus sign when negative.
pub open spec fn signed_decimal(n: int) -> Seq<char> {
    if n < 0 {
        "-"@ + decimal((-n) as nat)
    } else {
        decimal(n as nat)
    }
}

/// `Max-Age` as `<seconds>s` when there is one, else the expiry date.
pub open spec fn lifetime_text(a: CookieAttributesView) -> Option<Seq<char>> {
    match a.max_age_seconds {
        Some(s) => Some(signed_decimal(s as int) + "s"@),
        None => match a.expires_unix_seconds {
            Some(t) => utc_second_text(t, expiry_description()),
            None => None,
        },
    }
}

/// The name under which a `SameSite` policy is shown.
pub open spec fn same_site_label(p: SameSitePolicy) -> Seq<char> {
    match p {
        SameSitePolicy::Strict => "Strict"@,
        SameSitePolicy::Lax => "Lax"@,
        SameSitePolicy::Unrestricted => "None"@,
    }
}

/// The row of a parsed cookie.
pub open spec fn cookie_row_spec(a: CookieAttributesView) -> CookieRowView {
    CookieRowView {
        name: a.name,
        value_preview: value_preview_spec(a.value),
        domain: a.domain,
        path: a.path,
        expires_or_max_age: lifetime_text(a),
        secure: a.secure == Some(true),
        http_only: a.http_only == Some(true),
        same_site: match a.same_site {
            Some(p) => Some(same_site_label(p)),
            None => None,
        },
    }
}

/// A `Set-Cookie` header, in any letter case.
pub open spec fn is_set_cookie_header(name: Seq<char>) -> bool {
    ascii_lower(name) == "set-cookie"@
}

/// Every `Set-Cookie` header whose value parses has a value whose preview
/// can be cut.
pub open spec fn previews_cuttable(rows: Seq<ResponseHeaderRow>) -> bool {
    forall|i: int|
        0 <= i < rows.len() && is_set_cookie_header(#[trigger] rows[i].name@)
            && set_cookie_attributes(rows[i].value@) is Some ==> preview_cuttable(
            set_cookie_attributes(rows[i].value@)->0.value,
        )
}

/// The rows of the cookies that the headers set, in header order.
pub open spec fn cookie_rows_spec(rows: Seq<ResponseHeaderRow>) -> Seq<CookieRowView>
    decreases rows.len(),
{
    if rows.len() == 0 {
        Seq::empty()
    } else {
        let before = cookie_rows_spec(rows.drop_last());
        let row = rows.last();
        if is_set_cookie_header(row.name@) {
            match set_cookie_attributes(row.value@) {
                Some(a) => before.push(cookie_row_spec(a)),
                None => before,
            }
        } else {
            before
        }
    }
}

/// The decimal numeral of an integer, with a minus sign when negative.
fn signed_decimal_chars(n: i64) -> (r: Vec<char>)
    ensures
        r@ == signed_decimal(n as int),
{
    if n < 0 {
        let magnitude: i128 = -(n as i128);
        let digits = decimal_chars(magnitude as u128);
        let mut out: Vec<char> = Vec::new();
        out.push('-');
        append_all(&mut out, digits.as_slice());
        proof {
            reveal_strlit("-");
            assert(out@ =~= "-"@ + decimal((-n) as nat));
        }
        out
    } else {
        decimal_chars(n as u128)
    }
}

/// The shown value of a cookie: whole when it fits in
/// `VALUE_PREVIEW_BYTES` bytes, else cut there with an ellipsis.
pub fn value_preview(value: &str) -> (r: String)
    requires
        preview_cuttable(value@),
    ensures
        r@ == value_preview_spec(value@),
{
    if value.as_bytes().len() > VALUE_PREVIEW_BYTES {
        let (head, _) = value.split_at(VALUE_PREVIEW_BYTES);
        let mut out = chars_of(head);
        let tail = chars_of("…");
        append_all(&mut out, tail.as_slice());
        proof {
            assert(value.spec_bytes().take(VALUE_PREVIEW_BYTES as int) =~= head.spec_bytes());
            assert(decode_utf8(encode_utf8(head@)) == head@);
        }
        string_of(out.as_slice())
    } else {
        owned(value)
    }
}

/// `Max-Age` as `<seconds>s` when there is one, else the expiry date.
fn lifetime_cell(max_age_seconds: Option<i64>, expires_unix_seconds: Option<i64>) -> (r: Option<
    String,
>)
    ensures
        opt_view(r) == (match max_age_seconds {
            Some(s) => Some(signed_decimal(s as int) + "s"@),
            None => match expires_unix_seconds {
                Some(t) => utc_second_text(t, expiry_description()),
                None => None,
            },
        }),
{
    match max_age_seconds {
        Some(s) => {
            let mut out = signed_decimal_chars(s);
            out.push('s');
            proof {
                reveal_strlit("s");
                assert(out@ =~= signed_decimal(s as int) + "s"@);
            }
            Some(string_of(out.as_slice()))
        },
        None => match expires_unix_seconds {
            Some(t) => format_utc_seconds(t, "[year]-[month]-[day] [hour]:[minute]:[second] UTC"),
            None => None,
        },
    }
}

/// The name under which a `SameSite` policy is shown.
fn same_site_text(p: SameSitePolicy) -> (r: String)
    ensures
        r@ == same_site_label(p),
{
    match p {
        SameSitePolicy::Strict => owned("Strict"),
        SameSitePolicy::Lax => owned("Lax"),
        SameSitePolicy::Unrestricted => owned("None"),
    }
}

/// The row of a parsed cookie.
pub fn cookie_row(a: &CookieAttributes) -> (r: CookieRow)
    requires
        preview_cuttable(a.value@),
    ensures
        r@ == cookie_row_spec(a@),
{
    let value_preview = value_preview(a.value.as_str());
    let expires_or_max_age = lifetime_cell(a.max_age_seconds, a.expires_unix_seconds);
    let same_site = match a.same_site {
        Some(p) => Some(same_site_text(p)),
        None => None,
    };
    let secure = match a.secure {
        Some(b) => b,
        None => false,
    };
    let http_only = match a.http_only {
        Some(b) => b,
        None => false,
    };
    CookieRow {
        name: a.name.clone(),
        value_preview,
        domain: a.domain.clone(),
        path: a.path.clone(),
        expires_or_max_age,
        secure,
        http_only,
        same_site,
    }
}

/// A `Set-Cookie` header, in any letter case.
fn names_set_cookie(name: &str) -> (r: bool)
    ensures
        r == is_set_cookie_header(name@),
{
    let l = lowered(name);
    is_lit(l.as_slice(), "set-cookie")
}

/// The rows of the cookies that the headers set, in header order; a
/// header that does not parse as a cookie is skipped.
pub fn parse_set_cookie_rows(rows: &[ResponseHeaderRow]) -> (r: Vec<CookieRow>)
    requires
        previews_cuttable(rows@),
    ensures
        r@.map_values(|c: CookieRow| c@) == cookie_rows_spec(rows@),
{
    let mut parsed: Vec<CookieRow> = Vec::new();
    let mut i: usize = 0;
    while i < rows.len()
        invariant
            i <= rows.len(),
            previews_cuttable(rows@),
            parsed@.map_values(|c: CookieRow| c@) == cookie_rows_spec(rows@.take(i as int)),
        decreases rows.len() - i,
    {
        let row = &rows[i];
        proof {
            assert(rows@.take(i as int + 1).drop_last() =~= rows@.take(i as int));
            assert(rows@.take(i as int + 1).last() == rows@[i as int]);
        }
        if names_set_cookie(row.name.as_str()) {
            if let Some(attributes) = parse_cookie(row.value.as_str()) {
                proof {
                    assert(is_set_cookie_header(rows@[i as int].name@));
                }
                let next = cookie_row(&attributes);
                let ghost before = parsed@;
                parsed.push(next);
                proof {
                    assert(parsed@.map_values(|c: CookieRow| c@) =~= before.map_values(
                        |c: CookieRow| c@,
                    ).push(next@));
                }
            }
        }
        i = i + 1;
    }
    proof {
        assert(rows@.take(rows.len() as int) =~= rows@);
    }
    parsed
}

/// The cookie rows, or `None` when some cookie's value would have to be cut
/// inside a character to fit the preview.
pub fn try_parse_set_cookie_rows(rows: &[ResponseHeaderRow]) -> (r: Option<Vec<CookieRow>>)
    ensures
        r is Some <==> previews_cuttable(rows@),
        r matches Some(v) ==> v@.map_values(|c: CookieRow| c@) == cookie_rows_spec(rows@),
{
    let mut i: usize = 0;
    while i < rows.len()
        invariant
            i <= rows.len(),
            forall|j: int|
                0 <= j < i && is_set_cookie_header(#[trigger] rows@[j].name@) && set_cookie_attributes(
                    rows@[j].value@,
                ) is Some ==> preview_cuttable(set_cookie_attributes(rows@[j].value@)->0.value),
        decreases rows.len() - i,
    {
        let ghost row = rows@[i as int];
        if names_set_cookie(rows[i].name.as_str()) {
            if let Some(attributes) = parse_cookie(rows[i].value.as_str()) {
                let value = attributes.value.as_str();
                proof {
                    assert(set_cookie_attributes(row.value@)->0.value == value@);
                }
                if value.as_bytes().len() > VALUE_PREVIEW_BYTES && !value.is_char_boundary(VALUE_PREVIEW_BYTES) {
                    proof {
                        assert(!preview_cuttable(set_cookie_attributes(row.value@)->0.value));
                        assert(is_set_cookie_header(rows@[i as int].name@));
                    }
                    return None;
                }
                proof {
                    assert(preview_cuttable(set_cookie_attributes(row.value@)->0.value));
                }
            }
        }
        proof {
            assert(is_set_cookie_header(rows@[i as int].name@) && set_cookie_attributes(
                rows@[i as int].value@,
            ) is Some ==> preview_cuttable(set_cookie_attributes(rows@[i as int].value@)->0.value));
        }
        i = i + 1;
    }
    Some(parse_set_cookie_rows(rows))
}

} // verus!
