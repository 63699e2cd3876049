//! The headers and query pairs that a request's auth setting adds, with
//! secrets read from the secret store.
use vstd::prelude::*;
use vstd::string::{StringExecFns, StringSliceAdditionalSpecFns};
use vstd::utf8::encode_utf8;

use crate::domain::{ApiKeyLocation, AuthType};
use crate::repos::{error_text, SecretStore};

verus! {

/// A byte that a header value may hold: visible, or a tab.
pub open spec fn header_value_byte_ok(b: u8) -> bool {
    (b >= 32 && b != 127) || b == 9
}

/// The bytes make a valid header value.
pub open spec fn header_value_ok(bytes: Seq<u8>) -> bool {
    forall|i: int| 0 <= i < bytes.len() ==> header_value_byte_ok(#[trigger] bytes[i])
}

/// Whether text is a valid header value (`http::HeaderValue::from_str`,
/// which accepts exactly the bytes that are visible or a tab).
#[verifier::external_body]
pub(crate) fn header_value_valid(value: &str) -> (r: bool)
    ensures
        r == header_value_ok(value.spec_bytes()),
{
    http::HeaderValue::from_str(value).is_ok()
}

/// A byte that a header name may hold: a token character, upper-case
/// letters included (they are lowered).
pub open spec fn header_name_byte_ok(b: u8) -> bool {
    ||| b == 33 || (35 <= b && b <= 39) || b == 42 || b == 43 || b == 45 || b == 46
    ||| (48 <= b && b <= 57) || (65 <= b && b <= 90) || (94 <= b && b <= 122)
    ||| b == 124 || b == 126
}

/// The longest header name, in bytes, that is accepted.
pub const MAX_HEADER_NAME_BYTES: usize = 65535;

/// Whether `http::header::HeaderName::from_bytes` accepts the bytes as a
/// header name: at least one and at most `MAX_HEADER_NAME_BYTES` bytes,
/// each a token character.
pub open spec fn header_name_accepts(bytes: Seq<u8>) -> bool {
    &&& 1 <= bytes.len() <= MAX_HEADER_NAME_BYTES
    &&& forall|i: int| 0 <= i < bytes.len() ==> header_name_byte_ok(#[trigger] bytes[i])
}

/// Whether text is a valid header name (`http::header::HeaderName::from_bytes`,
/// which maps each byte through its table of token characters and refuses
/// an empty name, a longer one than 65535 bytes, or a byte the table maps
/// to nothing).
#[verifier::external_body]
pub(crate) fn header_name_valid(name: &str) -> (r: bool)
    ensures
        r == header_name_accepts(name.spec_bytes()),
{
    http::header::HeaderName::from_bytes(name.as_bytes()).is_ok()
}

/// The character of a 6-bit value in the standard base64 alphabet.
pub open spec fn base64_char(v: nat) -> char {
    if v < 26 {
        ((v + 65) as u32) as char
    } else if v < 52 {
        ((v + 71) as u32) as char
    } else if v < 62 {
        ((v - 4) as u32) as char
    } else if v == 62 {
        '+'
    } else {
        '/'
    }
}

/// Standard base64 with `=` padding: each group of three bytes becomes four
/// characters, and a last group of one or two bytes is padded.
pub open spec fn base64_standard(b: Seq<u8>) -> Seq<char>
    decreases b.len(),
{
    if b.len() == 0 {
        Seq::empty()
    } else if b.len() == 1 {
        seq![base64_char((b[0] / 4) as nat), base64_char(((b[0] % 4) * 16) as nat), '=', '=']
    } else if b.len() == 2 {
        seq![
            base64_char((b[0] / 4) as nat),
            base64_char(((b[0] % 4) * 16 + b[1] / 16) as nat),
            base64_char(((b[1] % 16) * 4) as nat),
            '=',
        ]
    } else {
        seq![
            base64_char((b[0] / 4) as nat),
            base64_char(((b[0] % 4) * 16 + b[1] / 16) as nat),
            base64_char(((b[1] % 16) * 4 + b[2] / 64) as nat),
            base64_char((b[2] % 64) as nat),
        ] + base64_standard(b.skip(3))
    }
}

/// The longest input encoded here: its encoding's length fits a `usize`.
pub open spec fn base64_input_limit() -> int {
    (usize::MAX / 4) * 3 - 3
}

/// Standard base64 of the UTF-8 bytes of a text
/// (`base64::engine::general_purpose::STANDARD.encode`).
#[verifier::external_body]
fn base64_encode(text: &str) -> (r: String)
    requires
        text.spec_bytes().len() <= base64_input_limit(),
    ensures
        r@ == base64_standard(text.spec_bytes()),
{
    base64::Engine::encode(&base64::engine::general_purpose::STANDARD, text)
}

/// The headers (name, value) and query pairs (name, value) an auth setting
/// adds to a request.
#[derive(Debug, Clone, PartialEq, Eq)]
pub struct ResolvedAuth {
    pub headers: Vec<(String, String)>,
    pub query_pairs: Vec<(String, String)>,
}

/// Why an auth setting could not be applied.
#[derive(Debug)]
pub enum AuthResolutionError {
    /// The secret store failed.
    SecretStore(anyhow::Error),
    /// The stored basic auth password is gone.
    BasicPasswordMissing,
    /// The stored bearer token is gone.
    BearerTokenMissing,
    /// The stored API key value is gone.
    ApiKeyValueMissing,
    /// A header value holds a byte that headers do not allow.
    InvalidHeaderValue,
    /// The API key name is not a valid header name.
    InvalidHeaderName,
    /// The basic credentials are too long to encode.
    CredentialsTooLong,
}

/// The text shown for an auth error that the secret store did not raise.
pub open spec fn auth_error_text(e: AuthResolutionError) -> Seq<char> {
    match e {
        AuthResolutionError::SecretStore(_) => Seq::empty(),
        AuthResolutionError::BasicPasswordMissing => "basic auth password not found in secret store"@,
        AuthResolutionError::BearerTokenMissing => "bearer token not found in secret store"@,
        AuthResolutionError::ApiKeyValueMissing => "API key value not found in secret store"@,
        AuthResolutionError::InvalidHeaderValue => "failed to parse header value"@,
        AuthResolutionError::InvalidHeaderName => "invalid HTTP header name"@,
        AuthResolutionError::CredentialsTooLong => "basic auth credentials are too long to encode"@,
    }
}

impl AuthResolutionError {
    /// The text shown for this error: the store's own message when the
    /// secret store failed.
    pub fn message(&self) -> (r: String)
        ensures
            !(self is SecretStore) ==> r@ == auth_error_text(*self),
    {
        match self {
            AuthResolutionError::SecretStore(e) => error_text(e),
            AuthResolutionError::BasicPasswordMissing => String::from_str(
                "basic auth password not found in secret store",
            ),
            AuthResolutionError::BearerTokenMissing => String::from_str(
                "bearer token not found in secret store",
            ),
            AuthResolutionError::ApiKeyValueMissing => String::from_str(
                "API key value not found in secret store",
            ),
            AuthResolutionError::InvalidHeaderValue => String::from_str(
                "failed to parse header value",
            ),
            AuthResolutionError::InvalidHeaderName => String::from_str("invalid HTTP header name"),
            AuthResolutionError::CredentialsTooLong => String::from_str(
                "basic auth credentials are too long to encode",
            ),
        }
    }

    /// The text shown for a missing secret; other errors have no fixed text.
    pub fn missing_secret_message(&self) -> (r: Option<String>)
        ensures
            self is BasicPasswordMissing ==> (r matches Some(m) && m@
                == "basic auth password not found in secret store"@),
            self is BearerTokenMissing ==> (r matches Some(m) && m@
                == "bearer token not found in secret store"@),
            self is ApiKeyValueMissing ==> (r matches Some(m) && m@
                == "API key value not found in secret store"@),
            !(self is BasicPasswordMissing || self is BearerTokenMissing
                || self is ApiKeyValueMissing) ==> r is None,
    {
        match self {
            AuthResolutionError::BasicPasswordMissing => Some(
                String::from_str("basic auth password not found in secret store"),
            ),
            AuthResolutionError::BearerTokenMissing => Some(
                String::from_str("bearer token not found in secret store"),
            ),
            AuthResolutionError::ApiKeyValueMissing => Some(
                String::from_str("API key value not found in secret store"),
            ),
            _ => None,
        }
    }
}

pub open spec fn pairs_view(v: Seq<(String, String)>) -> Seq<(Seq<char>, Seq<char>)> {
    v.map_values(|p: (String, String)| (p.0@, p.1@))
}

/// The value of a basic auth header.
pub open spec fn basic_value(username: Seq<char>, password: Seq<char>) -> Seq<char> {
    "Basic "@ + base64_standard(encode_utf8(username + seq![':'] + password))
}

/// What an auth setting adds, given the secret it uses (the password, the
/// token or the key value; empty when it refers to none): the headers and
/// query pairs, or why they cannot be sent.
pub open spec fn auth_plan(auth: AuthType, secret: Seq<char>) -> Option<
    (Seq<(Seq<char>, Seq<char>)>, Seq<(Seq<char>, Seq<char>)>),
> {
    match auth {
        AuthType::NoAuth => Some((Seq::empty(), Seq::empty())),
        AuthType::Basic { username, .. } => {
            let v = basic_value(username@, secret);
            if header_value_ok(encode_utf8(v)) {
                Some((seq![("authorization"@, v)], Seq::empty()))
            } else {
                None
            }
        },
        AuthType::Bearer { .. } => {
            let v = "Bearer "@ + secret;
            if header_value_ok(encode_utf8(v)) {
                Some((seq![("authorization"@, v)], Seq::empty()))
            } else {
                None
            }
        },
        AuthType::ApiKey { key_name, location, .. } => match location {
            ApiKeyLocation::Header => if header_name_accepts(encode_utf8(key_name@))
                && header_value_ok(encode_utf8(secret)) {
                Some((seq![(key_name@, secret)], Seq::empty()))
            } else {
                None
            },
            ApiKeyLocation::Query => Some((Seq::empty(), seq![(key_name@, secret)])),
        },
    }
}

fn single_pair(name: String, value: String) -> (r: Vec<(String, String)>)
    ensures
        pairs_view(r@) == seq![(name@, value@)],
{
    let mut v: Vec<(String, String)> = Vec::new();
    v.push((name, value));
    proof {
        assert(pairs_view(v@) =~= seq![(name@, value@)]);
    }
    v
}

/// Basic credentials `username:secret` too long to be encoded.
pub open spec fn credentials_too_long(auth: AuthType, secret: Seq<char>) -> bool {
    auth matches AuthType::Basic { username, .. } && encode_utf8(username@ + seq![':'] + secret).len()
        > base64_input_limit()
}

/// What applying an auth setting with the secret `secret` gives: the
/// credentials error when basic credentials are too long to encode; else
/// the headers and query pairs of `auth_plan`, or, where it has none, the
/// error of the header name (API keys only) or of a header value.
pub open spec fn auth_outcome(
    auth: AuthType,
    secret: Seq<char>,
    r: Result<ResolvedAuth, AuthResolutionError>,
) -> bool {
    if credentials_too_long(auth, secret) {
        r matches Err(AuthResolutionError::CredentialsTooLong)
    } else {
        match auth_plan(auth, secret) {
            Some((headers, query_pairs)) => r matches Ok(a) && pairs_view(a.headers@) == headers
                && pairs_view(a.query_pairs@) == query_pairs,
            None => r matches Err(e) && (e is InvalidHeaderValue || (e is InvalidHeaderName
                && auth is ApiKey)),
        }
    }
}

/// The error for a secret that an auth setting refers to but the store no
/// longer holds.
pub open spec fn missing_secret_error(auth: AuthType, e: AuthResolutionError) -> bool {
    match auth {
        AuthType::Basic { .. } => e is BasicPasswordMissing,
        AuthType::Bearer { .. } => e is BearerTokenMissing,
        _ => e is ApiKeyValueMissing,
    }
}

/// What `resolve_auth` gives: with no secret referred to, the outcome for
/// the empty secret; else a store error, the missing-secret error of the
/// setting's kind, or the outcome for some secret the store returned.
pub open spec fn resolve_auth_outcome(auth: AuthType, r: Result<ResolvedAuth, AuthResolutionError>) -> bool {
    match auth_secret_ref(auth) {
        None => auth_outcome(auth, Seq::empty(), r),
        Some(_) => {
            ||| r matches Err(AuthResolutionError::SecretStore(_))
            ||| (r matches Err(e) && missing_secret_error(auth, e))
            ||| exists|secret: Seq<char>| #[trigger] auth_outcome(auth, secret, r)
        },
    }
}

/// Applies an auth setting with its secret already read (the password, the
/// token or the key value; empty when the setting refers to none).
pub fn auth_from_secret(auth: &AuthType, secret: &str) -> (r: Result<ResolvedAuth, AuthResolutionError>)
    ensures
        auth_outcome(*auth, secret@, r),
{
    let empty: Vec<(String, String)> = Vec::new();
    proof {
        assert(pairs_view(empty@) =~= Seq::<(Seq<char>, Seq<char>)>::empty());
    }
    match auth {
        AuthType::NoAuth => Ok(ResolvedAuth { headers: Vec::new(), query_pairs: empty }),
        AuthType::Basic { username, .. } => {
            let credentials = String::from_str(username.as_str()).concat(":").concat(secret);
            proof {
                reveal_strlit(":");
                assert(":"@ =~= seq![':']);
            }
            if credentials.as_str().as_bytes().len() > (usize::MAX / 4) * 3 - 3 {
                return Err(AuthResolutionError::CredentialsTooLong);
            }
            let encoded = base64_encode(credentials.as_str());
            let value = String::from_str("Basic ").concat(encoded.as_str());
            if !header_value_valid(value.as_str()) {
                return Err(AuthResolutionError::InvalidHeaderValue);
            }
            Ok(
                ResolvedAuth {
                    headers: single_pair(String::from_str("authorization"), value),
                    query_pairs: empty,
                },
            )
        },
        AuthType::Bearer { .. } => {
            let value = String::from_str("Bearer ").concat(secret);
            if !header_value_valid(value.as_str()) {
                return Err(AuthResolutionError::InvalidHeaderValue);
            }
            Ok(
                ResolvedAuth {
                    headers: single_pair(String::from_str("authorization"), value),
                    query_pairs: empty,
                },
            )
        },
        AuthType::ApiKey { key_name, location, .. } => match location {
            ApiKeyLocation::Header => {
                if !header_name_valid(key_name.as_str()) {
                    return Err(AuthResolutionError::InvalidHeaderName);
                }
                if !header_value_valid(secret) {
                    return Err(AuthResolutionError::InvalidHeaderValue);
                }
                Ok(
                    ResolvedAuth {
                        headers: single_pair(key_name.clone(), String::from_str(secret)),
                        query_pairs: empty,
                    },
                )
            },
            ApiKeyLocation::Query => Ok(
                ResolvedAuth {
                    headers: Vec::new(),
                    query_pairs: single_pair(key_name.clone(), String::from_str(secret)),
                },
            ),
        },
    }
}

/// The secret an auth setting refers to, if any.
pub open spec fn auth_secret_ref(auth: AuthType) -> Option<String> {
    match auth {
        AuthType::NoAuth => None,
        AuthType::Basic { password_secret_ref, .. } => password_secret_ref,
        AuthType::Bearer { token_secret_ref } => token_secret_ref,
        AuthType::ApiKey { value_secret_ref, .. } => value_secret_ref,
    }
}

/// Applies an auth setting once the store has answered the lookup of its
/// secret: the value found, the missing-secret error of the setting's kind
/// when none is stored, or the store's error.
pub fn auth_from_lookup(auth: &AuthType, looked_up: Result<Option<String>, anyhow::Error>) -> (r:
    Result<ResolvedAuth, AuthResolutionError>)
    ensures
        looked_up matches Ok(Some(secret)) ==> auth_outcome(*auth, secret@, r),
        looked_up matches Ok(None) ==> (r matches Err(e) && missing_secret_error(*auth, e)),
        looked_up matches Err(e) ==> r == Err::<ResolvedAuth, AuthResolutionError>(
            AuthResolutionError::SecretStore(e),
        ),
{
    match looked_up {
        Ok(Some(secret)) => auth_from_secret(auth, secret.as_str()),
        Ok(None) => Err(
            match auth {
                AuthType::Basic { .. } => AuthResolutionError::BasicPasswordMissing,
                AuthType::Bearer { .. } => AuthResolutionError::BearerTokenMissing,
                _ => AuthResolutionError::ApiKeyValueMissing,
            },
        ),
        Err(e) => Err(AuthResolutionError::SecretStore(e)),
    }
}

/// Applies an auth setting: reads its secret from the store when it refers
/// to one (a secret that is gone is an error), else uses an empty secret.
pub fn resolve_auth<S: SecretStore>(auth: &AuthType, secret_store: &S) -> (r: Result<
    ResolvedAuth,
    AuthResolutionError,
>)
    ensures
        resolve_auth_outcome(*auth, r),
{
    let secret_ref: Option<&String> = match auth {
        AuthType::NoAuth => None,
        AuthType::Basic { password_secret_ref, .. } => password_secret_ref.as_ref(),
        AuthType::Bearer { token_secret_ref } => token_secret_ref.as_ref(),
        AuthType::ApiKey { value_secret_ref, .. } => value_secret_ref.as_ref(),
    };
    match secret_ref {
        None => {
            let r = auth_from_secret(auth, "");
            proof {
                reveal_strlit("");
                assert(""@ =~= Seq::<char>::empty());
            }
            r
        },
        Some(key) => {
            let looked_up = secret_store.get_secret(key.as_str());
            let ghost answer = looked_up;
            let r = auth_from_lookup(auth, looked_up);
            proof {
                if answer is Ok && answer->Ok_0 is Some {
                    let secret = answer->Ok_0->Some_0;
                    assert(auth_outcome(*auth, secret@, r));
                }
            }
            r
        },
    }
}

} // verus!
