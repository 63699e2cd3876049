use std::collections::HashMap;

use torii::auth::{AuthResolutionError, ResolvedAuth};
use torii::domain::{ApiKeyLocation, AuthType, BodyType, KeyValuePair, RequestItem};
use torii::ids::CollectionId;
use torii::preflight::{prepare_request, preflight_with};
use torii::repos::SecretStore;
use torii::request_body::{BodyPlanError, RequestBodyPlan};

struct Secrets(HashMap<String, String>);

impl SecretStore for Secrets {
    fn put_secret(&self, _key_name: &str, _value: &str) -> Result<(), anyhow::Error> {
        Ok(())
    }
    fn get_secret(&self, key_name: &str) -> Result<Option<String>, anyhow::Error> {
        Ok(self.0.get(key_name).cloned())
    }
    fn delete_secret(&self, _key_name: &str) -> Result<(), anyhow::Error> {
        Ok(())
    }
}

struct BrokenSecrets;

impl SecretStore for BrokenSecrets {
    fn put_secret(&self, _key_name: &str, _value: &str) -> Result<(), anyhow::Error> {
        Ok(())
    }
    fn get_secret(&self, _key_name: &str) -> Result<Option<String>, anyhow::Error> {
        Err(anyhow::Error::msg("keyring locked"))
    }
    fn delete_secret(&self, _key_name: &str) -> Result<(), anyhow::Error> {
        Ok(())
    }
}

fn kv(key: &str, value: &str, enabled: bool) -> KeyValuePair {
    KeyValuePair { key: key.to_string(), value: value.to_string(), enabled }
}

fn request(method: &str, url: &str) -> RequestItem {
    RequestItem::new(CollectionId(1), None, "R", method, url, 0)
}

fn pair(k: &str, v: &str) -> (String, String) {
    (k.to_string(), v.to_string())
}

fn no_auth() -> Result<ResolvedAuth, AuthResolutionError> {
    Ok(ResolvedAuth { headers: Vec::new(), query_pairs: Vec::new() })
}

#[test]
fn an_invalid_url_is_refused_first() {
    let r = request("bad method", "not a url");
    let err = preflight_with(&r, Err(AuthResolutionError::BearerTokenMissing), Ok(RequestBodyPlan::NoBody)).unwrap_err();
    assert_eq!(err, "invalid URL: relative URL without a base");
    let err = prepare_request(&r, &Secrets(HashMap::new())).unwrap_err();
    assert_eq!(err, "invalid URL: relative URL without a base");
}

#[test]
fn auth_errors_come_next() {
    let r = request("GET", "https://example.test/");
    let err = preflight_with(&r, Err(AuthResolutionError::BearerTokenMissing), Ok(RequestBodyPlan::NoBody)).unwrap_err();
    assert_eq!(err, "auth resolution failed: bearer token not found in secret store");
    let mut with_secret = request("GET", "https://example.test/");
    with_secret.auth = AuthType::Bearer { token_secret_ref: Some("tok".into()) };
    let err = prepare_request(&with_secret, &BrokenSecrets).unwrap_err();
    assert_eq!(err, "auth resolution failed: keyring locked");
    let err = prepare_request(&with_secret, &Secrets(HashMap::new())).unwrap_err();
    assert_eq!(err, "auth resolution failed: bearer token not found in secret store");
}

#[test]
fn an_invalid_method_is_refused() {
    let r = request("GE T", "https://example.test/");
    let err = preflight_with(&r, no_auth(), Ok(RequestBodyPlan::NoBody)).unwrap_err();
    assert_eq!(err, "invalid HTTP method: 'GE T'");
    let r = request("", "https://example.test/");
    assert_eq!(preflight_with(&r, no_auth(), Ok(RequestBodyPlan::NoBody)).unwrap_err(), "invalid HTTP method: ''");
    let r = request("PURGE", "https://example.test/");
    assert!(preflight_with(&r, no_auth(), Ok(RequestBodyPlan::NoBody)).is_ok());
}

#[test]
fn body_errors_are_reported_after_the_method() {
    let r = request("POST", "https://example.test/");
    let err = preflight_with(&r, no_auth(), Err(BodyPlanError::BinaryFileNotSelected { file_name: Some("a.bin".into()) })).unwrap_err();
    assert_eq!(err, "request body invalid: binary body file is not selected (a.bin)");
}

#[test]
fn headers_are_the_valid_enabled_rows_then_auth_then_content_type() {
    let mut r = request("POST", "https://example.test/items");
    r.headers = vec![
        kv("X-One", "1", true),
        kv("X-Off", "0", false),
        kv("", "nameless", true),
        kv("Bad Name", "x", true),
        kv("X-Bad-Value", "a\nb", true),
    ];
    let auth = Ok(ResolvedAuth { headers: vec![pair("authorization", "Bearer t")], query_pairs: Vec::new() });
    let body = Ok(RequestBodyPlan::Inline { content: "{}".into(), content_type: "application/json".into() });
    let p = preflight_with(&r, auth, body).unwrap();
    assert_eq!(p.method, "POST");
    assert_eq!(p.url, "https://example.test/items");
    assert_eq!(
        p.headers,
        vec![pair("X-One", "1"), pair("authorization", "Bearer t"), pair("content-type", "application/json")]
    );
}

#[test]
fn a_content_type_row_wins_over_the_body_type() {
    let mut r = request("POST", "https://example.test/");
    r.headers = vec![kv("CONTENT-TYPE", "text/csv", true)];
    let body = Ok(RequestBodyPlan::Inline { content: "a,b".into(), content_type: "text/plain".into() });
    let p = preflight_with(&r, no_auth(), body).unwrap();
    assert_eq!(p.headers, vec![pair("CONTENT-TYPE", "text/csv")]);
}

#[test]
fn params_replace_the_query_and_auth_pairs_follow() {
    let mut r = request("GET", "https://example.test/list?old=1");
    r.params = vec![kv("page", "2", true), kv(" ", "blank", true), kv("off", "x", false)];
    let auth = Ok(ResolvedAuth { headers: Vec::new(), query_pairs: vec![pair("api_key", "k v")] });
    let p = preflight_with(&r, auth, Ok(RequestBodyPlan::NoBody)).unwrap();
    assert_eq!(p.url, "https://example.test/list?page=2&api_key=k+v");
    assert!(p.headers.is_empty());
}

#[test]
fn auth_pairs_alone_are_added_to_the_own_query() {
    let r = request("GET", "https://example.test/list?old=1");
    let auth = Ok(ResolvedAuth { headers: Vec::new(), query_pairs: vec![pair("api_key", "k")] });
    let p = preflight_with(&r, auth, Ok(RequestBodyPlan::NoBody)).unwrap();
    assert_eq!(p.url, "https://example.test/list?old=1&api_key=k");
    let plain = preflight_with(&request("GET", "HTTPS://Example.test"), no_auth(), Ok(RequestBodyPlan::NoBody)).unwrap();
    assert_eq!(plain.url, "https://example.test/");
}

#[test]
fn a_full_request_is_prepared_from_the_store() {
    let mut r = request("POST", "https://example.test/login");
    r.auth = AuthType::ApiKey {
        key_name: "key".into(),
        value_secret_ref: Some("s1".into()),
        location: ApiKeyLocation::Query,
    };
    r.body = BodyType::RawText { content: "hi".into() };
    let mut secrets = HashMap::new();
    secrets.insert("s1".to_string(), "secret".to_string());
    let p = prepare_request(&r, &Secrets(secrets)).unwrap();
    assert_eq!(p.url, "https://example.test/login?key=secret");
    assert_eq!(p.headers, vec![pair("content-type", "text/plain")]);
    assert_eq!(p.body, RequestBodyPlan::Inline { content: "hi".into(), content_type: "text/plain".into() });
}

#[test]
fn header_names_are_token_characters_of_bounded_length() {
    let mut r = request("GET", "https://example.test/");
    let long_ok = "a".repeat(65535);
    let too_long = "a".repeat(65536);
    r.headers = vec![
        kv("X-Api_Key.v2~|", "1", true),
        kv("Colon:", "x", true),
        kv("Quote\"", "x", true),
        kv(&long_ok, "2", true),
        kv(&too_long, "3", true),
        kv("naïve", "x", true),
    ];
    let p = preflight_with(&r, no_auth(), Ok(RequestBodyPlan::NoBody)).unwrap();
    assert_eq!(p.headers, vec![pair("X-Api_Key.v2~|", "1"), pair(&long_ok, "2")]);
}

#[test]
fn a_request_without_secrets_is_prepared_with_its_params_as_the_query() {
    let mut r = request("GET", "https://a.test/x?old=0");
    r.params = vec![kv("q", "1", true), kv("z", "2", false)];
    let p = prepare_request(&r, &BrokenSecrets).unwrap();
    assert_eq!(p.method, "GET");
    assert_eq!(p.url, "https://a.test/x?q=1");
    assert!(p.headers.is_empty());
    assert_eq!(p.body, RequestBodyPlan::NoBody);
}
