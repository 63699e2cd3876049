use std::collections::HashMap;

use torii::auth::{auth_from_lookup, auth_from_secret, resolve_auth, AuthResolutionError};
use torii::domain::{ApiKeyLocation, AuthType, BodyType, FormDataFileField, KeyValuePair};
use torii::ids::CollectionId;
use torii::repos::SecretStore;
use torii::request_body::{
    plan_body_bytes, plan_request_body, plan_request_body_with_boundary, BodyPlanError, BodySegment,
    RequestBodyPlan,
};
use torii::response_view::search_matches;

fn kv(key: &str, value: &str, enabled: bool) -> KeyValuePair {
    KeyValuePair { key: key.to_string(), value: value.to_string(), enabled }
}

#[test]
fn raw_bodies_go_inline_with_their_type() {
    let plan = plan_request_body_with_boundary(&BodyType::RawJson { content: "{}".into() }, "b").unwrap();
    assert_eq!(plan, RequestBodyPlan::Inline { content: "{}".into(), content_type: "application/json".into() });
    assert_eq!(plan.content_type(), Some("application/json".to_string()));
    assert_eq!(plan_request_body_with_boundary(&BodyType::NoBody, "b").unwrap(), RequestBodyPlan::NoBody);
}

#[test]
fn url_encoded_bodies_encode_enabled_entries_only() {
    let body = BodyType::UrlEncoded { entries: vec![kv("a", "1", true), kv("b", "2", false), kv("x y", "&", true)] };
    match plan_request_body_with_boundary(&body, "b").unwrap() {
        RequestBodyPlan::Inline { content, content_type } => {
            assert_eq!(content, "a=1&x+y=%26");
            assert_eq!(content_type, "application/x-www-form-urlencoded");
        }
        other => panic!("unexpected plan: {other:?}"),
    }
}

#[test]
fn multipart_bodies_frame_text_and_file_parts() {
    let body = BodyType::FormData {
        text_fields: vec![kv("k", "v", true), kv("skip", "x", false)],
        file_fields: vec![FormDataFileField { key: "f".into(), file_name: None, blob_hash: "h1".into(), enabled: true }],
    };
    let plan = plan_request_body_with_boundary(&body, "B").unwrap();
    let expected = vec![
        BodySegment::Text("--B\r\n".into()),
        BodySegment::Text("Content-Disposition: form-data; name=\"k\"\r\n\r\n".into()),
        BodySegment::Text("v".into()),
        BodySegment::Text("\r\n".into()),
        BodySegment::Text("--B\r\n".into()),
        BodySegment::Text("Content-Disposition: form-data; name=\"f\"; filename=\"file.bin\"\r\n".into()),
        BodySegment::Text("Content-Type: application/octet-stream\r\n\r\n".into()),
        BodySegment::Blob { hash: "h1".into() },
        BodySegment::Text("\r\n".into()),
        BodySegment::Text("--B--\r\n".into()),
    ];
    assert_eq!(plan, RequestBodyPlan::Multipart { boundary: "B".into(), segments: expected });
    assert_eq!(plan.content_type(), Some("multipart/form-data; boundary=B".to_string()));
}

#[test]
fn missing_files_are_refused_with_their_message() {
    let body = BodyType::FormData {
        text_fields: vec![],
        file_fields: vec![
            FormDataFileField { key: "off".into(), file_name: None, blob_hash: "".into(), enabled: false },
            FormDataFileField { key: "first".into(), file_name: None, blob_hash: "  ".into(), enabled: true },
            FormDataFileField { key: "second".into(), file_name: None, blob_hash: "".into(), enabled: true },
        ],
    };
    let err = plan_request_body_with_boundary(&body, "B").unwrap_err();
    assert_eq!(err, BodyPlanError::FormFileNotSelected { key: "first".into() });
    assert_eq!(err.message(), "form-data file 'first' has no selected file");

    let err = plan_request_body_with_boundary(&BodyType::BinaryFile { file_name: Some("x.bin".into()), blob_hash: "".into() }, "B").unwrap_err();
    assert_eq!(err.message(), "binary body file is not selected (x.bin)");
    let ok = plan_request_body_with_boundary(&BodyType::BinaryFile { file_name: None, blob_hash: "abc".into() }, "B").unwrap();
    assert_eq!(ok, RequestBodyPlan::BinaryBlob { hash: "abc".into() });
    assert_eq!(ok.content_type(), Some("application/octet-stream".to_string()));
}

#[test]
fn fresh_boundaries_are_prefixed_uuids() {
    let body = BodyType::FormData { text_fields: vec![kv("k", "v", true)], file_fields: vec![] };
    match plan_request_body(&body).unwrap() {
        RequestBodyPlan::Multipart { boundary, .. } => {
            assert!(boundary.starts_with("torii-"));
            assert_eq!(boundary.len(), "torii-".len() + 36);
        }
        other => panic!("unexpected plan: {other:?}"),
    }
}

#[test]
fn uuid_text_is_hyphenated_lowercase_hex() {
    assert_eq!(CollectionId(0xABCDEF).to_text(), "00000000-0000-0000-0000-000000abcdef");
}

struct Secrets(HashMap<String, String>);

impl SecretStore for Secrets {
    fn put_secret(&self, _key_name: &str, _value: &str) -> Result<(), anyhow::Error> {
        Ok(())
    }
    fn get_secret(&self, key_name: &str) -> Result<Option<String>, anyhow::Error> {
        Ok(self.0.get(key_name).cloned())
    }
    fn delete_secret(&self, _key_name: &str) -> Result<(), anyhow::Error> {
        Ok(())
    }
}

#[test]
fn auth_settings_become_headers_and_query_pairs() {
    let basic = AuthType::Basic { username: "user".into(), password_secret_ref: None };
    let a = auth_from_secret(&basic, "pass").unwrap();
    assert_eq!(a.headers, vec![("authorization".to_string(), "Basic dXNlcjpwYXNz".to_string())]);
    assert!(a.query_pairs.is_empty());

    let bearer = AuthType::Bearer { token_secret_ref: None };
    let a = auth_from_secret(&bearer, "abc").unwrap();
    assert_eq!(a.headers, vec![("authorization".to_string(), "Bearer abc".to_string())]);
    assert!(matches!(auth_from_secret(&bearer, "a\nb"), Err(AuthResolutionError::InvalidHeaderValue)));

    let header_key = AuthType::ApiKey { key_name: "X-Api-Key".into(), value_secret_ref: None, location: ApiKeyLocation::Header };
    let a = auth_from_secret(&header_key, "v").unwrap();
    assert_eq!(a.headers, vec![("X-Api-Key".to_string(), "v".to_string())]);
    let bad_name = AuthType::ApiKey { key_name: "bad name".into(), value_secret_ref: None, location: ApiKeyLocation::Header };
    assert!(matches!(auth_from_secret(&bad_name, "v"), Err(AuthResolutionError::InvalidHeaderName)));
    let query_key = AuthType::ApiKey { key_name: "key".into(), value_secret_ref: None, location: ApiKeyLocation::Query };
    let a = auth_from_secret(&query_key, "v").unwrap();
    assert!(a.headers.is_empty());
    assert_eq!(a.query_pairs, vec![("key".to_string(), "v".to_string())]);
}

#[test]
fn auth_secrets_come_from_the_store() {
    let store = Secrets(HashMap::from([("pw".to_string(), "pass".to_string())]));
    let basic = AuthType::Basic { username: "user".into(), password_secret_ref: Some("pw".into()) };
    let a = resolve_auth(&basic, &store).unwrap();
    assert_eq!(a.headers[0].1, "Basic dXNlcjpwYXNz");
    let gone = AuthType::Basic { username: "user".into(), password_secret_ref: Some("nope".into()) };
    let err = resolve_auth(&gone, &store).unwrap_err();
    assert!(matches!(err, AuthResolutionError::BasicPasswordMissing));
    assert_eq!(err.missing_secret_message().as_deref(), Some("basic auth password not found in secret store"));
    let no_ref = AuthType::Basic { username: "u".into(), password_secret_ref: None };
    assert_eq!(resolve_auth(&no_ref, &store).unwrap().headers[0].1, "Basic dTo=");
    assert!(resolve_auth(&AuthType::NoAuth, &store).unwrap().headers.is_empty());
}

#[test]
fn search_finds_case_insensitive_non_overlapping_byte_positions() {
    assert_eq!(search_matches("Hello hello HELLO", "hello"), vec![0, 6, 12]);
    assert_eq!(search_matches("aaaa", "aa"), vec![0, 2]);
    assert_eq!(search_matches("éa", "A"), vec![2]);
    assert!(search_matches("anything", "   ").is_empty());
    assert!(search_matches("abc", "zz").is_empty());
}

#[test]
fn auth_from_lookup_follows_the_store_answer() {
    let bearer = AuthType::Bearer { token_secret_ref: Some("t".into()) };
    assert_eq!(auth_from_lookup(&bearer, Ok(Some("abc".into()))).unwrap().headers[0].1, "Bearer abc");
    assert!(matches!(auth_from_lookup(&bearer, Ok(None)), Err(AuthResolutionError::BearerTokenMissing)));
    let key = AuthType::ApiKey { key_name: "k".into(), value_secret_ref: Some("v".into()), location: ApiKeyLocation::Query };
    assert!(matches!(auth_from_lookup(&key, Ok(None)), Err(AuthResolutionError::ApiKeyValueMissing)));
    match auth_from_lookup(&bearer, Err(anyhow::Error::msg("locked"))) {
        Err(AuthResolutionError::SecretStore(e)) => assert_eq!(e.to_string(), "locked"),
        _ => panic!("expected a store error"),
    }
}

#[test]
fn url_encoded_bodies_use_form_byte_encoding() {
    let body = BodyType::UrlEncoded {
        entries: vec![
            KeyValuePair { key: "a b".into(), value: "c&d".into(), enabled: true },
            KeyValuePair { key: "skip".into(), value: "x".into(), enabled: false },
            KeyValuePair { key: "é".into(), value: "*-._~".into(), enabled: true },
        ],
    };
    let plan = plan_request_body_with_boundary(&body, "b").unwrap();
    assert_eq!(
        plan,
        RequestBodyPlan::Inline {
            content: "a+b=c%26d&%C3%A9=*-._%7E".into(),
            content_type: "application/x-www-form-urlencoded".into(),
        }
    );
}

#[test]
fn body_bytes_count_utf8_text_and_stored_files() {
    assert_eq!(plan_body_bytes(&RequestBodyPlan::NoBody, &[]), 0);
    let inline = RequestBodyPlan::Inline { content: "é!".into(), content_type: "text/plain".into() };
    assert_eq!(plan_body_bytes(&inline, &[]), 3);
    let form = RequestBodyPlan::Multipart {
        boundary: "b".into(),
        segments: vec![
            BodySegment::Text("ab".into()),
            BodySegment::Blob { hash: "h".into() },
            BodySegment::Text("c".into()),
        ],
    };
    assert_eq!(plan_body_bytes(&form, &[0, 10, 0]), 13);
    assert_eq!(plan_body_bytes(&RequestBodyPlan::BinaryBlob { hash: "h".into() }, &[7]), 7);
}
