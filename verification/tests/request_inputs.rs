use std::cell::RefCell;
use std::collections::HashMap;

use torii::domain::{ApiKeyLocation, AuthType, BodyType, FormDataFileField, KeyValuePair, RequestItem};
use torii::ids::{CollectionId, RequestId};
use torii::repos::{SecretRef, SecretRefRepository, SecretStore};
use torii::request_editor_state::{RequestEditorState, SaveStatus};
use torii::request_inputs::{
    body_for_kind, body_kind_of, follow_redirects_from_input, has_unsaved_changes, secret_owner, set_auth_kind,
    set_body_kind, timeout_from_input, upsert_auth_secret_value,
    AuthInputs, BodyInputs,
};
use torii::request_editor_state::EditorIdentity;
use torii::response_view::{AuthKind, BodyKind};
use torii::secret_manager::SecretManager;

#[derive(Default)]
struct Refs {
    rows: RefCell<HashMap<(String, String, String), SecretRef>>,
}

impl SecretRefRepository for &Refs {
    fn upsert(
        &self,
        owner_kind: &str,
        owner_id: &str,
        secret_kind: &str,
        provider: &str,
        namespace: &str,
        key_name: &str,
    ) -> Result<SecretRef, anyhow::Error> {
        let row = SecretRef {
            owner_kind: owner_kind.to_string(),
            owner_id: owner_id.to_string(),
            secret_kind: secret_kind.to_string(),
            provider: provider.to_string(),
            namespace: namespace.to_string(),
            key_name: key_name.to_string(),
        };
        self.rows.borrow_mut().insert((owner_kind.into(), owner_id.into(), secret_kind.into()), row.clone());
        Ok(row)
    }
    fn get(&self, owner_kind: &str, owner_id: &str, secret_kind: &str) -> Result<Option<SecretRef>, anyhow::Error> {
        Ok(self.rows.borrow().get(&(owner_kind.into(), owner_id.into(), secret_kind.into())).cloned())
    }
    fn delete(&self, owner_kind: &str, owner_id: &str, secret_kind: &str) -> Result<(), anyhow::Error> {
        self.rows.borrow_mut().remove(&(owner_kind.into(), owner_id.into(), secret_kind.into()));
        Ok(())
    }
}

#[derive(Default)]
struct Store {
    values: RefCell<HashMap<String, String>>,
    fail_put: bool,
}

impl SecretStore for &Store {
    fn put_secret(&self, key_name: &str, value: &str) -> Result<(), anyhow::Error> {
        if self.fail_put {
            return Err(anyhow::Error::msg("locked"));
        }
        self.values.borrow_mut().insert(key_name.to_string(), value.to_string());
        Ok(())
    }
    fn get_secret(&self, key_name: &str) -> Result<Option<String>, anyhow::Error> {
        Ok(self.values.borrow().get(key_name).cloned())
    }
    fn delete_secret(&self, key_name: &str) -> Result<(), anyhow::Error> {
        self.values.borrow_mut().remove(key_name);
        Ok(())
    }
}

fn kv(key: &str, value: &str) -> KeyValuePair {
    KeyValuePair { key: key.to_string(), value: value.to_string(), enabled: true }
}

fn persisted() -> RequestEditorState {
    let mut request = RequestItem::new(CollectionId(1), None, "R", "GET", "/", 0);
    request.id = RequestId(5);
    RequestEditorState::from_persisted(request)
}

fn body_inputs() -> BodyInputs {
    BodyInputs {
        raw_text: "hello".into(),
        raw_json: "{}".into(),
        url_encoded_rows: vec![kv("a", "1"), kv("", "")],
        form_text_rows: vec![kv("t", "x")],
    }
}

#[test]
fn the_body_kind_follows_the_body() {
    assert_eq!(body_kind_of(&BodyType::NoBody), BodyKind::NoBody);
    assert_eq!(body_kind_of(&BodyType::RawJson { content: "1".into() }), BodyKind::RawJson);
    assert_eq!(body_kind_of(&BodyType::BinaryFile { file_name: None, blob_hash: "h".into() }), BodyKind::BinaryFile);
}

#[test]
fn a_body_kind_picks_its_inputs() {
    let inputs = body_inputs();
    assert_eq!(body_for_kind(BodyKind::RawText, &inputs, &BodyType::NoBody), BodyType::RawText { content: "hello".into() });
    assert_eq!(body_for_kind(BodyKind::UrlEncoded, &inputs, &BodyType::NoBody), BodyType::UrlEncoded { entries: vec![kv("a", "1")] });
    let file = FormDataFileField { key: "f".into(), file_name: None, blob_hash: "h".into(), enabled: true };
    let current = BodyType::FormData { text_fields: vec![], file_fields: vec![file.clone()] };
    assert_eq!(
        body_for_kind(BodyKind::FormData, &inputs, &current),
        BodyType::FormData { text_fields: vec![kv("t", "x")], file_fields: vec![file] }
    );
    assert_eq!(
        body_for_kind(BodyKind::BinaryFile, &inputs, &current),
        BodyType::BinaryFile { file_name: None, blob_hash: String::new() }
    );
    let binary = BodyType::BinaryFile { file_name: Some("a.bin".into()), blob_hash: "h2".into() };
    assert_eq!(body_for_kind(BodyKind::BinaryFile, &inputs, &binary), binary);
}

#[test]
fn picking_a_body_kind_changes_the_draft_once() {
    let mut e = persisted();
    assert!(set_body_kind(&mut e, BodyKind::RawJson, &body_inputs()));
    assert_eq!(e.draft().body, BodyType::RawJson { content: "{}".into() });
    assert_eq!(e.save_status(), &SaveStatus::Dirty);
    assert!(!set_body_kind(&mut e, BodyKind::RawJson, &body_inputs()));
    assert!(set_body_kind(&mut e, BodyKind::NoBody, &body_inputs()));
    assert_eq!(e.save_status(), &SaveStatus::Pristine);
}

#[test]
fn secrets_belong_to_the_tab_request() {
    let (kind, id) = secret_owner(&EditorIdentity::Persisted(RequestId(5)));
    assert_eq!(kind, "request");
    assert_eq!(id, "00000000-0000-0000-0000-000000000005");
}

#[test]
fn auth_secrets_are_stored_and_referenced() {
    let refs = Refs::default();
    let store = Store::default();
    let manager = SecretManager::new(&refs, &store, "keyring", "torii");
    let mut e = persisted();
    let key = upsert_auth_secret_value(&mut e, &manager, "bearer_token", "tok").unwrap();
    assert_eq!(key, "torii:request:00000000-0000-0000-0000-000000000005:bearer_token");
    assert_eq!(store.values.borrow().get(&key).cloned(), Some("tok".to_string()));
    assert_eq!(upsert_auth_secret_value(&mut e, &manager, "bearer_token", ""), None);
    assert!(refs.rows.borrow().is_empty());
    assert!(e.preflight_error().is_none());
}

#[test]
fn a_failed_secret_write_shows_a_preflight_error() {
    let refs = Refs::default();
    let store = Store { fail_put: true, ..Store::default() };
    let manager = SecretManager::new(&refs, &store, "keyring", "torii");
    let mut e = persisted();
    assert_eq!(upsert_auth_secret_value(&mut e, &manager, "bearer_token", "tok"), None);
    assert_eq!(
        e.preflight_error().unwrap().message,
        "failed to store auth secret: secret store operation failed: put_secret"
    );
}

#[test]
fn picking_an_auth_kind_stores_its_secret() {
    let refs = Refs::default();
    let store = Store::default();
    let manager = SecretManager::new(&refs, &store, "keyring", "ns");
    let mut e = persisted();
    let inputs = AuthInputs {
        basic_username: "u".into(),
        basic_password: String::new(),
        bearer_token: String::new(),
        api_key_name: "X-Key".into(),
        api_key_value: "v".into(),
        api_key_location_index: 1,
    };
    assert!(set_auth_kind(&mut e, &manager, AuthKind::ApiKey, &inputs));
    assert_eq!(
        e.draft().auth,
        AuthType::ApiKey {
            key_name: "X-Key".into(),
            value_secret_ref: Some("ns:request:00000000-0000-0000-0000-000000000005:api_key_value".into()),
            location: ApiKeyLocation::Query,
        }
    );
    assert!(!set_auth_kind(&mut e, &manager, AuthKind::ApiKey, &inputs));
    assert!(set_auth_kind(&mut e, &manager, AuthKind::Basic, &inputs));
    assert_eq!(e.draft().auth, AuthType::Basic { username: "u".into(), password_secret_ref: None });
    assert!(set_auth_kind(&mut e, &manager, AuthKind::NoAuth, &inputs));
    assert_eq!(e.save_status(), &SaveStatus::Pristine);
}

#[test]
fn unsaved_changes_follow_the_status_and_the_draft() {
    let mut e = persisted();
    assert!(!has_unsaved_changes(&e));
    e.draft_mut().url = "/other".to_string();
    assert!(has_unsaved_changes(&e));
    e.refresh_save_status();
    assert!(has_unsaved_changes(&e));
    let draft = RequestEditorState::new_draft(CollectionId(2));
    assert!(has_unsaved_changes(&draft));
}

#[test]
fn settings_fields_read_timeouts_and_redirect_choices() {
    assert_eq!(timeout_from_input("  1500 "), Some(1500));
    assert_eq!(timeout_from_input("+7"), Some(7));
    assert_eq!(timeout_from_input("   "), None);
    assert_eq!(timeout_from_input("12ms"), None);
    assert_eq!(timeout_from_input("18446744073709551616"), None);
    assert_eq!(follow_redirects_from_input(" YES "), Some(Some(true)));
    assert_eq!(follow_redirects_from_input("1"), Some(Some(true)));
    assert_eq!(follow_redirects_from_input("False"), Some(Some(false)));
    assert_eq!(follow_redirects_from_input("no"), Some(Some(false)));
    assert_eq!(follow_redirects_from_input(""), Some(None));
    assert_eq!(follow_redirects_from_input("maybe"), None);
}
