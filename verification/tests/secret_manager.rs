use std::cell::RefCell;
use std::collections::HashMap;

use torii::repos::{SecretRef, SecretRefRepository, SecretStore};
use torii::secret_manager::{after_rollback, missing_value_message, reference_row, rollback_failure_message, stored_value_outcome, SecretManager, SecretManagerError};

#[derive(Default)]
struct Refs {
    rows: RefCell<HashMap<(String, String, String), SecretRef>>,
    fail_upsert: bool,
    fail_delete: bool,
}

impl SecretRefRepository for &Refs {
    fn upsert(
        &self,
        owner_kind: &str,
        owner_id: &str,
        secret_kind: &str,
        provider: &str,
        namespace: &str,
        key_name: &str,
    ) -> Result<SecretRef, anyhow::Error> {
        if self.fail_upsert {
            return Err(anyhow::Error::msg("db down"));
        }
        let row = SecretRef {
            owner_kind: owner_kind.to_string(),
            owner_id: owner_id.to_string(),
            secret_kind: secret_kind.to_string(),
            provider: provider.to_string(),
            namespace: namespace.to_string(),
            key_name: key_name.to_string(),
        };
        self.rows.borrow_mut().insert(
            (owner_kind.to_string(), owner_id.to_string(), secret_kind.to_string()),
            row.clone(),
        );
        Ok(row)
    }
    fn get(&self, owner_kind: &str, owner_id: &str, secret_kind: &str) -> Result<Option<SecretRef>, anyhow::Error> {
        Ok(self
            .rows
            .borrow()
            .get(&(owner_kind.to_string(), owner_id.to_string(), secret_kind.to_string()))
            .cloned())
    }
    fn delete(&self, owner_kind: &str, owner_id: &str, secret_kind: &str) -> Result<(), anyhow::Error> {
        if self.fail_delete {
            return Err(anyhow::Error::msg("cannot delete"));
        }
        self.rows
            .borrow_mut()
            .remove(&(owner_kind.to_string(), owner_id.to_string(), secret_kind.to_string()));
        Ok(())
    }
}

#[derive(Default)]
struct Store {
    values: RefCell<HashMap<String, String>>,
    fail_put: bool,
}

impl SecretStore for &Store {
    fn put_secret(&self, key_name: &str, value: &str) -> Result<(), anyhow::Error> {
        if self.fail_put {
            return Err(anyhow::Error::msg("keychain locked"));
        }
        self.values.borrow_mut().insert(key_name.to_string(), value.to_string());
        Ok(())
    }
    fn get_secret(&self, key_name: &str) -> Result<Option<String>, anyhow::Error> {
        Ok(self.values.borrow().get(key_name).cloned())
    }
    fn delete_secret(&self, key_name: &str) -> Result<(), anyhow::Error> {
        self.values.borrow_mut().remove(key_name);
        Ok(())
    }
}

#[test]
fn key_name_joins_namespace_owner_and_kind() {
    let refs = Refs::default();
    let store = Store::default();
    let manager = SecretManager::new(&refs, &store, "keyring", "torii");
    assert_eq!(manager.key_name("request", "42", "password"), "torii:request:42:password");
}

#[test]
fn upsert_then_get_then_delete_round_trips() {
    let refs = Refs::default();
    let store = Store::default();
    let manager = SecretManager::new(&refs, &store, "keyring", "ns");
    let r = manager.upsert_secret("request", "1", "token", "abc").unwrap();
    assert_eq!(r.key_name, "ns:request:1:token");
    assert_eq!(r.provider, "keyring");
    assert_eq!(manager.get_secret("request", "1", "token").unwrap(), Some("abc".to_string()));
    manager.delete_secret("request", "1", "token").unwrap();
    assert_eq!(manager.get_secret("request", "1", "token").unwrap(), None);
    manager.delete_secret("request", "1", "token").unwrap();
}

#[test]
fn failed_store_write_rolls_back_the_reference() {
    let refs = Refs::default();
    let store = Store { fail_put: true, ..Store::default() };
    let manager = SecretManager::new(&refs, &store, "p", "ns");
    let err = manager.upsert_secret("request", "1", "token", "abc").unwrap_err();
    assert!(matches!(err, SecretManagerError::Store { operation: "put_secret", .. }));
    assert!(refs.rows.borrow().is_empty());
    assert_eq!(err.message(), "secret store operation failed: put_secret");
}

#[test]
fn failed_rollback_reports_an_inconsistent_state() {
    let refs = Refs { fail_delete: true, ..Refs::default() };
    let store = Store { fail_put: true, ..Store::default() };
    let manager = SecretManager::new(&refs, &store, "p", "ns");
    match manager.upsert_secret("request", "1", "token", "abc").unwrap_err() {
        SecretManagerError::InconsistentState { message } => assert_eq!(
            message,
            "failed to persist secret value and failed to rollback secret ref (store=keychain locked, rollback=cannot delete)"
        ),
        other => panic!("unexpected error: {other:?}"),
    }
}

#[test]
fn repository_failures_are_named_by_operation() {
    let refs = Refs { fail_upsert: true, ..Refs::default() };
    let store = Store::default();
    let manager = SecretManager::new(&refs, &store, "p", "ns");
    let err = manager.upsert_secret("a", "b", "c", "v").unwrap_err();
    assert!(matches!(err, SecretManagerError::Repository { operation: "upsert", .. }));
    assert_eq!(err.message(), "secret ref repository operation failed: upsert");
}

#[test]
fn missing_value_is_an_inconsistent_state() {
    let refs = Refs::default();
    let store = Store::default();
    let manager = SecretManager::new(&refs, &store, "p", "ns");
    manager.upsert_secret("env", "9", "api", "v").unwrap();
    store.values.borrow_mut().clear();
    match manager.get_secret("env", "9", "api").unwrap_err() {
        SecretManagerError::InconsistentState { message } => {
            assert_eq!(message, "secret value missing for owner_kind=env, owner_id=9, secret_kind=api");
        }
        other => panic!("unexpected error: {other:?}"),
    }
}

#[test]
fn message_builders_and_rollback_decision() {
    assert_eq!(missing_value_message("a", "b", "c"), "secret value missing for owner_kind=a, owner_id=b, secret_kind=c");
    assert_eq!(
        rollback_failure_message("x", "y"),
        "failed to persist secret value and failed to rollback secret ref (store=x, rollback=y)"
    );
    assert!(matches!(
        after_rollback(anyhow::Error::msg("s"), Ok(())),
        SecretManagerError::Store { operation: "put_secret", .. }
    ));
    assert!(matches!(
        after_rollback(anyhow::Error::msg("s"), Err(anyhow::Error::msg("r"))),
        SecretManagerError::InconsistentState { .. }
    ));
}

#[test]
fn a_stored_value_answer_becomes_the_lookup_result() {
    assert_eq!(stored_value_outcome("request", "1", "token", Ok(Some("v".into()))).unwrap(), Some("v".to_string()));
    match stored_value_outcome("request", "1", "token", Ok(None)) {
        Err(SecretManagerError::InconsistentState { message }) => {
            assert_eq!(message, "secret value missing for owner_kind=request, owner_id=1, secret_kind=token")
        }
        _ => panic!("expected an inconsistent state"),
    }
    assert!(matches!(
        stored_value_outcome("request", "1", "token", Err(anyhow::Error::msg("down"))),
        Err(SecretManagerError::Store { operation: "get_secret", .. })
    ));
}

#[test]
fn reference_row_passes_rows_through_and_labels_failures() {
    let row = SecretRef {
        owner_kind: "request".to_string(),
        owner_id: "r1".to_string(),
        secret_kind: "token".to_string(),
        provider: "keyring".to_string(),
        namespace: "torii".to_string(),
        key_name: "torii:request:r1:token".to_string(),
    };
    assert_eq!(reference_row(Ok(Some(row.clone()))).unwrap(), Some(row));
    assert_eq!(reference_row(Ok(None)).unwrap(), None);
    match reference_row(Err(anyhow::Error::msg("locked"))) {
        Err(SecretManagerError::Repository { operation, source }) => {
            assert_eq!(operation, "get");
            assert_eq!(source.to_string(), "locked");
        }
        _ => panic!("expected a repository error"),
    }
}
