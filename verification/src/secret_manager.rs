//! Secrets of requests and variables: a stored reference row plus a value in
//! the secret store, kept in step.
use vstd::prelude::*;
use vstd::string::StringExecFns;

use crate::repos::{error_text, SecretRef, SecretRefRepository, SecretStore};

verus! {

/// Why a secret operation failed.
#[derive(Debug)]
pub enum SecretManagerError {
    /// The reference row could not be read or written; `operation` names the
    /// repository call.
    Repository { operation: &'static str, source: anyhow::Error },
    /// The secret store refused; `operation` names the store call.
    Store { operation: &'static str, source: anyhow::Error },
    /// The reference row and the stored value disagree.
    InconsistentState { message: String },
}

/// The text shown for an error.
pub open spec fn error_message_spec(e: SecretManagerError) -> Seq<char> {
    match e {
        SecretManagerError::Repository { operation, .. } => "secret ref repository operation failed: "@
            + operation@,
        SecretManagerError::Store { operation, .. } => "secret store operation failed: "@
            + operation@,
        SecretManagerError::InconsistentState { message } => "secret state is inconsistent: "@
            + message@,
    }
}

impl SecretManagerError {
    /// The text shown for this error.
    pub fn message(&self) -> (r: String)
        ensures
            r@ == error_message_spec(*self),
    {
        match self {
            SecretManagerError::Repository { operation, .. } => String::from_str(
                "secret ref repository operation failed: ",
            ).concat(operation),
            SecretManagerError::Store { operation, .. } => String::from_str(
                "secret store operation failed: ",
            ).concat(operation),
            SecretManagerError::InconsistentState { message } => String::from_str(
                "secret state is inconsistent: ",
            ).concat(message.as_str()),
        }
    }
}

/// The key under which a secret value is stored:
/// `namespace:owner_kind:owner_id:secret_kind`.
pub open spec fn key_name_spec(
    namespace: Seq<char>,
    owner_kind: Seq<char>,
    owner_id: Seq<char>,
    secret_kind: Seq<char>,
) -> Seq<char> {
    namespace + seq![':'] + owner_kind + seq![':'] + owner_id + seq![':'] + secret_kind
}

/// The message of a lookup whose reference row exists but whose value is gone.
pub open spec fn missing_value_spec(
    owner_kind: Seq<char>,
    owner_id: Seq<char>,
    secret_kind: Seq<char>,
) -> Seq<char> {
    "secret value missing for owner_kind="@ + owner_kind + ", owner_id="@ + owner_id
        + ", secret_kind="@ + secret_kind
}

/// The message of a failed store write whose rollback failed too, given the
/// texts of the two errors.
pub open spec fn rollback_failure_spec(store_text: Seq<char>, rollback_text: Seq<char>) -> Seq<
    char,
> {
    "failed to persist secret value and failed to rollback secret ref (store="@ + store_text
        + ", rollback="@ + rollback_text + ")"@
}

/// The message of a lookup whose reference row exists but whose value is gone.
pub fn missing_value_message(owner_kind: &str, owner_id: &str, secret_kind: &str) -> (r: String)
    ensures
        r@ == missing_value_spec(owner_kind@, owner_id@, secret_kind@),
{
    String::from_str("secret value missing for owner_kind=").concat(owner_kind).concat(
        ", owner_id=",
    ).concat(owner_id).concat(", secret_kind=").concat(secret_kind)
}

/// The message of a failed store write whose rollback failed too.
pub fn rollback_failure_message(store_text: &str, rollback_text: &str) -> (r: String)
    ensures
        r@ == rollback_failure_spec(store_text@, rollback_text@),
{
    String::from_str("failed to persist secret value and failed to rollback secret ref (store=")
        .concat(store_text).concat(", rollback=").concat(rollback_text).concat(")")
}

/// What a failed store write becomes once the rollback of the reference row
/// has been tried: the store error when the rollback worked, an inconsistent
/// state when it did not.
pub fn after_rollback(
    store_error: anyhow::Error,
    rollback: Result<(), anyhow::Error>,
) -> (r: SecretManagerError)
    ensures
        rollback is Ok ==> r == (SecretManagerError::Store {
            operation: "put_secret",
            source: store_error,
        }),
        rollback is Err ==> r is InconsistentState,
{
    match rollback {
        Ok(()) => SecretManagerError::Store { operation: "put_secret", source: store_error },
        Err(rollback_error) => {
            let store_text = error_text(&store_error);
            let rollback_text = error_text(&rollback_error);
            SecretManagerError::InconsistentState {
                message: rollback_failure_message(store_text.as_str(), rollback_text.as_str()),
            }
        },
    }
}

/// What a lookup gives once the store has answered for an existing
/// reference row: the value; an inconsistent state when the value is gone;
/// a store error when the store failed.
pub fn stored_value_outcome(
    owner_kind: &str,
    owner_id: &str,
    secret_kind: &str,
    stored: Result<Option<String>, anyhow::Error>,
) -> (r: Result<Option<String>, SecretManagerError>)
    ensures
        stored matches Ok(Some(v)) ==> r == Ok::<Option<String>, SecretManagerError>(Some(v)),
        stored matches Ok(None) ==> (r matches Err(SecretManagerError::InconsistentState { message })
            && message@ == missing_value_spec(owner_kind@, owner_id@, secret_kind@)),
        stored matches Err(e) ==> r == Err::<Option<String>, SecretManagerError>(
            SecretManagerError::Store { operation: "get_secret", source: e },
        ),
{
    match stored {
        Ok(Some(value)) => Ok(Some(value)),
        Ok(None) => Err(
            SecretManagerError::InconsistentState {
                message: missing_value_message(owner_kind, owner_id, secret_kind),
            },
        ),
        Err(source) => Err(SecretManagerError::Store { operation: "get_secret", source }),
    }
}

/// What a lookup of the reference row gives the operations that read it:
/// the row, or `None` when there is none (and they stop there with nothing
/// to return or remove); a repository error labelled `get` when the lookup
/// failed.
pub fn reference_row(lookup: Result<Option<SecretRef>, anyhow::Error>) -> (r: Result<
    Option<SecretRef>,
    SecretManagerError,
>)
    ensures
        lookup matches Ok(row) ==> r == Ok::<Option<SecretRef>, SecretManagerError>(row),
        lookup matches Err(e) ==> r == Err::<Option<SecretRef>, SecretManagerError>(
            SecretManagerError::Repository { operation: "get", source: e },
        ),
{
    match lookup {
        Ok(row) => Ok(row),
        Err(source) => Err(SecretManagerError::Repository { operation: "get", source }),
    }
}

/// Keeps secrets as a reference row (owner, kind, provider, namespace, key)
/// plus the value in the secret store under that key.
#[derive(Clone)]
pub struct SecretManager<R, S> {
    secret_refs: R,
    secret_store: S,
    provider: String,
    namespace: String,
}

impl<R: SecretRefRepository, S: SecretStore> SecretManager<R, S> {
    pub closed spec fn provider_view(&self) -> Seq<char> {
        self.provider@
    }

    pub closed spec fn namespace_view(&self) -> Seq<char> {
        self.namespace@
    }

    pub fn new(secret_refs: R, secret_store: S, provider: &str, namespace: &str) -> (r: Self)
        ensures
            r.provider_view() == provider@,
            r.namespace_view() == namespace@,
    {
        SecretManager {
            secret_refs,
            secret_store,
            provider: String::from_str(provider),
            namespace: String::from_str(namespace),
        }
    }

    /// The store key of a secret: the namespace, the owner kind, the owner id
    /// and the secret kind, joined by `:`.
    pub fn key_name(&self, owner_kind: &str, owner_id: &str, secret_kind: &str) -> (r: String)
        ensures
            r@ == key_name_spec(self.namespace_view(), owner_kind@, owner_id@, secret_kind@),
    {
        let r = self.namespace.clone().concat(":").concat(owner_kind).concat(":").concat(
            owner_id,
        ).concat(":").concat(secret_kind);
        proof {
            reveal_strlit(":");
            assert(":"@ =~= seq![':']);
        }
        r
    }

    /// Writes the reference row, then the value under its key; when the value
    /// cannot be written the row is removed again.
    pub fn upsert_secret(
        &self,
        owner_kind: &str,
        owner_id: &str,
        secret_kind: &str,
        value: &str,
    ) -> (r: Result<SecretRef, SecretManagerError>)
        ensures
            r matches Err(SecretManagerError::Repository { operation, .. }) ==> operation@
                == "upsert"@,
            r matches Err(SecretManagerError::Store { operation, .. }) ==> operation@
                == "put_secret"@,
    {
        let key_name = self.key_name(owner_kind, owner_id, secret_kind);
        let secret_ref = match self.secret_refs.upsert(
            owner_kind,
            owner_id,
            secret_kind,
            self.provider.as_str(),
            self.namespace.as_str(),
            key_name.as_str(),
        ) {
            Ok(secret_ref) => secret_ref,
            Err(source) => {
                return Err(SecretManagerError::Repository { operation: "upsert", source });
            },
        };
        match self.secret_store.put_secret(key_name.as_str(), value) {
            Ok(()) => Ok(secret_ref),
            Err(source) => {
                let rollback = self.secret_refs.delete(owner_kind, owner_id, secret_kind);
                Err(after_rollback(source, rollback))
            },
        }
    }

    /// The value of a secret: `None` when no reference row exists; an
    /// inconsistent state when the row exists but the value is gone.
    pub fn get_secret(&self, owner_kind: &str, owner_id: &str, secret_kind: &str) -> (r: Result<
        Option<String>,
        SecretManagerError,
    >)
        ensures
            r matches Err(SecretManagerError::Repository { operation, .. }) ==> operation@
                == "get"@,
            r matches Err(SecretManagerError::Store { operation, .. }) ==> operation@
                == "get_secret"@,
            r matches Err(SecretManagerError::InconsistentState { message }) ==> message@
                == missing_value_spec(owner_kind@, owner_id@, secret_kind@),
    {
        let secret_ref = match reference_row(
            self.secret_refs.get(owner_kind, owner_id, secret_kind),
        ) {
            Ok(Some(secret_ref)) => secret_ref,
            Ok(None) => {
                return Ok(None);
            },
            Err(e) => {
                return Err(e);
            },
        };
        stored_value_outcome(
            owner_kind,
            owner_id,
            secret_kind,
            self.secret_store.get_secret(secret_ref.key_name.as_str()),
        )
    }

    /// Removes the value and then the reference row; nothing to do when no
    /// row exists.
    pub fn delete_secret(&self, owner_kind: &str, owner_id: &str, secret_kind: &str) -> (r: Result<
        (),
        SecretManagerError,
    >)
        ensures
            r matches Err(SecretManagerError::Repository { operation, .. }) ==> (operation@
                == "get"@ || operation@ == "delete"@),
            r matches Err(SecretManagerError::Store { operation, .. }) ==> operation@
                == "delete_secret"@,
            !(r matches Err(SecretManagerError::InconsistentState { .. })),
    {
        let secret_ref = match reference_row(
            self.secret_refs.get(owner_kind, owner_id, secret_kind),
        ) {
            Ok(Some(secret_ref)) => secret_ref,
            Ok(None) => {
                return Ok(());
            },
            Err(e) => {
                return Err(e);
            },
        };
        if let Err(source) = self.secret_store.delete_secret(secret_ref.key_name.as_str()) {
            return Err(SecretManagerError::Store { operation: "delete_secret", source });
        }
        if let Err(source) = self.secret_refs.delete(owner_kind, owner_id, secret_kind) {
            return Err(SecretManagerError::Repository { operation: "delete", source });
        }
        Ok(())
    }
}

} // verus!
