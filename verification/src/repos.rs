//! The storage the services read and write: one trait per kind of stored
//! row, implemented by the application over its database, its keychain and
//! the files of linked collections.
use vstd::prelude::*;

use crate::domain::{Collection, Environment, Folder, RequestItem, Workspace};
use crate::ids::{CollectionId, EnvironmentId, FolderId, RequestId, WorkspaceId};

verus! {

/// The error type of the storage layer (`anyhow::Error`), carried through
/// unopened.
#[verifier::external_type_specification]
#[verifier::external_body]
pub struct ExAnyhowError(anyhow::Error);

/// The text of an error of the storage layer: its `Display` output
/// (`anyhow::Error` as `Display`). Nothing is promised of the text.
#[verifier::external_body]
pub(crate) fn error_text(e: &anyhow::Error) -> String {
    e.to_string()
}

/// A stored pointer to a secret kept in the secret store.
#[derive(Debug, Clone, PartialEq, Eq)]
pub struct SecretRef {
    pub owner_kind: String,
    pub owner_id: String,
    pub secret_kind: String,
    pub provider: String,
    pub namespace: String,
    pub key_name: String,
}

/// Why saving a request was refused.
#[derive(Debug)]
pub enum RequestRepoError {
    /// The stored revision is not the one the save was based on.
    RevisionConflict { expected: i64, actual: i64 },
    /// No request with that id is stored.
    NotFound(RequestId),
    /// The storage itself failed.
    Storage(anyhow::Error),
}

pub trait WorkspaceRepository {
    fn list(&self) -> Result<Vec<Workspace>, anyhow::Error>;

    fn get(&self, id: WorkspaceId) -> Result<Option<Workspace>, anyhow::Error>;
}

pub trait CollectionRepository {
    fn get(&self, id: CollectionId) -> Result<Option<Collection>, anyhow::Error>;

    fn list_by_workspace(&self, workspace_id: WorkspaceId) -> Result<Vec<Collection>, anyhow::Error>;
}

pub trait FolderRepository {
    fn get(&self, id: FolderId) -> Result<Option<Folder>, anyhow::Error>;

    fn list_by_collection(&self, collection_id: CollectionId) -> Result<Vec<Folder>, anyhow::Error>;
}

pub trait RequestRepository {
    fn get(&self, id: RequestId) -> Result<Option<RequestItem>, anyhow::Error>;

    fn list_by_collection(&self, collection_id: CollectionId) -> Result<
        Vec<RequestItem>,
        anyhow::Error,
    >;

    fn create(
        &self,
        collection_id: CollectionId,
        parent_folder_id: Option<FolderId>,
        name: &str,
        method: &str,
        url: &str,
    ) -> Result<RequestItem, anyhow::Error>;

    fn save(&self, request: &RequestItem, expected_revision: i64) -> Result<
        RequestItem,
        RequestRepoError,
    >;
}

pub trait EnvironmentRepository {
    fn get(&self, id: EnvironmentId) -> Result<Option<Environment>, anyhow::Error>;

    fn list_by_workspace(&self, workspace_id: WorkspaceId) -> Result<
        Vec<Environment>,
        anyhow::Error,
    >;

    fn create(&self, workspace_id: WorkspaceId, name: &str) -> Result<Environment, anyhow::Error>;
}

pub trait SecretRefRepository {
    fn upsert(
        &self,
        owner_kind: &str,
        owner_id: &str,
        secret_kind: &str,
        provider: &str,
        namespace: &str,
        key_name: &str,
    ) -> Result<SecretRef, anyhow::Error>;

    fn get(&self, owner_kind: &str, owner_id: &str, secret_kind: &str) -> Result<
        Option<SecretRef>,
        anyhow::Error,
    >;

    fn delete(&self, owner_kind: &str, owner_id: &str, secret_kind: &str) -> Result<
        (),
        anyhow::Error,
    >;
}

pub trait SecretStore {
    fn put_secret(&self, key_name: &str, value: &str) -> Result<(), anyhow::Error>;

    fn get_secret(&self, key_name: &str) -> Result<Option<String>, anyhow::Error>;

    fn delete_secret(&self, key_name: &str) -> Result<(), anyhow::Error>;
}


/// The repositories of every kind of stored row, held together.
#[derive(Clone)]
pub struct Repositories<W, C, F, Q, E, H, P, S, T> {
    pub workspace: W,
    pub collection: C,
    pub folder: F,
    pub request: Q,
    pub environment: E,
    pub history: H,
    pub preferences: P,
    pub secret_refs: S,
    pub tab_session: T,
}

} // verus!
