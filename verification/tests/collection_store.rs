use std::cell::RefCell;

use torii::collection_store::{
    add_request_to_state, adopt_environments, linked_request_name, next_request_sort, resolve_row,
    CollectionStoreError,
    CollectionStoreRepos, CollectionStoreResolver, LinkedCollectionFiles, LinkedCollectionState,
    LinkedSiblingId, ResolvedCollectionStore,
};
use torii::domain::{
    Collection, CollectionStorageConfig, CollectionStorageKind, Environment, Folder, RequestItem,
    RevisionMetadata,
};
use torii::ids::{CollectionId, EnvironmentId, FolderId, RequestId, WorkspaceId};
use torii::repos::{
    CollectionRepository, EnvironmentRepository, RequestRepoError, RequestRepository,
};

fn meta() -> RevisionMetadata {
    RevisionMetadata { revision: 1, created_at_unix_ms: 0, updated_at_unix_ms: 0 }
}

fn collection(kind: CollectionStorageKind, root: Option<&str>) -> Collection {
    Collection {
        id: CollectionId::new(),
        workspace_id: WorkspaceId::new(),
        name: "C".to_string(),
        sort_order: 0,
        storage_kind: kind,
        storage_config: CollectionStorageConfig { linked_root_path: root.map(|r| r.to_string()) },
        meta: meta(),
    }
}

fn folder(id: FolderId, collection_id: CollectionId, parent: Option<FolderId>, sort: i64) -> Folder {
    Folder { id, collection_id, parent_folder_id: parent, name: "F".to_string(), sort_order: sort, meta: meta() }
}

#[test]
fn resolve_row_covers_every_storage_case() {
    let missing = CollectionId::new();
    assert!(matches!(
        resolve_row(missing, None),
        Err(CollectionStoreError::CollectionNotFound(id)) if id == missing
    ));
    let managed = collection(CollectionStorageKind::Managed, None);
    let (id, ws) = (managed.id, managed.workspace_id);
    match resolve_row(id, Some(managed)) {
        Ok(ResolvedCollectionStore::Managed(s)) => {
            assert_eq!(s.collection_id, id);
            assert_eq!(s.workspace_id, ws);
        }
        _ => panic!("expected a managed store"),
    }
    let linked = collection(CollectionStorageKind::Linked, Some("/tmp/c"));
    let id = linked.id;
    match resolve_row(id, Some(linked)) {
        Ok(ResolvedCollectionStore::Linked(s)) => {
            assert_eq!(s.root_path, "/tmp/c");
            assert_eq!(s.collection_id, id);
        }
        _ => panic!("expected a linked store"),
    }
    let rootless = collection(CollectionStorageKind::Linked, None);
    let id = rootless.id;
    let err = resolve_row(id, Some(rootless)).unwrap_err();
    assert!(matches!(err, CollectionStoreError::MissingLinkedRoot(x) if x == id));
    assert!(err.message().starts_with("linked collection "));
    assert!(err.message().ends_with(" is missing linked_root_path"));
}

#[test]
fn not_found_message_names_the_hyphenated_id() {
    let id = CollectionId(0x0123_4567_89ab_cdef_0123_4567_89ab_cdef);
    assert_eq!(
        CollectionStoreError::CollectionNotFound(id).message(),
        "collection not found: 01234567-89ab-cdef-0123-456789abcdef"
    );
}

struct OneCollection(Collection);

impl CollectionRepository for OneCollection {
    fn get(&self, id: CollectionId) -> Result<Option<Collection>, anyhow::Error> {
        Ok(if id == self.0.id { Some(self.0.clone()) } else { None })
    }
    fn list_by_workspace(&self, _workspace_id: WorkspaceId) -> Result<Vec<Collection>, anyhow::Error> {
        Ok(vec![self.0.clone()])
    }
}

#[test]
fn resolver_reads_the_row() {
    let c = collection(CollectionStorageKind::Managed, None);
    let id = c.id;
    let resolver = CollectionStoreResolver::new(OneCollection(c));
    assert!(matches!(resolver.resolve(id), Ok(ResolvedCollectionStore::Managed(_))));
    let other = CollectionId::new();
    assert!(matches!(resolver.resolve(other), Err(CollectionStoreError::CollectionNotFound(x)) if x == other));
}

fn empty_state() -> LinkedCollectionState {
    LinkedCollectionState {
        folders: Vec::new(),
        requests: Vec::new(),
        environments: Vec::new(),
        root_child_order: Vec::new(),
        folder_child_orders: Vec::new(),
    }
}

#[test]
fn add_request_to_state_files_into_root_and_folders() {
    let cid = CollectionId::new();
    let fid = FolderId(7);
    let mut state = empty_state();
    state.folders.push(folder(fid, cid, None, 0));

    let mut root_req = RequestItem::new(cid, None, "A", "GET", "/", 0);
    root_req.id = RequestId(1);
    add_request_to_state(&mut state, root_req).unwrap();
    assert_eq!(
        state.root_child_order,
        vec![LinkedSiblingId::Request { id: "00000000-0000-0000-0000-000000000001".to_string() }]
    );

    let mut in_folder = RequestItem::new(cid, Some(fid), "B", "GET", "/", 0);
    in_folder.id = RequestId(2);
    add_request_to_state(&mut state, in_folder).unwrap();
    let mut again = RequestItem::new(cid, Some(fid), "C", "GET", "/", 1);
    again.id = RequestId(3);
    add_request_to_state(&mut state, again).unwrap();
    assert_eq!(state.folder_child_orders.len(), 1);
    assert_eq!(state.folder_child_orders[0].0, fid);
    assert_eq!(state.folder_child_orders[0].1.len(), 2);
    assert_eq!(state.requests.len(), 3);

    let before = state.clone();
    let orphan = RequestItem::new(cid, Some(FolderId(99)), "D", "GET", "/", 0);
    assert!(matches!(
        add_request_to_state(&mut state, orphan),
        Err(CollectionStoreError::ParentFolderMissing(FolderId(99)))
    ));
    assert_eq!(state, before);
}

#[test]
fn adopt_environments_moves_them_into_the_workspace() {
    let ws = WorkspaceId::new();
    let envs = vec![Environment {
        id: EnvironmentId::new(),
        workspace_id: WorkspaceId::new(),
        name: "E".to_string(),
        variables_json: "[]".to_string(),
        meta: meta(),
    }];
    let out = adopt_environments(&envs, ws);
    assert_eq!(out.len(), 1);
    assert_eq!(out[0].workspace_id, ws);
    assert_eq!(out[0].name, "E");
    assert_eq!(out[0].id, envs[0].id);
}

struct NoRequests;

impl RequestRepository for NoRequests {
    fn get(&self, _id: RequestId) -> Result<Option<RequestItem>, anyhow::Error> {
        Ok(None)
    }
    fn list_by_collection(&self, _collection_id: CollectionId) -> Result<Vec<RequestItem>, anyhow::Error> {
        Ok(Vec::new())
    }
    fn create(
        &self,
        collection_id: CollectionId,
        parent_folder_id: Option<FolderId>,
        name: &str,
        method: &str,
        url: &str,
    ) -> Result<RequestItem, anyhow::Error> {
        Ok(RequestItem::new(collection_id, parent_folder_id, name, method, url, 0))
    }
    fn save(&self, request: &RequestItem, _expected_revision: i64) -> Result<RequestItem, RequestRepoError> {
        Ok(request.clone())
    }
}

struct NoEnvironments;

impl EnvironmentRepository for NoEnvironments {
    fn get(&self, _id: EnvironmentId) -> Result<Option<Environment>, anyhow::Error> {
        Ok(None)
    }
    fn list_by_workspace(&self, _workspace_id: WorkspaceId) -> Result<Vec<Environment>, anyhow::Error> {
        Ok(Vec::new())
    }
    fn create(&self, workspace_id: WorkspaceId, name: &str) -> Result<Environment, anyhow::Error> {
        Ok(Environment::new(workspace_id, name.to_string()))
    }
}

struct MemoryFiles {
    state: RefCell<LinkedCollectionState>,
}

impl LinkedCollectionFiles for MemoryFiles {
    fn read(&self, _root_path: &str, _stub: &Collection) -> Result<LinkedCollectionState, anyhow::Error> {
        Ok(self.state.borrow().clone())
    }
    fn write(&self, _root_path: &str, state: &LinkedCollectionState) -> Result<(), anyhow::Error> {
        *self.state.borrow_mut() = state.clone();
        Ok(())
    }
    fn ensure_not_reserved_name(&self, name: &str) -> Result<(), anyhow::Error> {
        if name == "collection.json" {
            Err(anyhow::Error::msg("reserved"))
        } else {
            Ok(())
        }
    }
}

#[test]
fn linked_create_request_numbers_default_names_and_orders_after_siblings() {
    let c = collection(CollectionStorageKind::Linked, Some("/tmp/linked"));
    let store = match resolve_row(c.id, Some(c.clone())).unwrap() {
        ResolvedCollectionStore::Linked(s) => s,
        _ => unreachable!(),
    };
    let resolved = ResolvedCollectionStore::Linked(store);
    let repos = CollectionStoreRepos {
        requests: NoRequests,
        environments: NoEnvironments,
        linked_files: MemoryFiles { state: RefCell::new(empty_state()) },
    };
    let first = resolved.create_request(&repos, None, "Untitled Request", "GET", "/a").unwrap();
    assert_eq!(first.name, "Untitled Request");
    assert_eq!(first.sort_order, 0);
    let second = resolved.create_request(&repos, None, "Untitled Request", "GET", "/b").unwrap();
    assert_eq!(second.name, "Untitled Request (2)");
    assert_eq!(second.sort_order, 1);
    let third = resolved.create_request(&repos, None, "Untitled Request", "POST", "/c").unwrap();
    assert_eq!(third.name, "Untitled Request (3)");
    let named = resolved.create_request(&repos, None, "Login", "POST", "/login").unwrap();
    assert_eq!(named.name, "Login");
    assert_eq!(named.collection_id, c.id);
    assert!(matches!(
        resolved.create_request(&repos, None, "collection.json", "GET", "/"),
        Err(CollectionStoreError::Storage(_))
    ));
    assert!(matches!(
        resolved.create_request(&repos, Some(FolderId(5)), "X", "GET", "/"),
        Err(CollectionStoreError::ParentFolderMissing(FolderId(5)))
    ));
    let listed = resolved.list_requests(&repos).unwrap();
    assert_eq!(listed.len(), 4);
    assert_eq!(repos.linked_files.state.borrow().root_child_order.len(), 4);

    let env = resolved.create_environment(&repos, "Staging").unwrap();
    assert_eq!(env.name, "Staging");
    let envs = resolved.list_environments(&repos).unwrap();
    assert_eq!(envs.len(), 1);
    assert_eq!(envs[0].workspace_id, c.workspace_id);
}

#[test]
fn managed_store_delegates_to_the_repositories() {
    let c = collection(CollectionStorageKind::Managed, None);
    let resolved = resolve_row(c.id, Some(c.clone())).unwrap();
    let repos = CollectionStoreRepos {
        requests: NoRequests,
        environments: NoEnvironments,
        linked_files: MemoryFiles { state: RefCell::new(empty_state()) },
    };
    let r = resolved.create_request(&repos, None, "Untitled Request", "GET", "/").unwrap();
    assert_eq!(r.name, "Untitled Request");
    assert_eq!(r.collection_id, c.id);
    assert!(resolved.list_requests(&repos).unwrap().is_empty());
    assert!(resolved.list_environments(&repos).unwrap().is_empty());
}

#[test]
fn new_linked_requests_are_numbered_and_placed_after_their_siblings() {
    let cid = CollectionId::new();
    let mut first = RequestItem::new(cid, None, "Untitled Request", "GET", "/", 3);
    first.id = RequestId::new();
    let second = RequestItem::new(cid, None, "Untitled Request (2)", "GET", "/", 7);
    let nested = RequestItem::new(cid, Some(FolderId::new()), "Untitled Request (3)", "GET", "/", 40);
    let requests = vec![first, second, nested];
    assert_eq!(linked_request_name(&requests, None, "Untitled Request"), "Untitled Request (3)");
    assert_eq!(linked_request_name(&requests, None, "Login"), "Login");
    assert_eq!(linked_request_name(&[], None, "Untitled Request"), "Untitled Request");
    assert_eq!(next_request_sort(&[], &requests, None), Some(8));
    assert_eq!(next_request_sort(&[], &[], None), Some(0));
    let last = RequestItem::new(cid, None, "Max", "GET", "/", i64::MAX);
    assert_eq!(next_request_sort(&[], &[last], None), None);
}
