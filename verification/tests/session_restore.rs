use std::cell::RefCell;

use torii::domain::{Collection, CollectionStorageConfig, CollectionStorageKind, Environment, Folder, RequestItem, RevisionMetadata, Workspace};
use torii::ids::{CollectionId, EnvironmentId, FolderId, ItemId, RequestId, WorkspaceId};
use torii::item_key::{ItemKey, ItemKind, TabKey};
use torii::repos::{
    CollectionRepository, EnvironmentRepository, FolderRepository, RequestRepoError,
    RequestRepository, WorkspaceRepository,
};
use torii::request_draft::{draft_for_save, persist_new_draft_request, save_after_create};
use torii::session_restore::{
    collection_workspace, environment_workspace, folder_collection, kept_environment, request_collection,
    restored_active, restored_state, SessionId, SessionRestoreService, TabSessionRepository,
    TabSessionSnapshot, WindowLayoutState, WorkspaceSessionState,
};
use torii::sidebar::SidebarSection;

use torii::tab_manager::TabState;

fn layout() -> WindowLayoutState {
    WindowLayoutState {
        sidebar_collapsed: true,
        sidebar_width_bits: 300.5f32.to_bits(),
        sidebar_section: SidebarSection::Environments,
    }
}

fn meta() -> RevisionMetadata {
    RevisionMetadata { revision: 1, created_at_unix_ms: 0, updated_at_unix_ms: 0 }
}

#[derive(Clone, Default)]
struct World {
    workspaces: Vec<Workspace>,
    collections: Vec<Collection>,
    folders: Vec<Folder>,
    requests: Vec<RequestItem>,
    environments: Vec<Environment>,
}

impl WorkspaceRepository for World {
    fn list(&self) -> Result<Vec<Workspace>, anyhow::Error> {
        Ok(self.workspaces.clone())
    }
    fn get(&self, id: WorkspaceId) -> Result<Option<Workspace>, anyhow::Error> {
        Ok(self.workspaces.iter().find(|w| w.id == id).cloned())
    }
}

impl CollectionRepository for World {
    fn get(&self, id: CollectionId) -> Result<Option<Collection>, anyhow::Error> {
        Ok(self.collections.iter().find(|c| c.id == id).cloned())
    }
    fn list_by_workspace(&self, workspace_id: WorkspaceId) -> Result<Vec<Collection>, anyhow::Error> {
        Ok(self.collections.iter().filter(|c| c.workspace_id == workspace_id).cloned().collect())
    }
}

impl FolderRepository for World {
    fn get(&self, id: FolderId) -> Result<Option<Folder>, anyhow::Error> {
        Ok(self.folders.iter().find(|f| f.id == id).cloned())
    }
    fn list_by_collection(&self, collection_id: CollectionId) -> Result<Vec<Folder>, anyhow::Error> {
        Ok(self.folders.iter().filter(|f| f.collection_id == collection_id).cloned().collect())
    }
}

impl RequestRepository for World {
    fn get(&self, id: RequestId) -> Result<Option<RequestItem>, anyhow::Error> {
        Ok(self.requests.iter().find(|r| r.id == id).cloned())
    }
    fn list_by_collection(&self, collection_id: CollectionId) -> Result<Vec<RequestItem>, anyhow::Error> {
        Ok(self.requests.iter().filter(|r| r.collection_id == collection_id).cloned().collect())
    }
    fn create(
        &self,
        collection_id: CollectionId,
        parent_folder_id: Option<FolderId>,
        name: &str,
        method: &str,
        url: &str,
    ) -> Result<RequestItem, anyhow::Error> {
        let mut r = RequestItem::new(collection_id, parent_folder_id, name, method, url, 4);
        r.meta.revision = 3;
        Ok(r)
    }
    fn save(&self, request: &RequestItem, expected_revision: i64) -> Result<RequestItem, RequestRepoError> {
        if expected_revision != request.meta.revision {
            return Err(RequestRepoError::RevisionConflict { expected: expected_revision, actual: request.meta.revision });
        }
        let mut saved = request.clone();
        saved.meta.revision += 1;
        Ok(saved)
    }
}

impl EnvironmentRepository for World {
    fn get(&self, id: EnvironmentId) -> Result<Option<Environment>, anyhow::Error> {
        Ok(self.environments.iter().find(|e| e.id == id).cloned())
    }
    fn list_by_workspace(&self, workspace_id: WorkspaceId) -> Result<Vec<Environment>, anyhow::Error> {
        Ok(self.environments.iter().filter(|e| e.workspace_id == workspace_id).cloned().collect())
    }
    fn create(&self, workspace_id: WorkspaceId, name: &str) -> Result<Environment, anyhow::Error> {
        Ok(Environment::new(workspace_id, name.to_string()))
    }
}

struct Sessions {
    snapshots: Vec<TabSessionSnapshot>,
    states: Vec<WorkspaceSessionState>,
    loads: RefCell<usize>,
}

impl TabSessionRepository for &Sessions {
    fn list_sessions(&self) -> Result<Vec<TabSessionSnapshot>, anyhow::Error> {
        Ok(self.snapshots.clone())
    }
    fn load_workspace_states(&self, _session_id: SessionId) -> Result<Vec<WorkspaceSessionState>, anyhow::Error> {
        *self.loads.borrow_mut() += 1;
        Ok(self.states.clone())
    }
}

fn world() -> (World, WorkspaceId, CollectionId, FolderId, RequestId, EnvironmentId) {
    let ws = WorkspaceId::new();
    let cid = CollectionId::new();
    let fid = FolderId::new();
    let eid = EnvironmentId::new();
    let mut req = RequestItem::new(cid, Some(fid), "R", "GET", "/", 0);
    let rid = RequestId::new();
    req.id = rid;
    let w = World {
        workspaces: vec![Workspace { id: ws, name: "W".into(), variables_json: "[]".into(), meta: meta() }],
        collections: vec![Collection {
            id: cid,
            workspace_id: ws,
            name: "C".into(),
            sort_order: 0,
            storage_kind: CollectionStorageKind::Managed,
            storage_config: CollectionStorageConfig::default(),
            meta: meta(),
        }],
        folders: vec![Folder { id: fid, collection_id: cid, parent_folder_id: None, name: "F".into(), sort_order: 0, meta: meta() }],
        requests: vec![req],
        environments: vec![Environment { id: eid, workspace_id: ws, name: "E".into(), variables_json: "[]".into(), meta: meta() }],
    };
    (w, ws, cid, fid, rid, eid)
}

fn service<'a>(w: &World, sessions: &'a Sessions) -> SessionRestoreService<&'a Sessions, World, World, World, World, World> {
    SessionRestoreService::new(sessions, w.clone(), w.clone(), w.clone(), w.clone(), w.clone())
}

#[test]
fn workspace_for_item_follows_the_rows() {
    let (w, ws, cid, fid, rid, eid) = world();
    let sessions = Sessions { snapshots: vec![], states: vec![], loads: RefCell::new(0) };
    let s = service(&w, &sessions);
    assert_eq!(s.workspace_for_item(ItemKey::workspace(ws)).unwrap(), Some(ws));
    assert_eq!(s.workspace_for_item(ItemKey::collection(cid)).unwrap(), Some(ws));
    assert_eq!(s.workspace_for_item(ItemKey::folder(fid)).unwrap(), Some(ws));
    assert_eq!(s.workspace_for_item(ItemKey::request(rid)).unwrap(), Some(ws));
    assert_eq!(s.workspace_for_item(ItemKey::environment(eid)).unwrap(), Some(ws));
    assert_eq!(s.workspace_for_item(ItemKey::settings()).unwrap(), None);
    assert_eq!(s.workspace_for_item(ItemKey::request(RequestId::new())).unwrap(), None);
    let malformed = ItemKey { kind: ItemKind::Folder, id: Some(ItemId::Request(rid)) };
    assert_eq!(s.workspace_for_item(malformed).unwrap(), None);
}

#[test]
fn restore_drops_missing_tabs_and_picks_workspace_and_environment() {
    let (w, ws, cid, _fid, rid, eid) = world();
    let gone = TabKey(ItemKey::request(RequestId::new()));
    let settings = TabKey(ItemKey::settings());
    let req_tab = TabKey(ItemKey::request(rid));
    let snapshot = TabSessionSnapshot {
        session_id: SessionId(1),
        tabs: vec![TabState::new(gone), TabState::new(settings), TabState::new(req_tab)],
        active: Some(gone),
        sidebar_selection: Some(ItemKey::collection(cid)),
        window_layout: layout(),
    };
    let other_ws = WorkspaceId::new();
    let sessions = Sessions {
        snapshots: vec![snapshot.clone()],
        states: vec![
            WorkspaceSessionState { workspace_id: ws, active_environment_id: Some(eid), expanded_items_json: "[]".into() },
            WorkspaceSessionState { workspace_id: other_ws, active_environment_id: Some(eid), expanded_items_json: "x".into() },
        ],
        loads: RefCell::new(0),
    };
    let mut s = service(&w, &sessions);
    let restored = s.take_next_restore().unwrap().unwrap();
    assert_eq!(restored.tabs, vec![TabState::new(settings), TabState::new(req_tab)]);
    assert_eq!(restored.active, None);
    assert_eq!(restored.selected_workspace_id, Some(ws));
    assert_eq!(restored.active_environments_by_workspace, vec![(ws, eid)]);
    assert_eq!(restored.expanded_items_json_by_workspace.len(), 2);
    assert_eq!(restored.sidebar_selection, Some(ItemKey::collection(cid)));
    assert_eq!(restored.window_layout, layout());
    assert!(s.take_next_restore().unwrap().is_none());
}

#[test]
fn sessions_without_surviving_tabs_are_skipped_and_claimed() {
    let (w, _ws, _cid, _fid, rid, _eid) = world();
    let empty = TabSessionSnapshot {
        session_id: SessionId(1),
        tabs: vec![TabState::new(TabKey(ItemKey::request(RequestId::new())))],
        active: None,
        sidebar_selection: None,
        window_layout: layout(),
    };
    let good = TabSessionSnapshot {
        session_id: SessionId(2),
        tabs: vec![TabState::new(TabKey(ItemKey::request(rid)))],
        active: Some(TabKey(ItemKey::request(rid))),
        sidebar_selection: None,
        window_layout: layout(),
    };
    let sessions = Sessions { snapshots: vec![empty, good], states: vec![], loads: RefCell::new(0) };
    let mut s = service(&w, &sessions);
    let restored = s.take_next_restore().unwrap().unwrap();
    assert_eq!(restored.active, Some(TabKey(ItemKey::request(rid))));
    assert!(s.take_next_restore().unwrap().is_none());
    assert_eq!(*sessions.loads.borrow(), 1);
}

#[test]
fn restored_active_keeps_only_present_tabs() {
    let a = TabKey(ItemKey::settings());
    let b = TabKey(ItemKey::about());
    assert_eq!(restored_active(&[TabState::new(a)], Some(a)), Some(a));
    assert_eq!(restored_active(&[TabState::new(a)], Some(b)), None);
    assert_eq!(restored_active(&[], None), None);
}

#[test]
fn persisting_a_new_draft_saves_it_against_the_created_revision() {
    let (w, _ws, cid, fid, _rid, _eid) = world();
    let mut draft = RequestItem::new(cid, Some(fid), "Draft", "POST", "/x", 0);
    draft.url = "/edited".to_string();
    draft.variable_overrides_json = "[1]".to_string();
    let saved = persist_new_draft_request(&w, &draft).unwrap();
    assert_eq!(saved.url, "/edited");
    assert_eq!(saved.sort_order, 4);
    assert_eq!(saved.meta.revision, 4);
    assert_eq!(saved.variable_overrides_json, "[1]");
    assert_ne!(saved.id, draft.id);

    let created = RequestItem::new(cid, None, "Other", "GET", "/", 9);
    let merged = draft_for_save(&draft, &created);
    assert_eq!(merged.id, created.id);
    assert_eq!(merged.parent_folder_id, None);
    assert_eq!(merged.sort_order, 9);
    assert_eq!(merged.name, "Draft");
}

#[test]
fn restored_state_keeps_existing_tabs_in_order() {
    let a = TabKey(ItemKey::settings());
    let b = TabKey(ItemKey::about());
    let c = TabKey(ItemKey::request(RequestId::new()));
    let snapshot = TabSessionSnapshot {
        session_id: SessionId(7),
        tabs: vec![TabState::new(a), TabState::new(c), TabState::new(b)],
        active: Some(c),
        sidebar_selection: Some(ItemKey::about()),
        window_layout: layout(),
    };
    let ws = WorkspaceId::new();
    let st = restored_state(&snapshot, &[true, false, true], Some(ws), vec![], vec![(ws, "[]".to_string())]).unwrap();
    assert_eq!(st.tabs, vec![TabState::new(a), TabState::new(b)]);
    assert_eq!(st.active, None);
    assert_eq!(st.selected_workspace_id, Some(ws));
    assert_eq!(st.sidebar_selection, Some(ItemKey::about()));
    assert_eq!(st.window_layout, layout());
    assert_eq!(f32::from_bits(st.window_layout.sidebar_width_bits), 300.5);
    assert_eq!(st.expanded_items_json_by_workspace, vec![(ws, "[]".to_string())]);
    let kept_active = restored_state(&snapshot, &[false, true, false], None, vec![], vec![]).unwrap();
    assert_eq!(kept_active.tabs, vec![TabState::new(c)]);
    assert_eq!(kept_active.active, Some(c));
    assert!(restored_state(&snapshot, &[false, false, false], Some(ws), vec![], vec![]).is_none());
}

#[test]
fn restore_of_only_malformed_tabs_is_nothing_without_loading_states() {
    let (w, _ws, _cid, _fid, rid, _eid) = world();
    let malformed = TabKey(ItemKey { kind: ItemKind::Folder, id: Some(ItemId::Request(rid)) });
    let snapshot = TabSessionSnapshot {
        session_id: SessionId(3),
        tabs: vec![TabState::new(malformed)],
        active: Some(malformed),
        sidebar_selection: None,
        window_layout: layout(),
    };
    let sessions = Sessions { snapshots: vec![], states: vec![], loads: RefCell::new(0) };
    let s = service(&w, &sessions);
    assert!(s.restore_snapshot(&snapshot).unwrap().is_none());
    assert_eq!(*sessions.loads.borrow(), 0);
}

#[test]
fn restore_from_claims_each_session_once_and_skips_claimed_ones() {
    let (w, _ws, _cid, _fid, rid, _eid) = world();
    let tab = TabKey(ItemKey::request(rid));
    let snap = |id: u128| TabSessionSnapshot {
        session_id: SessionId(id),
        tabs: vec![TabState::new(tab)],
        active: None,
        sidebar_selection: None,
        window_layout: layout(),
    };
    let sessions = Sessions { snapshots: vec![], states: vec![], loads: RefCell::new(0) };
    let mut s = service(&w, &sessions);
    let listed = vec![snap(1), snap(1), snap(2)];
    assert!(s.restore_from(&listed).unwrap().is_some());
    assert!(s.restore_from(&listed).unwrap().is_some());
    assert!(s.restore_from(&listed).unwrap().is_none());
    assert_eq!(*sessions.loads.borrow(), 2);
}

#[test]
fn looked_up_rows_name_their_workspace_and_collection() {
    let (w, ws, cid, _fid, _rid, _eid) = world();
    assert_eq!(collection_workspace(&Some(w.collections[0].clone())), Some(ws));
    assert_eq!(collection_workspace(&None), None);
    assert_eq!(environment_workspace(&Some(w.environments[0].clone())), Some(ws));
    assert_eq!(environment_workspace(&None), None);
    assert_eq!(folder_collection(&Some(w.folders[0].clone())), Some(cid));
    assert_eq!(folder_collection(&None), None);
    assert_eq!(request_collection(&Some(w.requests[0].clone())), Some(cid));
    assert_eq!(request_collection(&None), None);
}

#[test]
fn save_after_create_uses_the_created_row_and_revision() {
    let (_w, _ws, cid, fid, _rid, _eid) = world();
    let draft = RequestItem::new(cid, Some(fid), "Draft", "POST", "/x", 0);
    let mut created = RequestItem::new(cid, None, "Draft", "POST", "/x", 5);
    created.meta.revision = 3;
    let (to_save, revision) = save_after_create(&draft, Ok(created.clone())).unwrap();
    assert_eq!(revision, 3);
    assert_eq!(to_save.id, created.id);
    assert_eq!(to_save.sort_order, 5);
    assert_eq!(to_save.parent_folder_id, None);
    match save_after_create(&draft, Err(anyhow::Error::msg("disk full"))) {
        Err(RequestRepoError::Storage(e)) => assert_eq!(e.to_string(), "disk full"),
        _ => panic!("expected a storage error"),
    }
}

#[test]
fn an_active_environment_is_kept_only_in_its_own_workspace() {
    let (w, ws, _cid, _fid, _rid, eid) = world();
    let state = WorkspaceSessionState { workspace_id: ws, active_environment_id: Some(eid), expanded_items_json: "[]".into() };
    let row = Some(w.environments[0].clone());
    assert_eq!(kept_environment(&state, &row), Some((ws, eid)));
    assert_eq!(kept_environment(&state, &None), None);
    let other = WorkspaceSessionState { workspace_id: WorkspaceId::new(), ..state.clone() };
    assert_eq!(kept_environment(&other, &row), None);
    let none = WorkspaceSessionState { active_environment_id: None, ..state };
    assert_eq!(kept_environment(&none, &row), None);
}
