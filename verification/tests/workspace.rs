use torii::domain::{
    Collection, CollectionStorageConfig, CollectionStorageKind, Environment, Folder, RequestItem,
    RevisionMetadata, Workspace,
};
use torii::ids::{CollectionId, EnvironmentId, FolderId, RequestId, WorkspaceId};
use torii::item_key::ItemKey;
use torii::workspace_loader::{assemble_workspace_tree, build_tree_items, selected_workspace_index};
use torii::workspace_tree::{
    CollectionTree, FolderTree, ItemIcon, ItemTitle, TreeItem, WorkspaceCatalog, WorkspaceTree,
};

fn meta() -> RevisionMetadata {
    RevisionMetadata { revision: 1, created_at_unix_ms: 0, updated_at_unix_ms: 0 }
}

fn ws(id: WorkspaceId, name: &str) -> Workspace {
    Workspace { id, name: name.into(), variables_json: "[]".into(), meta: meta() }
}

fn catalog() -> (WorkspaceCatalog, WorkspaceId, CollectionId, FolderId, RequestId, EnvironmentId) {
    let workspace_id = WorkspaceId::new();
    let collection_id = CollectionId::new();
    let folder_id = FolderId::new();
    let request_id = RequestId::new();
    let environment_id = EnvironmentId::new();

    let catalog = WorkspaceCatalog {
        workspaces: vec![ws(workspace_id, "Workspace A")],
        selected_workspace: Some(WorkspaceTree {
            workspace: ws(workspace_id, "Workspace A"),
            collections: vec![CollectionTree {
                collection: Collection {
                    id: collection_id,
                    workspace_id,
                    name: "Collection A".into(),
                    sort_order: 0,
                    storage_kind: CollectionStorageKind::Managed,
                    storage_config: CollectionStorageConfig::default(),
                    meta: meta(),
                },
                children: vec![TreeItem::Folder(FolderTree {
                    folder: Folder {
                        id: folder_id,
                        collection_id,
                        parent_folder_id: None,
                        name: "Folder A".into(),
                        sort_order: 0,
                        meta: meta(),
                    },
                    children: vec![TreeItem::Request({
                        let mut r = RequestItem::new(
                            collection_id,
                            Some(folder_id),
                            "Request A",
                            "GET",
                            "https://example.test",
                            0,
                        );
                        r.id = request_id;
                        r
                    })],
                })],
            }],
            environments: vec![Environment {
                id: environment_id,
                workspace_id,
                name: "Env A".into(),
                variables_json: "[]".into(),
                meta: meta(),
            }],
        }),
    };
    (catalog, workspace_id, collection_id, folder_id, request_id, environment_id)
}

#[test]
fn persisted_item_titles_and_icons_resolve_by_kind() {
    let (catalog, workspace_id, collection_id, folder_id, request_id, environment_id) = catalog();
    assert_eq!(catalog.find_title(ItemKey::workspace(workspace_id)), Some(ItemTitle::Name("Workspace A".into())));
    assert_eq!(catalog.find_title(ItemKey::collection(collection_id)), Some(ItemTitle::Name("Collection A".into())));
    assert_eq!(catalog.find_title(ItemKey::folder(folder_id)), Some(ItemTitle::Name("Folder A".into())));
    assert_eq!(catalog.find_title(ItemKey::request(request_id)), Some(ItemTitle::Name("Request A".into())));
    assert_eq!(catalog.find_title(ItemKey::environment(environment_id)), Some(ItemTitle::Name("Env A".into())));
    assert_eq!(catalog.find_icon(ItemKey::workspace(workspace_id)), ItemIcon::Inbox);
    assert_eq!(catalog.find_icon(ItemKey::collection(collection_id)), ItemIcon::BookOpen);
    assert_eq!(catalog.find_icon(ItemKey::folder(folder_id)), ItemIcon::Folder);
    assert_eq!(catalog.find_icon(ItemKey::request(request_id)), ItemIcon::File);
    assert_eq!(catalog.find_icon(ItemKey::environment(environment_id)), ItemIcon::Globe);
}

#[test]
fn utility_item_titles_and_icons_resolve_by_kind() {
    let catalog = WorkspaceCatalog { workspaces: Vec::new(), selected_workspace: None };
    assert_eq!(
        catalog.find_title(ItemKey::settings()),
        Some(ItemTitle::MessageKey("tab_kind_settings".into()))
    );
    assert_eq!(
        catalog.find_title(ItemKey::about()),
        Some(ItemTitle::MessageKey("tab_kind_about".into()))
    );
    assert_eq!(catalog.find_icon(ItemKey::settings()), ItemIcon::Settings2);
    assert_eq!(catalog.find_icon(ItemKey::about()), ItemIcon::Info);
}

#[test]
fn unknown_items_have_no_title() {
    let (catalog, ..) = catalog();
    assert_eq!(catalog.find_title(ItemKey::request(RequestId::new())), None);
    assert!(!catalog.contains(ItemKey::folder(FolderId::new())));
}

#[test]
fn catalog_queries_over_the_selected_tree() {
    let (catalog, workspace_id, collection_id, folder_id, request_id, environment_id) = catalog();
    assert_eq!(catalog.selected_workspace_id(), Some(workspace_id));
    assert_eq!(catalog.first_workspace_id(), Some(workspace_id));
    assert!(catalog.contains(ItemKey::request(request_id)));
    assert!(catalog.contains(ItemKey::settings()));
    assert!(!catalog.contains(ItemKey::request(RequestId::new())));
    assert_eq!(catalog.find_collection(collection_id).unwrap().request_count(), 1);
    assert!(catalog.find_environment(environment_id).is_some());
    assert_eq!(catalog.find_request_method(request_id), Some("GET".to_string()));
    assert_eq!(
        catalog.find_breadcrumb_path(ItemKey::request(request_id)),
        vec!["Workspace A", "Collection A", "Folder A", "Request A"]
    );
    let closure = catalog.delete_closure(ItemKey::folder(folder_id));
    assert_eq!(closure, vec![ItemKey::folder(folder_id), ItemKey::request(request_id)]);
    let tree = catalog.find_collection(collection_id).unwrap();
    assert!(tree.find_folder_tree(folder_id).is_some());
    assert_eq!(tree.find_request(request_id).unwrap().name, "Request A");
}

fn folder(id: u128, parent: Option<FolderId>, sort: i64, cid: CollectionId) -> Folder {
    Folder { id: FolderId(id), collection_id: cid, parent_folder_id: parent, name: format!("F{id}"), sort_order: sort, meta: meta() }
}

fn request(id: u128, parent: Option<FolderId>, sort: i64, cid: CollectionId) -> RequestItem {
    let mut r = RequestItem::new(cid, parent, &format!("R{id}"), "GET", "/", sort);
    r.id = RequestId(id);
    r
}

fn shape(items: &[TreeItem]) -> Vec<String> {
    items
        .iter()
        .map(|i| match i {
            TreeItem::Folder(f) => format!("{}[{}]", f.folder.name, shape(&f.children).join(",")),
            TreeItem::Request(r) => r.name.clone(),
        })
        .collect()
}

#[test]
fn tree_nests_and_orders_by_sort_then_id_folders_first() {
    let cid = CollectionId::new();
    let folders = vec![
        folder(5, None, 1, cid),
        folder(3, None, 1, cid),
        folder(9, Some(FolderId(3)), 0, cid),
        folder(1, None, 2, cid),
    ];
    let requests = vec![
        request(20, None, 0, cid),
        request(10, Some(FolderId(9)), 0, cid),
        request(11, None, -1, cid),
        request(12, Some(FolderId(3)), 5, cid),
    ];
    let items = build_tree_items(&folders, &requests, None);
    assert_eq!(shape(&items), vec!["F3[F9[R10],R12]", "F5[]", "F1[]", "R11", "R20"]);
}

#[test]
fn selected_workspace_defaults_to_the_first_row() {
    let a = WorkspaceId(1);
    let b = WorkspaceId(2);
    let rows = vec![ws(a, "A"), ws(b, "B")];
    assert_eq!(selected_workspace_index(&rows, None), Some(0));
    assert_eq!(selected_workspace_index(&rows, Some(b)), Some(1));
    assert_eq!(selected_workspace_index(&rows, Some(WorkspaceId(3))), None);
    assert_eq!(selected_workspace_index(&[], None), None);
}

#[test]
fn id_text_order_matches_numeric_order() {
    let pairs = [(1u128, 2u128), (0xf, 0x10), (0xffff_0000, 0x1_0000_0000), (u128::MAX - 1, u128::MAX)];
    for (a, b) in pairs {
        assert!(RequestId(a).to_text() < RequestId(b).to_text());
        assert!(FolderId(b).to_text() > FolderId(a).to_text());
    }
}

#[test]
fn assembled_tree_pairs_each_collection_with_its_rows() {
    let workspace_id = WorkspaceId::new();
    let collection = |name: &str, sort_order: i64| Collection {
        id: CollectionId::new(),
        workspace_id,
        name: name.into(),
        sort_order,
        storage_kind: CollectionStorageKind::Managed,
        storage_config: CollectionStorageConfig::default(),
        meta: meta(),
    };
    let first = collection("First", 1);
    let second = collection("Second", 0);
    let folder = Folder {
        id: FolderId::new(),
        collection_id: second.id,
        parent_folder_id: None,
        name: "F".into(),
        sort_order: 0,
        meta: meta(),
    };
    let request = RequestItem::new(first.id, None, "R", "GET", "/", 0);
    let rows = vec![(vec![], vec![request.clone()]), (vec![folder.clone()], vec![])];
    let env = Environment {
        id: EnvironmentId::new(),
        workspace_id,
        name: "E".into(),
        variables_json: "[]".into(),
        meta: meta(),
    };
    let tree = assemble_workspace_tree(ws(workspace_id, "W"), vec![first.clone(), second.clone()], &rows, vec![env.clone()]);
    assert_eq!(tree.workspace, ws(workspace_id, "W"));
    assert_eq!(tree.environments, vec![env]);
    assert_eq!(tree.collections.len(), 2);
    assert_eq!(tree.collections[0].collection, first);
    assert_eq!(tree.collections[0].children, vec![TreeItem::Request(request)]);
    assert_eq!(tree.collections[1].collection, second);
    assert_eq!(tree.collections[1].children, vec![TreeItem::Folder(FolderTree { folder, children: vec![] })]);
}
