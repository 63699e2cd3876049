//! The tree of the selected workspace (collections, folders, requests and
//! environments) and the queries the sidebar and the tabs make of it.
use vstd::prelude::*;

use crate::domain::{owned, Collection, Environment, Folder, RequestItem, Workspace};
use crate::ids::{CollectionId, EnvironmentId, FolderId, ItemId, RequestId, WorkspaceId};
use crate::item_key::{ItemKey, ItemKind};

verus! {

#[derive(Debug, PartialEq, Eq)]
pub struct WorkspaceCatalog {
    pub workspaces: Vec<Workspace>,
    pub selected_workspace: Option<WorkspaceTree>,
}

#[derive(Debug, PartialEq, Eq)]
pub struct WorkspaceTree {
    pub workspace: Workspace,
    pub collections: Vec<CollectionTree>,
    pub environments: Vec<Environment>,
}

#[derive(Debug, PartialEq, Eq)]
pub struct CollectionTree {
    pub collection: Collection,
    pub children: Vec<TreeItem>,
}

#[derive(Debug, PartialEq, Eq)]
pub struct FolderTree {
    pub folder: Folder,
    pub children: Vec<TreeItem>,
}

#[derive(Debug, PartialEq, Eq)]
pub enum TreeItem {
    Folder(FolderTree),
    Request(RequestItem),
}

/// The number of requests in a list of tree items, folders included.
pub open spec fn items_request_count(items: Seq<TreeItem>) -> nat
    decreases items,
{
    if items.len() == 0 {
        0
    } else {
        let rest = items_request_count(items.drop_first());
        match items[0] {
            TreeItem::Folder(f) => items_request_count(f.children@) + rest,
            TreeItem::Request(_) => 1 + rest,
        }
    }
}

/// The first folder with the given id, searching depth-first in order.
pub open spec fn find_folder_in_items(items: Seq<TreeItem>, id: FolderId) -> Option<FolderTree>
    decreases items,
{
    if items.len() == 0 {
        None
    } else {
        let here = match items[0] {
            TreeItem::Folder(f) => if f.folder.id == id {
                Some(f)
            } else {
                find_folder_in_items(f.children@, id)
            },
            TreeItem::Request(_) => None,
        };
        if here is Some {
            here
        } else {
            find_folder_in_items(items.drop_first(), id)
        }
    }
}

/// The first request with the given id, searching depth-first in order.
pub open spec fn find_request_in_items(items: Seq<TreeItem>, id: RequestId) -> Option<RequestItem>
    decreases items,
{
    if items.len() == 0 {
        None
    } else {
        let here = match items[0] {
            TreeItem::Folder(f) => find_request_in_items(f.children@, id),
            TreeItem::Request(r) => if r.id == id {
                Some(r)
            } else {
                None
            },
        };
        if here is Some {
            here
        } else {
            find_request_in_items(items.drop_first(), id)
        }
    }
}

/// The keys of every folder and request below, each folder before its
/// contents, in order.
pub open spec fn descendants(items: Seq<TreeItem>) -> Seq<ItemKey>
    decreases items,
{
    if items.len() == 0 {
        Seq::empty()
    } else {
        let here = match items[0] {
            TreeItem::Folder(f) => seq![
                ItemKey { kind: ItemKind::Folder, id: Some(ItemId::Folder(f.folder.id)) },
            ] + descendants(f.children@),
            TreeItem::Request(r) => seq![
                ItemKey { kind: ItemKind::Request, id: Some(ItemId::Request(r.id)) },
            ],
        };
        here + descendants(items.drop_first())
    }
}

/// The trailing breadcrumb segments of a request: its name, preceded by the
/// name of the folder that directly holds it, if any.
pub open spec fn request_crumbs_in_items(
    items: Seq<TreeItem>,
    id: RequestId,
    holder: Option<Seq<char>>,
) -> Option<Seq<Seq<char>>>
    decreases items,
{
    if items.len() == 0 {
        None
    } else {
        let here = match items[0] {
            TreeItem::Request(r) => if r.id == id {
                match holder {
                    Some(h) => Some(seq![h, r.name@]),
                    None => Some(seq![r.name@]),
                }
            } else {
                None
            },
            TreeItem::Folder(f) => request_crumbs_in_items(f.children@, id, Some(f.folder.name@)),
        };
        if here is Some {
            here
        } else {
            request_crumbs_in_items(items.drop_first(), id, holder)
        }
    }
}

fn count_items(items: &Vec<TreeItem>) -> (r: usize)
    requires
        items_request_count(items@) <= usize::MAX,
    ensures
        r == items_request_count(items@),
    decreases items@,
{
    let mut total: usize = 0;
    let mut i: usize = 0;
    proof {
        assert(items@.skip(0) =~= items@);
    }
    while i < items.len()
        invariant
            i <= items.len(),
            items_request_count(items@) <= usize::MAX,
            total + items_request_count(items@.skip(i as int)) == items_request_count(items@),
        decreases items.len() - i,
    {
        proof {
            assert(items@.skip(i as int).drop_first() =~= items@.skip(i + 1));
            assert(items@.skip(i as int)[0] == items@[i as int]);
        }
        let n = match &items[i] {
            TreeItem::Folder(f) => {
                proof {
                    assert(decreases_to!(items@ => items@[i as int]));
                }
                count_items(&f.children)
            },
            TreeItem::Request(_) => 1,
        };
        total = total + n;
        i = i + 1;
    }
    proof {
        assert(items@.skip(i as int) =~= Seq::<TreeItem>::empty());
    }
    total
}

fn find_folder_items(items: &Vec<TreeItem>, id: FolderId) -> (r: Option<&FolderTree>)
    ensures
        r.is_some() == find_folder_in_items(items@, id).is_some(),
        r matches Some(f) ==> *f == find_folder_in_items(items@, id)->0,
    decreases items@,
{
    let mut i: usize = 0;
    proof {
        assert(items@.skip(0) =~= items@);
    }
    while i < items.len()
        invariant
            i <= items.len(),
            find_folder_in_items(items@, id) == find_folder_in_items(items@.skip(i as int), id),
        decreases items.len() - i,
    {
        proof {
            assert(items@.skip(i as int).drop_first() =~= items@.skip(i + 1));
            assert(items@.skip(i as int)[0] == items@[i as int]);
        }
        match &items[i] {
            TreeItem::Folder(f) => {
                if f.folder.id == id {
                    return Some(f);
                }
                proof {
                    assert(decreases_to!(items@ => items@[i as int]));
                }
                let inner = find_folder_items(&f.children, id);
                if inner.is_some() {
                    return inner;
                }
            },
            TreeItem::Request(_) => {},
        }
        i = i + 1;
    }
    proof {
        assert(items@.skip(i as int) =~= Seq::<TreeItem>::empty());
    }
    None
}

fn find_request_items(items: &Vec<TreeItem>, id: RequestId) -> (r: Option<&RequestItem>)
    ensures
        r.is_some() == find_request_in_items(items@, id).is_some(),
        r matches Some(q) ==> *q == find_request_in_items(items@, id)->0,
    decreases items@,
{
    let mut i: usize = 0;
    proof {
        assert(items@.skip(0) =~= items@);
    }
    while i < items.len()
        invariant
            i <= items.len(),
            find_request_in_items(items@, id) == find_request_in_items(items@.skip(i as int), id),
        decreases items.len() - i,
    {
        proof {
            assert(items@.skip(i as int).drop_first() =~= items@.skip(i + 1));
            assert(items@.skip(i as int)[0] == items@[i as int]);
        }
        match &items[i] {
            TreeItem::Folder(f) => {
                proof {
                    assert(decreases_to!(items@ => items@[i as int]));
                }
                let inner = find_request_items(&f.children, id);
                if inner.is_some() {
                    return inner;
                }
            },
            TreeItem::Request(r) => {
                if r.id == id {
                    return Some(r);
                }
            },
        }
        i = i + 1;
    }
    proof {
        assert(items@.skip(i as int) =~= Seq::<TreeItem>::empty());
    }
    None
}

fn collect_descendants_items(items: &Vec<TreeItem>, keys: &mut Vec<ItemKey>)
    ensures
        final(keys)@ == old(keys)@ + descendants(items@),
    decreases items@,
{
    let mut i: usize = 0;
    proof {
        assert(items@.skip(0) =~= items@);
    }
    while i < items.len()
        invariant
            i <= items.len(),
            keys@ + descendants(items@.skip(i as int)) == old(keys)@ + descendants(items@),
        decreases items.len() - i,
    {
        proof {
            assert(items@.skip(i as int).drop_first() =~= items@.skip(i + 1));
            assert(items@.skip(i as int)[0] == items@[i as int]);
        }
        let ghost before = keys@;
        match &items[i] {
            TreeItem::Folder(f) => {
                keys.push(ItemKey::folder(f.folder.id));
                proof {
                    assert(decreases_to!(items@ => items@[i as int]));
                }
                collect_descendants_items(&f.children, keys);
            },
            TreeItem::Request(r) => {
                keys.push(ItemKey::request(r.id));
            },
        }
        proof {
            let rest = items@.skip(i as int);
            assert(descendants(rest) == (match rest[0] {
                TreeItem::Folder(f) => seq![
                    ItemKey { kind: ItemKind::Folder, id: Some(ItemId::Folder(f.folder.id)) },
                ] + descendants(f.children@),
                TreeItem::Request(r) => seq![
                    ItemKey { kind: ItemKind::Request, id: Some(ItemId::Request(r.id)) },
                ],
            }) + descendants(items@.skip(i + 1)));
            assert(keys@ + descendants(items@.skip(i + 1)) =~= before + descendants(rest));
        }
        i = i + 1;
    }
    proof {
        assert(items@.skip(items@.len() as int) =~= Seq::<TreeItem>::empty());
        assert(keys@ =~= keys@ + descendants(Seq::<TreeItem>::empty()));
    }
}

impl TreeItem {
    fn request_count(&self) -> (r: usize)
        requires
            items_request_count(seq![*self]) <= usize::MAX,
        ensures
            r == items_request_count(seq![*self]),
    {
        proof {
            assert(seq![*self].drop_first() =~= Seq::<TreeItem>::empty());
            assert(items_request_count(Seq::<TreeItem>::empty()) == 0);
            assert(seq![*self][0] == *self);
        }
        match self {
            TreeItem::Folder(folder) => folder.request_count(),
            TreeItem::Request(_) => 1,
        }
    }
}

impl FolderTree {
    /// The number of requests in this folder and its subfolders.
    pub fn request_count(&self) -> (r: usize)
        requires
            items_request_count(self.children@) <= usize::MAX,
        ensures
            r == items_request_count(self.children@),
    {
        count_items(&self.children)
    }

    fn find_folder_tree(&self, id: FolderId) -> (r: Option<&FolderTree>)
        ensures
            r.is_some() == find_folder_in_items(self.children@, id).is_some(),
            r matches Some(f) ==> *f == find_folder_in_items(self.children@, id)->0,
    {
        find_folder_items(&self.children, id)
    }

    fn find_request(&self, id: RequestId) -> (r: Option<&RequestItem>)
        ensures
            r.is_some() == find_request_in_items(self.children@, id).is_some(),
            r matches Some(q) ==> *q == find_request_in_items(self.children@, id)->0,
    {
        find_request_items(&self.children, id)
    }

    fn collect_descendants(&self, keys: &mut Vec<ItemKey>)
        ensures
            final(keys)@ == old(keys)@ + descendants(self.children@),
    {
        collect_descendants_items(&self.children, keys)
    }
}

impl CollectionTree {
    /// The number of requests in the collection.
    pub fn request_count(&self) -> (r: usize)
        requires
            items_request_count(self.children@) <= usize::MAX,
        ensures
            r == items_request_count(self.children@),
    {
        count_items(&self.children)
    }

    /// The first folder with the given id, anywhere in the collection.
    pub fn find_folder_tree(&self, id: FolderId) -> (r: Option<&FolderTree>)
        ensures
            r.is_some() == find_folder_in_items(self.children@, id).is_some(),
            r matches Some(f) ==> *f == find_folder_in_items(self.children@, id)->0,
    {
        find_folder_items(&self.children, id)
    }

    /// The first request with the given id, anywhere in the collection.
    pub fn find_request(&self, id: RequestId) -> (r: Option<&RequestItem>)
        ensures
            r.is_some() == find_request_in_items(self.children@, id).is_some(),
            r matches Some(q) ==> *q == find_request_in_items(self.children@, id)->0,
    {
        find_request_items(&self.children, id)
    }

    fn collect_descendants(&self, keys: &mut Vec<ItemKey>)
        ensures
            final(keys)@ == old(keys)@ + descendants(self.children@),
    {
        collect_descendants_items(&self.children, keys)
    }
}

pub open spec fn find_workspace_in(v: Seq<Workspace>, id: WorkspaceId) -> Option<Workspace>
    decreases v.len(),
{
    if v.len() == 0 {
        None
    } else if v[0].id == id {
        Some(v[0])
    } else {
        find_workspace_in(v.drop_first(), id)
    }
}

pub open spec fn find_collection_in(v: Seq<CollectionTree>, id: CollectionId) -> Option<CollectionTree>
    decreases v.len(),
{
    if v.len() == 0 {
        None
    } else if v[0].collection.id == id {
        Some(v[0])
    } else {
        find_collection_in(v.drop_first(), id)
    }
}

pub open spec fn find_environment_in(v: Seq<Environment>, id: EnvironmentId) -> Option<Environment>
    decreases v.len(),
{
    if v.len() == 0 {
        None
    } else if v[0].id == id {
        Some(v[0])
    } else {
        find_environment_in(v.drop_first(), id)
    }
}

/// The first collection holding a folder with the id, and that folder.
pub open spec fn folder_in_collections(v: Seq<CollectionTree>, id: FolderId) -> Option<(CollectionTree, FolderTree)>
    decreases v.len(),
{
    if v.len() == 0 {
        None
    } else {
        match find_folder_in_items(v[0].children@, id) {
            Some(f) => Some((v[0], f)),
            None => folder_in_collections(v.drop_first(), id),
        }
    }
}

/// The first collection holding a request with the id, and that request.
pub open spec fn request_in_collections(v: Seq<CollectionTree>, id: RequestId) -> Option<(CollectionTree, RequestItem)>
    decreases v.len(),
{
    if v.len() == 0 {
        None
    } else {
        match find_request_in_items(v[0].children@, id) {
            Some(r) => Some((v[0], r)),
            None => request_in_collections(v.drop_first(), id),
        }
    }
}

/// The first collection holding a request with the id, and the trailing
/// breadcrumb segments of that request.
pub open spec fn request_crumbs_in_collections(v: Seq<CollectionTree>, id: RequestId) -> Option<(CollectionTree, Seq<Seq<char>>)>
    decreases v.len(),
{
    if v.len() == 0 {
        None
    } else {
        match request_crumbs_in_items(v[0].children@, id, None) {
            Some(c) => Some((v[0], c)),
            None => request_crumbs_in_collections(v.drop_first(), id),
        }
    }
}

/// The stored name of the item a key names, looked up as the title of its
/// tab: workspaces among all workspaces, the rest in the selected one.
pub open spec fn item_name(c: WorkspaceCatalog, item: ItemKey) -> Option<Seq<char>> {
    match (item.kind, item.id) {
        (ItemKind::Workspace, Some(ItemId::Workspace(id))) => match find_workspace_in(c.workspaces@, id) {
            Some(w) => Some(w.name@),
            None => None,
        },
        (ItemKind::Collection, Some(ItemId::Collection(id))) => match c.selected_workspace {
            Some(ws) => match find_collection_in(ws.collections@, id) {
                Some(col) => Some(col.collection.name@),
                None => None,
            },
            None => None,
        },
        (ItemKind::Folder, Some(ItemId::Folder(id))) => match c.selected_workspace {
            Some(ws) => match folder_in_collections(ws.collections@, id) {
                Some((_, f)) => Some(f.folder.name@),
                None => None,
            },
            None => None,
        },
        (ItemKind::Environment, Some(ItemId::Environment(id))) => match c.selected_workspace {
            Some(ws) => match find_environment_in(ws.environments@, id) {
                Some(e) => Some(e.name@),
                None => None,
            },
            None => None,
        },
        (ItemKind::Request, Some(ItemId::Request(id))) => match c.selected_workspace {
            Some(ws) => match request_in_collections(ws.collections@, id) {
                Some((_, r)) => Some(r.name@),
                None => None,
            },
            None => None,
        },
        _ => None,
    }
}

/// A key of a utility page, which always has a title.
/// The title of a tab: a stored name, or the key of a message that the
/// interface translates.
#[derive(Debug, Clone, PartialEq, Eq)]
pub enum ItemTitle {
    Name(String),
    MessageKey(String),
}

/// A title, with its text as characters.
pub enum ItemTitleView {
    Name(Seq<char>),
    MessageKey(Seq<char>),
}

impl View for ItemTitle {
    type V = ItemTitleView;

    open spec fn view(&self) -> ItemTitleView {
        match self {
            ItemTitle::Name(n) => ItemTitleView::Name(n@),
            ItemTitle::MessageKey(k) => ItemTitleView::MessageKey(k@),
        }
    }
}

pub open spec fn opt_title_view(t: Option<ItemTitle>) -> Option<ItemTitleView> {
    match t {
        Some(t) => Some(t@),
        None => None,
    }
}

/// The title of the tab of a key.
pub open spec fn title_spec(c: WorkspaceCatalog, item: ItemKey) -> Option<ItemTitleView> {
    match (item.kind, item.id) {
        (ItemKind::Settings, None) => Some(ItemTitleView::MessageKey("tab_kind_settings"@)),
        (ItemKind::About, None) => Some(ItemTitleView::MessageKey("tab_kind_about"@)),
        _ => match item_name(c, item) {
            Some(n) => Some(ItemTitleView::Name(n)),
            None => None,
        },
    }
}

/// An icon of the sidebar and the tabs.
#[derive(Debug, Clone, Copy, PartialEq, Eq, Structural)]
pub enum ItemIcon {
    Inbox,
    BookOpen,
    Folder,
    Globe,
    File,
    Settings2,
    Info,
}

pub open spec fn icon_of_kind(kind: ItemKind) -> ItemIcon {
    match kind {
        ItemKind::Workspace => ItemIcon::Inbox,
        ItemKind::Collection => ItemIcon::BookOpen,
        ItemKind::Folder => ItemIcon::Folder,
        ItemKind::Environment => ItemIcon::Globe,
        ItemKind::Request => ItemIcon::File,
        ItemKind::Settings => ItemIcon::Settings2,
        ItemKind::About => ItemIcon::Info,
    }
}

pub open spec fn is_utility_key(item: ItemKey) -> bool {
    (item.kind == ItemKind::Settings || item.kind == ItemKind::About) && item.id.is_none()
}

/// The breadcrumb of an item: the workspace, collection, holding folder and
/// item names down to it; empty for utility pages and items not found.
pub open spec fn breadcrumb(c: WorkspaceCatalog, item: ItemKey) -> Seq<Seq<char>> {
    match (item.kind, item.id) {
        (ItemKind::Workspace, Some(ItemId::Workspace(id))) => match find_workspace_in(c.workspaces@, id) {
            Some(w) => seq![w.name@],
            None => Seq::empty(),
        },
        (ItemKind::Collection, Some(ItemId::Collection(id))) => match c.selected_workspace {
            Some(ws) => match find_collection_in(ws.collections@, id) {
                Some(col) => seq![ws.workspace.name@, col.collection.name@],
                None => Seq::empty(),
            },
            None => Seq::empty(),
        },
        (ItemKind::Folder, Some(ItemId::Folder(id))) => match c.selected_workspace {
            Some(ws) => match folder_in_collections(ws.collections@, id) {
                Some((col, f)) => seq![ws.workspace.name@, col.collection.name@, f.folder.name@],
                None => Seq::empty(),
            },
            None => Seq::empty(),
        },
        (ItemKind::Request, Some(ItemId::Request(id))) => match c.selected_workspace {
            Some(ws) => match request_crumbs_in_collections(ws.collections@, id) {
                Some((col, crumbs)) => seq![ws.workspace.name@, col.collection.name@] + crumbs,
                None => Seq::empty(),
            },
            None => Seq::empty(),
        },
        (ItemKind::Environment, Some(ItemId::Environment(id))) => match c.selected_workspace {
            Some(ws) => match find_environment_in(ws.environments@, id) {
                Some(e) => seq![ws.workspace.name@, e.name@],
                None => Seq::empty(),
            },
            None => Seq::empty(),
        },
        _ => Seq::empty(),
    }
}

/// The keys that deleting an item takes with it: the item itself, then,
/// for the selected workspace, its collections with their contents and its
/// environments; for a collection or folder of it, everything below.
pub open spec fn delete_closure_spec(c: WorkspaceCatalog, item: ItemKey) -> Seq<ItemKey> {
    seq![item] + match c.selected_workspace {
        None => Seq::empty(),
        Some(ws) => match (item.kind, item.id) {
            (ItemKind::Workspace, Some(ItemId::Workspace(id))) => if ws.workspace.id == id {
                collections_closure(ws.collections@) + environment_keys(ws.environments@)
            } else {
                Seq::empty()
            },
            (ItemKind::Collection, Some(ItemId::Collection(id))) => match find_collection_in(
                ws.collections@,
                id,
            ) {
                Some(col) => descendants(col.children@),
                None => Seq::empty(),
            },
            (ItemKind::Folder, Some(ItemId::Folder(id))) => match folder_in_collections(
                ws.collections@,
                id,
            ) {
                Some((_, f)) => descendants(f.children@),
                None => Seq::empty(),
            },
            _ => Seq::empty(),
        },
    }
}

/// Each collection's key followed by the keys of its contents.
pub open spec fn collections_closure(v: Seq<CollectionTree>) -> Seq<ItemKey>
    decreases v.len(),
{
    if v.len() == 0 {
        Seq::empty()
    } else {
        seq![ItemKey { kind: ItemKind::Collection, id: Some(ItemId::Collection(v[0].collection.id)) }]
            + descendants(v[0].children@) + collections_closure(v.drop_first())
    }
}

pub open spec fn environment_keys(v: Seq<Environment>) -> Seq<ItemKey>
    decreases v.len(),
{
    if v.len() == 0 {
        Seq::empty()
    } else {
        seq![ItemKey { kind: ItemKind::Environment, id: Some(ItemId::Environment(v[0].id)) }]
            + environment_keys(v.drop_first())
    }
}

fn find_workspace(v: &Vec<Workspace>, id: WorkspaceId) -> (r: Option<&Workspace>)
    ensures
        r.is_some() == find_workspace_in(v@, id).is_some(),
        r matches Some(w) ==> *w == find_workspace_in(v@, id)->0,
{
    let mut i: usize = 0;
    proof {
        assert(v@.skip(0) =~= v@);
    }
    while i < v.len()
        invariant
            i <= v.len(),
            find_workspace_in(v@, id) == find_workspace_in(v@.skip(i as int), id),
        decreases v.len() - i,
    {
        proof {
            assert(v@.skip(i as int).drop_first() =~= v@.skip(i + 1));
            assert(v@.skip(i as int)[0] == v@[i as int]);
        }
        if v[i].id == id {
            return Some(&v[i]);
        }
        i = i + 1;
    }
    proof {
        assert(v@.skip(i as int) =~= Seq::<Workspace>::empty());
    }
    None
}

fn find_collection_tree(v: &Vec<CollectionTree>, id: CollectionId) -> (r: Option<&CollectionTree>)
    ensures
        r.is_some() == find_collection_in(v@, id).is_some(),
        r matches Some(c) ==> *c == find_collection_in(v@, id)->0,
{
    let mut i: usize = 0;
    proof {
        assert(v@.skip(0) =~= v@);
    }
    while i < v.len()
        invariant
            i <= v.len(),
            find_collection_in(v@, id) == find_collection_in(v@.skip(i as int), id),
        decreases v.len() - i,
    {
        proof {
            assert(v@.skip(i as int).drop_first() =~= v@.skip(i + 1));
            assert(v@.skip(i as int)[0] == v@[i as int]);
        }
        if v[i].collection.id == id {
            return Some(&v[i]);
        }
        i = i + 1;
    }
    proof {
        assert(v@.skip(i as int) =~= Seq::<CollectionTree>::empty());
    }
    None
}

fn find_environment_entry(v: &Vec<Environment>, id: EnvironmentId) -> (r: Option<&Environment>)
    ensures
        r.is_some() == find_environment_in(v@, id).is_some(),
        r matches Some(e) ==> *e == find_environment_in(v@, id)->0,
{
    let mut i: usize = 0;
    proof {
        assert(v@.skip(0) =~= v@);
    }
    while i < v.len()
        invariant
            i <= v.len(),
            find_environment_in(v@, id) == find_environment_in(v@.skip(i as int), id),
        decreases v.len() - i,
    {
        proof {
            assert(v@.skip(i as int).drop_first() =~= v@.skip(i + 1));
            assert(v@.skip(i as int)[0] == v@[i as int]);
        }
        if v[i].id == id {
            return Some(&v[i]);
        }
        i = i + 1;
    }
    proof {
        assert(v@.skip(i as int) =~= Seq::<Environment>::empty());
    }
    None
}

fn folder_in_collections_exec(v: &Vec<CollectionTree>, id: FolderId) -> (r: Option<(&CollectionTree, &FolderTree)>)
    ensures
        r.is_some() == folder_in_collections(v@, id).is_some(),
        r matches Some(p) ==> *p.0 == folder_in_collections(v@, id).unwrap().0 && *p.1
            == folder_in_collections(v@, id).unwrap().1,
{
    let mut i: usize = 0;
    proof {
        assert(v@.skip(0) =~= v@);
    }
    while i < v.len()
        invariant
            i <= v.len(),
            folder_in_collections(v@, id) == folder_in_collections(v@.skip(i as int), id),
        decreases v.len() - i,
    {
        proof {
            assert(v@.skip(i as int).drop_first() =~= v@.skip(i + 1));
            assert(v@.skip(i as int)[0] == v@[i as int]);
        }
        if let Some(f) = v[i].find_folder_tree(id) {
            return Some((&v[i], f));
        }
        i = i + 1;
    }
    proof {
        assert(v@.skip(i as int) =~= Seq::<CollectionTree>::empty());
    }
    None
}

fn request_in_collections_exec(v: &Vec<CollectionTree>, id: RequestId) -> (r: Option<&RequestItem>)
    ensures
        r.is_some() == request_in_collections(v@, id).is_some(),
        r matches Some(q) ==> *q == request_in_collections(v@, id).unwrap().1,
{
    let mut i: usize = 0;
    proof {
        assert(v@.skip(0) =~= v@);
    }
    while i < v.len()
        invariant
            i <= v.len(),
            request_in_collections(v@, id) == request_in_collections(v@.skip(i as int), id),
        decreases v.len() - i,
    {
        proof {
            assert(v@.skip(i as int).drop_first() =~= v@.skip(i + 1));
            assert(v@.skip(i as int)[0] == v@[i as int]);
        }
        if let Some(r) = v[i].find_request(id) {
            return Some(r);
        }
        i = i + 1;
    }
    proof {
        assert(v@.skip(i as int) =~= Seq::<CollectionTree>::empty());
    }
    None
}

pub open spec fn strings_view(v: Seq<String>) -> Seq<Seq<char>> {
    v.map_values(|s: String| s@)
}

pub open spec fn opt_string_view(o: Option<&String>) -> Option<Seq<char>> {
    match o {
        Some(s) => Some(s@),
        None => None,
    }
}

fn crumbs_items(items: &Vec<TreeItem>, id: RequestId, holder: Option<&String>) -> (r: Option<Vec<String>>)
    ensures
        r.is_some() == request_crumbs_in_items(items@, id, opt_string_view(holder)).is_some(),
        r matches Some(v) ==> strings_view(v@) == request_crumbs_in_items(items@, id, opt_string_view(holder))->0,
    decreases items@,
{
    let ghost h = opt_string_view(holder);
    let mut i: usize = 0;
    proof {
        assert(items@.skip(0) =~= items@);
    }
    while i < items.len()
        invariant
            i <= items.len(),
            h == opt_string_view(holder),
            request_crumbs_in_items(items@, id, h) == request_crumbs_in_items(items@.skip(i as int), id, h),
        decreases items.len() - i,
    {
        proof {
            assert(items@.skip(i as int).drop_first() =~= items@.skip(i + 1));
            assert(items@.skip(i as int)[0] == items@[i as int]);
        }
        match &items[i] {
            TreeItem::Request(r) => {
                if r.id == id {
                    let mut out: Vec<String> = Vec::new();
                    match holder {
                        Some(name) => {
                            out.push(name.clone());
                        },
                        None => {},
                    }
                    out.push(r.name.clone());
                    proof {
                        match holder {
                            Some(name) => {
                                assert(strings_view(out@) =~= seq![name@, r.name@]);
                            },
                            None => {
                                assert(strings_view(out@) =~= seq![r.name@]);
                            },
                        }
                    }
                    return Some(out);
                }
            },
            TreeItem::Folder(f) => {
                proof {
                    assert(decreases_to!(items@ => items@[i as int]));
                }
                let inner = crumbs_items(&f.children, id, Some(&f.folder.name));
                if inner.is_some() {
                    return inner;
                }
            },
        }
        i = i + 1;
    }
    proof {
        assert(items@.skip(i as int) =~= Seq::<TreeItem>::empty());
    }
    None
}

fn crumbs_in_collections_exec(v: &Vec<CollectionTree>, id: RequestId) -> (r: Option<(&CollectionTree, Vec<String>)>)
    ensures
        r.is_some() == request_crumbs_in_collections(v@, id).is_some(),
        r matches Some(p) ==> *p.0 == request_crumbs_in_collections(v@, id).unwrap().0 && strings_view(p.1@)
            == request_crumbs_in_collections(v@, id).unwrap().1,
{
    let mut i: usize = 0;
    proof {
        assert(v@.skip(0) =~= v@);
    }
    while i < v.len()
        invariant
            i <= v.len(),
            request_crumbs_in_collections(v@, id) == request_crumbs_in_collections(v@.skip(i as int), id),
        decreases v.len() - i,
    {
        proof {
            assert(v@.skip(i as int).drop_first() =~= v@.skip(i + 1));
            assert(v@.skip(i as int)[0] == v@[i as int]);
        }
        if let Some(c) = crumbs_items(&v[i].children, id, None) {
            return Some((&v[i], c));
        }
        i = i + 1;
    }
    proof {
        assert(v@.skip(i as int) =~= Seq::<CollectionTree>::empty());
    }
    None
}

impl WorkspaceCatalog {
    pub fn selected_workspace_id(&self) -> (r: Option<WorkspaceId>)
        ensures
            r == (match self.selected_workspace {
                Some(ws) => Some(ws.workspace.id),
                None => None,
            }),
    {
        match &self.selected_workspace {
            Some(ws) => Some(ws.workspace.id),
            None => None,
        }
    }

    pub fn first_workspace_id(&self) -> (r: Option<WorkspaceId>)
        ensures
            r == (if self.workspaces@.len() > 0 {
                Some(self.workspaces@[0].id)
            } else {
                None
            }),
    {
        if self.workspaces.len() > 0 {
            Some(self.workspaces[0].id)
        } else {
            None
        }
    }

    pub fn selected_workspace(&self) -> (r: Option<&WorkspaceTree>)
        ensures
            r.is_some() == self.selected_workspace.is_some(),
            r matches Some(w) ==> *w == self.selected_workspace->0,
    {
        self.selected_workspace.as_ref()
    }

    /// A collection of the selected workspace.
    pub fn find_collection(&self, id: CollectionId) -> (r: Option<&CollectionTree>)
        ensures
            match self.selected_workspace {
                Some(ws) => r.is_some() == find_collection_in(ws.collections@, id).is_some() && (r matches Some(
                    c,
                ) ==> *c == find_collection_in(ws.collections@, id)->0),
                None => r.is_none(),
            },
    {
        match &self.selected_workspace {
            Some(ws) => find_collection_tree(&ws.collections, id),
            None => None,
        }
    }

    /// An environment of the selected workspace.
    pub fn find_environment(&self, id: EnvironmentId) -> (r: Option<&Environment>)
        ensures
            match self.selected_workspace {
                Some(ws) => r.is_some() == find_environment_in(ws.environments@, id).is_some() && (r matches Some(
                    e,
                ) ==> *e == find_environment_in(ws.environments@, id)->0),
                None => r.is_none(),
            },
    {
        match &self.selected_workspace {
            Some(ws) => find_environment_entry(&ws.environments, id),
            None => None,
        }
    }

    /// The title of the tab of a key: the stored name of its item, or for a
    /// utility page the key of its translated label; `None` for items that
    /// are not in the catalog.
    pub fn find_title(&self, item: ItemKey) -> (r: Option<ItemTitle>)
        ensures
            opt_title_view(r) == title_spec(*self, item),
    {
        match (item.kind, item.id) {
            (ItemKind::Settings, None) => Some(ItemTitle::MessageKey(owned("tab_kind_settings"))),
            (ItemKind::About, None) => Some(ItemTitle::MessageKey(owned("tab_kind_about"))),
            (ItemKind::Workspace, Some(ItemId::Workspace(id))) => match find_workspace(&self.workspaces, id) {
                Some(w) => Some(ItemTitle::Name(w.name.clone())),
                None => None,
            },
            (ItemKind::Collection, Some(ItemId::Collection(id))) => match self.find_collection(id) {
                Some(c) => Some(ItemTitle::Name(c.collection.name.clone())),
                None => None,
            },
            (ItemKind::Folder, Some(ItemId::Folder(id))) => match &self.selected_workspace {
                Some(ws) => match folder_in_collections_exec(&ws.collections, id) {
                    Some((_, f)) => Some(ItemTitle::Name(f.folder.name.clone())),
                    None => None,
                },
                None => None,
            },
            (ItemKind::Environment, Some(ItemId::Environment(id))) => match self.find_environment(id) {
                Some(e) => Some(ItemTitle::Name(e.name.clone())),
                None => None,
            },
            (ItemKind::Request, Some(ItemId::Request(id))) => match &self.selected_workspace {
                Some(ws) => match request_in_collections_exec(&ws.collections, id) {
                    Some(r) => Some(ItemTitle::Name(r.name.clone())),
                    None => None,
                },
                None => None,
            },
            _ => None,
        }
    }

    /// The icon of a key's kind.
    pub fn find_icon(&self, item: ItemKey) -> (r: ItemIcon)
        ensures
            r == icon_of_kind(item.kind),
    {
        match item.kind {
            ItemKind::Workspace => ItemIcon::Inbox,
            ItemKind::Collection => ItemIcon::BookOpen,
            ItemKind::Folder => ItemIcon::Folder,
            ItemKind::Environment => ItemIcon::Globe,
            ItemKind::Request => ItemIcon::File,
            ItemKind::Settings => ItemIcon::Settings2,
            ItemKind::About => ItemIcon::Info,
        }
    }

    /// Whether a tab for the key can be shown: a utility page, or an item
    /// that the catalog holds.
    pub fn contains(&self, item: ItemKey) -> (r: bool)
        ensures
            r == (is_utility_key(item) || item_name(*self, item).is_some()),
    {
        self.find_title(item).is_some()
    }

    /// The names from the workspace down to the item.
    pub fn find_breadcrumb_path(&self, item: ItemKey) -> (r: Vec<String>)
        ensures
            strings_view(r@) == breadcrumb(*self, item),
    {
        let mut out: Vec<String> = Vec::new();
        match (item.kind, item.id) {
            (ItemKind::Workspace, Some(ItemId::Workspace(id))) => {
                if let Some(w) = find_workspace(&self.workspaces, id) {
                    out.push(w.name.clone());
                }
            },
            (ItemKind::Collection, Some(ItemId::Collection(id))) => {
                if let Some(ws) = &self.selected_workspace {
                    if let Some(c) = find_collection_tree(&ws.collections, id) {
                        out.push(ws.workspace.name.clone());
                        out.push(c.collection.name.clone());
                    }
                }
            },
            (ItemKind::Folder, Some(ItemId::Folder(id))) => {
                if let Some(ws) = &self.selected_workspace {
                    if let Some((c, f)) = folder_in_collections_exec(&ws.collections, id) {
                        out.push(ws.workspace.name.clone());
                        out.push(c.collection.name.clone());
                        out.push(f.folder.name.clone());
                    }
                }
            },
            (ItemKind::Request, Some(ItemId::Request(id))) => {
                if let Some(ws) = &self.selected_workspace {
                    if let Some((c, crumbs)) = crumbs_in_collections_exec(&ws.collections, id) {
                        out.push(ws.workspace.name.clone());
                        out.push(c.collection.name.clone());
                        let mut k: usize = 0;
                        while k < crumbs.len()
                            invariant
                                k <= crumbs.len(),
                                strings_view(out@) == seq![ws.workspace.name@, c.collection.name@]
                                    + strings_view(crumbs@.subrange(0, k as int)),
                            decreases crumbs.len() - k,
                        {
                            let ghost before = out@;
                            let piece = crumbs[k].clone();
                            out.push(piece);
                            proof {
                                assert(out@ =~= before.push(piece));
                                assert(strings_view(out@) =~= strings_view(before).push(piece@));
                                assert(strings_view(crumbs@.subrange(0, k + 1)) =~= strings_view(
                                    crumbs@.subrange(0, k as int),
                                ).push(crumbs@[k as int]@));
                                assert(strings_view(out@) =~= seq![ws.workspace.name@, c.collection.name@]
                                    + strings_view(crumbs@.subrange(0, k + 1)));
                            }
                            k = k + 1;
                        }
                        proof {
                            assert(crumbs@.subrange(0, crumbs@.len() as int) =~= crumbs@);
                        }
                    }
                }
            },
            (ItemKind::Environment, Some(ItemId::Environment(id))) => {
                if let Some(ws) = &self.selected_workspace {
                    if let Some(e) = find_environment_entry(&ws.environments, id) {
                        out.push(ws.workspace.name.clone());
                        out.push(e.name.clone());
                    }
                }
            },
            _ => {},
        }
        proof {
            assert(strings_view(out@) =~= breadcrumb(*self, item));
        }
        out
    }

    /// The HTTP method of a request of the selected workspace.
    pub fn find_request_method(&self, id: RequestId) -> (r: Option<String>)
        ensures
            match self.selected_workspace {
                Some(ws) => r.is_some() == request_in_collections(ws.collections@, id).is_some() && (r matches Some(
                    m,
                ) ==> m@ == request_in_collections(ws.collections@, id).unwrap().1.method@),
                None => r.is_none(),
            },
    {
        match &self.selected_workspace {
            Some(ws) => match request_in_collections_exec(&ws.collections, id) {
                Some(r) => Some(r.method.clone()),
                None => None,
            },
            None => None,
        }
    }

    /// The keys removed with an item.
    pub fn delete_closure(&self, item: ItemKey) -> (r: Vec<ItemKey>)
        ensures
            r@ == delete_closure_spec(*self, item),
    {
        let mut keys: Vec<ItemKey> = Vec::new();
        keys.push(item);
        if let Some(workspace) = &self.selected_workspace {
            match (item.kind, item.id) {
                (ItemKind::Workspace, Some(ItemId::Workspace(id))) => {
                    if workspace.workspace.id == id {
                        let cols = &workspace.collections;
                        let mut i: usize = 0;
                        proof {
                            assert(cols@.skip(0) =~= cols@);
                        }
                        while i < cols.len()
                            invariant
                                i <= cols.len(),
                                keys@ + collections_closure(cols@.skip(i as int)) == seq![item]
                                    + collections_closure(cols@),
                            decreases cols.len() - i,
                        {
                            let ghost before = keys@;
                            proof {
                                assert(cols@.skip(i as int).drop_first() =~= cols@.skip(i + 1));
                                assert(cols@.skip(i as int)[0] == cols@[i as int]);
                            }
                            keys.push(ItemKey::collection(cols[i].collection.id));
                            cols[i].collect_descendants(&mut keys);
                            proof {
                                assert(keys@ + collections_closure(cols@.skip(i + 1)) =~= before
                                    + collections_closure(cols@.skip(i as int)));
                            }
                            i = i + 1;
                        }
                        proof {
                            assert(cols@.skip(i as int) =~= Seq::<CollectionTree>::empty());
                            assert(keys@ =~= seq![item] + collections_closure(cols@));
                        }
                        let envs = &workspace.environments;
                        let ghost mid = keys@;
                        let mut k: usize = 0;
                        proof {
                            assert(envs@.skip(0) =~= envs@);
                        }
                        while k < envs.len()
                            invariant
                                k <= envs.len(),
                                keys@ + environment_keys(envs@.skip(k as int)) == mid
                                    + environment_keys(envs@),
                            decreases envs.len() - k,
                        {
                            let ghost before = keys@;
                            proof {
                                assert(envs@.skip(k as int).drop_first() =~= envs@.skip(k + 1));
                                assert(envs@.skip(k as int)[0] == envs@[k as int]);
                            }
                            keys.push(ItemKey::environment(envs[k].id));
                            proof {
                                assert(keys@ + environment_keys(envs@.skip(k + 1)) =~= before
                                    + environment_keys(envs@.skip(k as int)));
                            }
                            k = k + 1;
                        }
                        proof {
                            assert(envs@.skip(k as int) =~= Seq::<Environment>::empty());
                            assert(keys@ =~= seq![item] + (collections_closure(cols@) + environment_keys(envs@)));
                        }
                    }
                },
                (ItemKind::Collection, Some(ItemId::Collection(id))) => {
                    if let Some(collection) = find_collection_tree(&workspace.collections, id) {
                        collection.collect_descendants(&mut keys);
                    }
                },
                (ItemKind::Folder, Some(ItemId::Folder(id))) => {
                    if let Some((_, folder)) = folder_in_collections_exec(&workspace.collections, id) {
                        folder.collect_descendants(&mut keys);
                    }
                },
                _ => {},
            }
        }
        proof {
            assert(keys@ =~= delete_closure_spec(*self, item));
        }
        keys
    }
}

/// The key of a request.
pub open spec fn request_key(id: RequestId) -> ItemKey {
    ItemKey { kind: ItemKind::Request, id: Some(ItemId::Request(id)) }
}

/// The key of a folder.
pub open spec fn folder_key(id: FolderId) -> ItemKey {
    ItemKey { kind: ItemKind::Folder, id: Some(ItemId::Folder(id)) }
}

proof fn lemma_contains_concat(a: Seq<ItemKey>, b: Seq<ItemKey>, k: ItemKey)
    requires
        a.contains(k) || b.contains(k),
    ensures
        (a + b).contains(k),
{
    if a.contains(k) {
        let j = choose|j: int| 0 <= j < a.len() && a[j] == k;
        assert((a + b)[j] == k);
    } else {
        let j = choose|j: int| 0 <= j < b.len() && b[j] == k;
        assert((a + b)[a.len() + j] == k);
    }
}

/// A request found anywhere in a tree is among the tree's descendants.
proof fn lemma_request_in_descendants(items: Seq<TreeItem>, rid: RequestId)
    requires
        find_request_in_items(items, rid) is Some,
    ensures
        descendants(items).contains(request_key(rid)),
    decreases items,
{
    if items.len() > 0 {
        let rest = items.drop_first();
        match items[0] {
            TreeItem::Folder(f) => {
                let head = seq![folder_key(f.folder.id)];
                if find_request_in_items(f.children@, rid) is Some {
                    lemma_request_in_descendants(f.children@, rid);
                    lemma_contains_concat(head, descendants(f.children@), request_key(rid));
                    lemma_contains_concat(head + descendants(f.children@), descendants(rest), request_key(rid));
                } else {
                    lemma_request_in_descendants(rest, rid);
                    lemma_contains_concat(head + descendants(f.children@), descendants(rest), request_key(rid));
                }
            },
            TreeItem::Request(r) => {
                let head = seq![request_key(r.id)];
                if r.id == rid {
                    assert(head[0] == request_key(rid));
                } else {
                    lemma_request_in_descendants(rest, rid);
                }
                lemma_contains_concat(head, descendants(rest), request_key(rid));
            },
        }
    }
}

/// A folder found anywhere in a tree is among the tree's descendants, and
/// so is everything found below it.
proof fn lemma_folder_in_descendants(items: Seq<TreeItem>, fid: FolderId)
    requires
        find_folder_in_items(items, fid) is Some,
    ensures
        descendants(items).contains(folder_key(fid)),
    decreases items,
{
    if items.len() > 0 {
        let rest = items.drop_first();
        match items[0] {
            TreeItem::Folder(f) => {
                let head = seq![folder_key(f.folder.id)];
                if f.folder.id == fid {
                    assert(head[0] == folder_key(fid));
                    lemma_contains_concat(head, descendants(f.children@), folder_key(fid));
                } else if find_folder_in_items(f.children@, fid) is Some {
                    lemma_folder_in_descendants(f.children@, fid);
                    lemma_contains_concat(head, descendants(f.children@), folder_key(fid));
                } else {
                    lemma_folder_in_descendants(rest, fid);
                }
                lemma_contains_concat(head + descendants(f.children@), descendants(rest), folder_key(fid));
            },
            TreeItem::Request(r) => {
                lemma_folder_in_descendants(rest, fid);
                lemma_contains_concat(seq![request_key(r.id)], descendants(rest), folder_key(fid));
            },
        }
    }
}

proof fn lemma_find_collection_at(v: Seq<CollectionTree>, k: int)
    requires
        0 <= k < v.len(),
        forall|j: int| 0 <= j < k ==> v[j].collection.id != v[k].collection.id,
    ensures
        find_collection_in(v, v[k].collection.id) == Some(v[k]),
    decreases k,
{
    if k > 0 {
        let rest = v.drop_first();
        assert forall|j: int| 0 <= j < k - 1 implies (#[trigger] rest[j]).collection.id != rest[k - 1].collection.id by {
            assert(rest[j] == v[j + 1]);
        }
        lemma_find_collection_at(rest, k - 1);
        assert(rest[k - 1] == v[k]);
    }
}

/// Deleting a collection of the selected workspace takes with it every
/// folder and every request in its tree (and the collection itself).
pub proof fn law_delete_collection_takes_its_contents(
    c: WorkspaceCatalog,
    k: int,
    fid: FolderId,
    rid: RequestId,
)
    requires
        c.selected_workspace is Some,
        0 <= k < c.selected_workspace->0.collections@.len(),
        forall|j: int|
            0 <= j < k ==> c.selected_workspace->0.collections@[j].collection.id
                != c.selected_workspace->0.collections@[k].collection.id,
    ensures
        ({
            let col = c.selected_workspace->0.collections@[k];
            let key = ItemKey {
                kind: ItemKind::Collection,
                id: Some(ItemId::Collection(col.collection.id)),
            };
            let closure = delete_closure_spec(c, key);
            &&& closure.contains(key)
            &&& find_request_in_items(col.children@, rid) is Some ==> closure.contains(request_key(rid))
            &&& find_folder_in_items(col.children@, fid) is Some ==> closure.contains(folder_key(fid))
        }),
{
    let ws = c.selected_workspace->0;
    let col = ws.collections@[k];
    let key = ItemKey { kind: ItemKind::Collection, id: Some(ItemId::Collection(col.collection.id)) };
    lemma_find_collection_at(ws.collections@, k);
    let below = descendants(col.children@);
    assert(delete_closure_spec(c, key) == seq![key] + below);
    assert(seq![key][0] == key);
    lemma_contains_concat(seq![key], below, key);
    if find_request_in_items(col.children@, rid) is Some {
        lemma_request_in_descendants(col.children@, rid);
        lemma_contains_concat(seq![key], below, request_key(rid));
    }
    if find_folder_in_items(col.children@, fid) is Some {
        lemma_folder_in_descendants(col.children@, fid);
        lemma_contains_concat(seq![key], below, folder_key(fid));
    }
}

} // verus!
