//! Keys that name an item of the workspace tree or a utility page, and the
//! tab keys derived from them.
use vstd::prelude::*;

use crate::ids::{CollectionId, EnvironmentId, FolderId, ItemId, RequestId, WorkspaceId};

verus! {

/// The kind of item that a tab or a sidebar entry stands for.
#[derive(Debug, Clone, Copy, PartialEq, Eq, Hash, Structural)]
pub enum ItemKind {
    Workspace,
    Collection,
    Folder,
    Environment,
    Request,
    Settings,
    About,
}

/// Kinds that are stored in the database and therefore carry an id.
pub open spec fn kind_is_persisted(kind: ItemKind) -> bool {
    match kind {
        ItemKind::Workspace | ItemKind::Collection | ItemKind::Folder
        | ItemKind::Environment | ItemKind::Request => true,
        ItemKind::Settings | ItemKind::About => false,
    }
}

impl ItemKind {
    pub fn is_persisted(self) -> (r: bool)
        ensures
            r == kind_is_persisted(self),
    {
        match self {
            ItemKind::Workspace | ItemKind::Collection | ItemKind::Folder
            | ItemKind::Environment | ItemKind::Request => true,
            ItemKind::Settings | ItemKind::About => false,
        }
    }
}

/// A key for an item: its kind and, for stored kinds, its id.
#[derive(Debug, Clone, Copy, PartialEq, Eq, Hash, Structural)]
pub struct ItemKey {
    pub kind: ItemKind,
    pub id: Option<ItemId>,
}

/// A key is well formed when exactly the stored kinds carry an id, and that
/// id is of the key's own kind.
pub open spec fn item_key_wf(key: ItemKey) -> bool {
    match (key.kind, key.id) {
        (ItemKind::Workspace, Some(ItemId::Workspace(_))) => true,
        (ItemKind::Collection, Some(ItemId::Collection(_))) => true,
        (ItemKind::Folder, Some(ItemId::Folder(_))) => true,
        (ItemKind::Environment, Some(ItemId::Environment(_))) => true,
        (ItemKind::Request, Some(ItemId::Request(_))) => true,
        (ItemKind::Settings, None) => true,
        (ItemKind::About, None) => true,
        _ => false,
    }
}

impl ItemKey {
    /// A key from its parts; a stored kind must come with an id and a utility
    /// kind without one.
    pub fn new(kind: ItemKind, id: Option<ItemId>) -> (r: Self)
        requires
            kind_is_persisted(kind) == id.is_some(),
        ensures
            r.kind == kind,
            r.id == id,
    {
        ItemKey { kind, id }
    }

    pub fn workspace(id: WorkspaceId) -> (r: Self)
        ensures
            r == (ItemKey { kind: ItemKind::Workspace, id: Some(ItemId::Workspace(id)) }),
            item_key_wf(r),
    {
        Self::new(ItemKind::Workspace, Some(ItemId::Workspace(id)))
    }

    pub fn collection(id: CollectionId) -> (r: Self)
        ensures
            r == (ItemKey { kind: ItemKind::Collection, id: Some(ItemId::Collection(id)) }),
            item_key_wf(r),
    {
        Self::new(ItemKind::Collection, Some(ItemId::Collection(id)))
    }

    pub fn folder(id: FolderId) -> (r: Self)
        ensures
            r == (ItemKey { kind: ItemKind::Folder, id: Some(ItemId::Folder(id)) }),
            item_key_wf(r),
    {
        Self::new(ItemKind::Folder, Some(ItemId::Folder(id)))
    }

    pub fn environment(id: EnvironmentId) -> (r: Self)
        ensures
            r == (ItemKey { kind: ItemKind::Environment, id: Some(ItemId::Environment(id)) }),
            item_key_wf(r),
    {
        Self::new(ItemKind::Environment, Some(ItemId::Environment(id)))
    }

    pub fn request(id: RequestId) -> (r: Self)
        ensures
            r == (ItemKey { kind: ItemKind::Request, id: Some(ItemId::Request(id)) }),
            item_key_wf(r),
    {
        Self::new(ItemKind::Request, Some(ItemId::Request(id)))
    }

    pub fn settings() -> (r: Self)
        ensures
            r == (ItemKey { kind: ItemKind::Settings, id: None }),
            item_key_wf(r),
    {
        Self::new(ItemKind::Settings, None)
    }

    pub fn about() -> (r: Self)
        ensures
            r == (ItemKey { kind: ItemKind::About, id: None }),
            item_key_wf(r),
    {
        Self::new(ItemKind::About, None)
    }

    pub fn is_persisted(self) -> (r: bool)
        ensures
            r == kind_is_persisted(self.kind),
    {
        self.kind.is_persisted()
    }
}

/// The key of a tab: the key of the item that it shows.
#[derive(Debug, Clone, Copy, PartialEq, Eq, Hash, Structural)]
pub struct TabKey(pub ItemKey);

impl TabKey {
    pub fn new(item: ItemKey) -> (r: Self)
        ensures
            r.0 == item,
    {
        TabKey(item)
    }

    pub fn item(self) -> (r: ItemKey)
        ensures
            r == self.0,
    {
        self.0
    }
}

impl From<ItemKey> for TabKey {
    fn from(value: ItemKey) -> (r: Self) {
        TabKey::new(value)
    }
}

impl vstd::std_specs::convert::FromSpecImpl<ItemKey> for TabKey {
    open spec fn obeys_from_spec() -> bool {
        true
    }

    open spec fn from_spec(v: ItemKey) -> Self {
        TabKey(v)
    }
}

} // verus!
