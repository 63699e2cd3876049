//! Reopening the tabs of an earlier session: tabs whose items are gone are
//! dropped, and the workspace and environments to select are worked out
//! from what is left.
use vstd::prelude::*;

use crate::domain::{Collection, Environment, Folder, RequestItem};
use crate::ids::{CollectionId, EnvironmentId, ItemId, WorkspaceId};
use crate::item_key::{ItemKey, ItemKind, TabKey};
use crate::repos::{
    CollectionRepository, EnvironmentRepository, FolderRepository, RequestRepository,
    WorkspaceRepository,
};
use crate::sidebar::SidebarSection;
use crate::tab_manager::TabState;

verus! {

/// The id of one window's saved session.
#[derive(Debug, Clone, Copy, PartialEq, Eq, Hash, Structural)]
pub struct SessionId(pub u128);

/// The saved layout of a window: whether the sidebar is collapsed, its
/// width in pixels (the bits of the `f32` the window works with, carried
/// through unchanged) and the section it shows.
#[derive(Debug, Clone, Copy, PartialEq, Eq, Structural)]
pub struct WindowLayoutState {
    pub sidebar_collapsed: bool,
    pub sidebar_width_bits: u32,
    pub sidebar_section: SidebarSection,
}

/// A saved session: its tabs, the active one, the sidebar selection and
/// the window layout.
#[derive(Debug, Clone, PartialEq, Eq)]
pub struct TabSessionSnapshot {
    pub session_id: SessionId,
    pub tabs: Vec<TabState>,
    pub active: Option<TabKey>,
    pub sidebar_selection: Option<ItemKey>,
    pub window_layout: WindowLayoutState,
}

/// What a saved session kept of one workspace.
#[derive(Debug, Clone, PartialEq, Eq)]
pub struct WorkspaceSessionState {
    pub workspace_id: WorkspaceId,
    pub active_environment_id: Option<EnvironmentId>,
    pub expanded_items_json: String,
}

/// The saved sessions.
pub trait TabSessionRepository {
    fn list_sessions(&self) -> Result<Vec<TabSessionSnapshot>, anyhow::Error>;

    fn load_workspace_states(&self, session_id: SessionId) -> Result<
        Vec<WorkspaceSessionState>,
        anyhow::Error,
    >;
}

/// A session ready to be reopened.
#[derive(Debug, Clone, PartialEq, Eq)]
pub struct RestoredSessionState {
    pub tabs: Vec<TabState>,
    pub active: Option<TabKey>,
    pub selected_workspace_id: Option<WorkspaceId>,
    /// The active environment of each workspace, where it still belongs to
    /// that workspace.
    pub active_environments_by_workspace: Vec<(WorkspaceId, EnvironmentId)>,
    /// The saved expanded-items text of each workspace, as stored.
    pub expanded_items_json_by_workspace: Vec<(WorkspaceId, String)>,
    pub sidebar_selection: Option<ItemKey>,
    pub window_layout: WindowLayoutState,
}

/// Some tab in `tabs` has the key `key`.
pub open spec fn has_tab_key(tabs: Seq<TabState>, key: TabKey) -> bool {
    exists|i: int| 0 <= i < tabs.len() && tabs[i].key == key
}

/// The saved active tab, kept only when it is among the restored tabs.
pub fn restored_active(tabs: &[TabState], active: Option<TabKey>) -> (r: Option<TabKey>)
    ensures
        r == (match active {
            Some(key) => if has_tab_key(tabs@, key) {
                Some(key)
            } else {
                None
            },
            None => None,
        }),
{
    match active {
        None => None,
        Some(key) => {
            let mut i: usize = 0;
            while i < tabs.len()
                invariant
                    i <= tabs.len(),
                    active == Some(key),
                    forall|j: int| 0 <= j < i ==> tabs@[j].key != key,
                decreases tabs.len() - i,
            {
                if tabs[i].key == key {
                    proof {
                        assert(tabs@[i as int].key == key);
                    }
                    return Some(key);
                }
                i = i + 1;
            }
            None
        },
    }
}

/// Restores saved sessions one at a time, never the same session twice.
pub struct SessionRestoreService<T, W, C, F, Q, E> {
    tab_sessions: T,
    workspaces: W,
    collections: C,
    folders: F,
    requests: Q,
    environments: E,
    claimed_sessions: Vec<SessionId>,
}

impl<
    T: TabSessionRepository,
    W: WorkspaceRepository,
    C: CollectionRepository,
    F: FolderRepository,
    Q: RequestRepository,
    E: EnvironmentRepository,
> SessionRestoreService<T, W, C, F, Q, E> {
    /// The sessions already handed out (or found empty).
    pub closed spec fn claimed(&self) -> Seq<SessionId> {
        self.claimed_sessions@
    }

    pub fn new(
        tab_sessions: T,
        workspaces: W,
        collections: C,
        folders: F,
        requests: Q,
        environments: E,
    ) -> (r: Self)
        ensures
            r.claimed().len() == 0,
    {
        SessionRestoreService {
            tab_sessions,
            workspaces,
            collections,
            folders,
            requests,
            environments,
            claimed_sessions: Vec::new(),
        }
    }

    fn is_claimed(&self, id: SessionId) -> (r: bool)
        ensures
            r == self.claimed().contains(id),
    {
        let mut i: usize = 0;
        while i < self.claimed_sessions.len()
            invariant
                i <= self.claimed_sessions.len(),
                forall|j: int| 0 <= j < i ==> self.claimed_sessions@[j] != id,
            decreases self.claimed_sessions.len() - i,
        {
            if self.claimed_sessions[i] == id {
                return true;
            }
            i = i + 1;
        }
        false
    }

    /// Lists the saved sessions and restores the first one, in order, that
    /// has not been claimed yet and still has a tab to reopen; see
    /// `restore_from`.
    pub fn take_next_restore(&mut self) -> (r: Result<Option<RestoredSessionState>, anyhow::Error>)
        ensures
            (r is Err && final(self).claimed() == old(self).claimed()) || exists|
                listed: Seq<TabSessionSnapshot>,
            | restore_outcome(old(self).claimed(), final(self).claimed(), listed, r),
    {
        let snapshots = match self.tab_sessions.list_sessions() {
            Ok(s) => s,
            Err(e) => {
                return Err(e);
            },
        };
        let r = self.restore_from(&snapshots);
        proof {
            assert(restore_outcome(old(self).claimed(), self.claimed(), snapshots@, r));
        }
        r
    }

    /// Scans `snapshots` in order. A session already claimed is skipped;
    /// any other is claimed and restored, and the first that restores to a
    /// state is returned. `Ok(None)` once every listed session is claimed.
    pub fn restore_from(&mut self, snapshots: &Vec<TabSessionSnapshot>) -> (r: Result<
        Option<RestoredSessionState>,
        anyhow::Error,
    >)
        ensures
            restore_outcome(old(self).claimed(), final(self).claimed(), snapshots@, r),
    {
        let ghost before = self.claimed_sessions@;
        let mut i: usize = 0;
        while i < snapshots.len()
            invariant
                i <= snapshots.len(),
                before == old(self).claimed(),
                forall|id: SessionId| before.contains(id) ==> self.claimed().contains(id),
                forall|id: SessionId|
                    self.claimed().contains(id) ==> before.contains(id) || listed_before(
                        snapshots@,
                        id,
                        i as int,
                    ),
                forall|k: int| 0 <= k < i ==> self.claimed().contains(#[trigger] snapshots@[k].session_id),
                forall|k: int|
                    0 <= k < i && scanned(before, snapshots@, k) ==> restores_from_snapshot(
                        #[trigger] snapshots@[k],
                        None,
                    ),
                all_claimed(before, snapshots@) ==> self.claimed() == before,
            decreases snapshots.len() - i,
        {
            let id = snapshots[i].session_id;
            if !self.is_claimed(id) {
                proof {
                    assert(!before.contains(id));
                    assert forall|k: int| 0 <= k < i implies snapshots@[k].session_id != id by {
                        assert(self.claimed().contains(snapshots@[k].session_id));
                    }
                    assert(scanned(before, snapshots@, i as int));
                    assert(!all_claimed(before, snapshots@));
                }
                let ghost mid = self.claimed_sessions@;
                self.claimed_sessions.push(id);
                proof {
                    assert(self.claimed_sessions@ == mid.push(id));
                    assert forall|x: SessionId| mid.contains(x) implies self.claimed().contains(x) by {
                        let k = choose|k: int| 0 <= k < mid.len() && mid[k] == x;
                        assert(self.claimed_sessions@[k] == x);
                    }
                    assert(self.claimed_sessions@[mid.len() as int] == id);
                    assert forall|x: SessionId| self.claimed().contains(x) implies before.contains(x)
                        || listed_before(snapshots@, x, i + 1) by {
                        let k = choose|k: int|
                            0 <= k < self.claimed_sessions@.len() && self.claimed_sessions@[k] == x;
                        if k < mid.len() {
                            assert(mid[k] == x);
                            assert(mid.contains(x));
                            if !before.contains(x) {
                                let m = choose|m: int| 0 <= m < i && snapshots@[m].session_id == x;
                                assert(0 <= m < i + 1 && snapshots@[m].session_id == x);
                            }
                        } else {
                            assert(snapshots@[i as int].session_id == x);
                        }
                    }
                }
                proof {
                    assert forall|x: SessionId| self.claimed().contains(x) implies before.contains(x)
                        || listed_before(snapshots@, x, snapshots@.len() as int) by {
                        if !before.contains(x) {
                            lemma_listed_widen(snapshots@, x, i + 1, snapshots@.len() as int);
                        }
                    }
                    assert forall|k: int| 0 <= k <= i implies self.claimed().contains(
                        #[trigger] snapshots@[k].session_id,
                    ) by {
                        if k < i {
                            assert(mid.contains(snapshots@[k].session_id));
                        }
                    }
                }
                match self.restore_snapshot(&snapshots[i]) {
                    Err(e) => {
                        return Err(e);
                    },
                    Ok(Some(state)) => {
                        proof {
                            assert(restores_from_snapshot(snapshots@[i as int], Some(state)));
                            assert(scanned(before, snapshots@, i as int));
                            assert(restored_at(before, self.claimed(), snapshots@, i as int, state));
                        }
                        return Ok(Some(state));
                    },
                    Ok(None) => {
                        proof {
                            assert(restores_from_snapshot(snapshots@[i as int], None));
                        }
                    },
                }
            } else {
                proof {
                    assert(!scanned(before, snapshots@, i as int)) by {
                        if !before.contains(id) {
                            let m = choose|m: int| 0 <= m < i && snapshots@[m].session_id == id;
                            assert(snapshots@[m].session_id == snapshots@[i as int].session_id);
                        }
                    }
                    assert forall|x: SessionId| self.claimed().contains(x) implies before.contains(x)
                        || listed_before(snapshots@, x, i + 1) by {
                        if !before.contains(x) {
                            lemma_listed_widen(snapshots@, x, i as int, i + 1);
                        }
                    }
                }
            }
            i = i + 1;
        }
        Ok(None)
    }

    /// Reopens one saved session: the tabs whose items still exist, in
    /// order; the active tab if it is among them; the workspace of the
    /// active tab, else of the first tab that has one; the active
    /// environments that still exist in their workspace. `None` when no tab
    /// is left. Whether an item exists is the repositories' answer; the
    /// utility pages always exist and malformed keys never do.
    pub fn restore_snapshot(&self, snapshot: &TabSessionSnapshot) -> (r: Result<
        Option<RestoredSessionState>,
        anyhow::Error,
    >)
        ensures
            r matches Ok(res) ==> restores_from_snapshot(*snapshot, res),
            r matches Ok(Some(state)) ==> workspace_selected(state),
            r matches Ok(Some(state)) ==> environments_kept(state),
            (forall|i: int|
                0 <= i < snapshot.tabs@.len() ==> item_never_exists(
                    #[trigger] snapshot.tabs@[i].key.0,
                )) ==> r matches Ok(None),
    {
        let mut exists: Vec<bool> = Vec::new();
        let mut i: usize = 0;
        while i < snapshot.tabs.len()
            invariant
                i <= snapshot.tabs.len(),
                exists@.len() == i,
                existence_consistent(snapshot.tabs@.take(i as int), exists@),
            decreases snapshot.tabs.len() - i,
        {
            let tab = snapshot.tabs[i];
            match self.item_exists(tab.key.item()) {
                Err(e) => {
                    return Err(e);
                },
                Ok(b) => {
                    exists.push(b);
                },
            }
            proof {
                assert(snapshot.tabs@.take(i + 1).drop_last() =~= snapshot.tabs@.take(i as int));
                assert(exists@.drop_last() =~= exists@.take(i as int));
                assert forall|j: int| 0 <= j < i + 1 implies {
                    &&& item_always_exists(snapshot.tabs@.take(i + 1)[j].key.0) ==> exists@[j]
                    &&& item_never_exists(snapshot.tabs@.take(i + 1)[j].key.0) ==> !exists@[j]
                } by {
                    if j < i {
                        assert(snapshot.tabs@.take(i + 1)[j] == snapshot.tabs@.take(i as int)[j]);
                    }
                }
            }
            i = i + 1;
        }
        proof {
            assert(snapshot.tabs@.take(i as int) =~= snapshot.tabs@);
        }
        proof {
            assert(existence_consistent(snapshot.tabs@, exists@));
            if forall|j: int|
                0 <= j < snapshot.tabs@.len() ==> item_never_exists(
                    #[trigger] snapshot.tabs@[j].key.0,
                ) {
                assert forall|j: int| 0 <= j < snapshot.tabs@.len() implies !#[trigger] exists@[j] by {
                    assert(item_never_exists(snapshot.tabs@[j].key.0));
                }
                lemma_nothing_kept(snapshot.tabs@, exists@);
            }
        }
        let tabs = kept_tabs_of(&snapshot.tabs, exists.as_slice());
        if tabs.len() == 0 {
            proof {
                assert(restores_to(*snapshot, exists@, None));
            }
            return Ok(None);
        }
        let active = restored_active(tabs.as_slice(), snapshot.active);
        let mut selected_workspace_id: Option<WorkspaceId> = None;
        let ghost mut active_answer: Option<WorkspaceId> = None;
        if let Some(key) = active {
            match self.workspace_for_item(key.item()) {
                Err(e) => {
                    return Err(e);
                },
                Ok(w) => {
                    selected_workspace_id = w;
                    proof {
                        active_answer = w;
                    }
                },
            }
        }
        let ghost mut tab_answers: Seq<Option<WorkspaceId>> = Seq::empty();
        let mut k: usize = 0;
        while selected_workspace_id.is_none() && k < tabs.len()
            invariant
                k <= tabs.len(),
                !(forall|j: int|
                    0 <= j < snapshot.tabs@.len() ==> item_never_exists(
                        #[trigger] snapshot.tabs@[j].key.0,
                    )),
                active_answer_fits(active, active_answer),
                tab_answers.len() == k,
                forall|j: int|
                    0 <= j < k ==> workspace_answer_ok(tabs@[j].key.0, #[trigger] tab_answers[j]),
                selected_workspace_id == chosen_workspace(active, active_answer, tab_answers),
            decreases tabs.len() - k,
        {
            match self.workspace_for_item(tabs[k].key.item()) {
                Err(e) => {
                    return Err(e);
                },
                Ok(w) => {
                    proof {
                        lemma_first_workspace_push(tab_answers, w);
                        tab_answers = tab_answers.push(w);
                    }
                    selected_workspace_id = w;
                },
            }
            k = k + 1;
        }
        proof {
            let rest = tabs@.skip(k as int).map_values(|t: TabState| key_workspace(t.key.0));
            let all = tab_answers + rest;
            if first_workspace(tab_answers) is Some {
                lemma_first_workspace_append(tab_answers, rest);
            } else if !(active is Some && active_answer is Some) {
                assert(k == tabs@.len());
                assert(rest =~= Seq::<Option<WorkspaceId>>::empty());
                assert(all =~= tab_answers);
            }
            assert forall|j: int| 0 <= j < tabs@.len() implies workspace_answer_ok(
                tabs@[j].key.0,
                #[trigger] all[j],
            ) by {
                if j >= k {
                    assert(all[j] == rest[j - k]);
                    assert(tabs@.skip(k as int)[j - k] == tabs@[j]);
                }
            }
            assert(selection_fits(tabs@, active, active_answer, all, selected_workspace_id));
        }
        let states = match self.tab_sessions.load_workspace_states(snapshot.session_id) {
            Ok(s) => s,
            Err(e) => {
                return Err(e);
            },
        };
        let mut active_environments: Vec<(WorkspaceId, EnvironmentId)> = Vec::new();
        let mut expanded: Vec<(WorkspaceId, String)> = Vec::new();
        let ghost mut rows: Seq<Option<Environment>> = Seq::empty();
        let mut s: usize = 0;
        while s < states.len()
            invariant
                s <= states.len(),
                rows.len() == s,
                active_environments@ == kept_environments(states@.take(s as int), rows),
                expanded@ == expanded_texts(states@.take(s as int)),
            decreases states.len() - s,
        {
            let state = &states[s];
            let row: Option<Environment> = match state.active_environment_id {
                Some(environment_id) => match self.environments.get(environment_id) {
                    Ok(row) => row,
                    Err(_) => None,
                },
                None => None,
            };
            proof {
                assert(states@.take(s + 1).drop_last() =~= states@.take(s as int));
                assert(states@.take(s + 1).last() == states@[s as int]);
                lemma_kept_environments_extra_row(states@.take(s as int), rows, row);
                rows = rows.push(row);
            }
            if let Some(pair) = kept_environment(state, &row) {
                active_environments.push(pair);
            }
            expanded.push((state.workspace_id, state.expanded_items_json.clone()));
            proof {
                assert(expanded@ =~= expanded_texts(states@.take(s + 1)));
            }
            s = s + 1;
        }
        proof {
            assert(states@.take(s as int) =~= states@);
            assert(environments_fit(states@, rows, active_environments@, expanded@));
        }
        let restored = restored_state(
            snapshot,
            exists.as_slice(),
            selected_workspace_id,
            active_environments,
            expanded,
        );
        proof {
            assert(restores_to(*snapshot, exists@, restored));
            let st = restored->Some_0;
            assert(selection_fits(st.tabs@, st.active, active_answer, tab_answers + tabs@.skip(
                k as int,
            ).map_values(|t: TabState| key_workspace(t.key.0)), st.selected_workspace_id));
            assert(environments_fit(
                states@,
                rows,
                st.active_environments_by_workspace@,
                st.expanded_items_json_by_workspace@,
            ));
        }
        Ok(restored)
    }

    /// Whether the item of a key is still stored; the utility pages always
    /// exist, and a key whose id does not match its kind never does.
    fn item_exists(&self, item: ItemKey) -> (r: Result<bool, anyhow::Error>)
        ensures
            item_never_exists(item) ==> r matches Ok(false),
            item_always_exists(item) ==> r matches Ok(true),
    {
        match (item.kind, item.id) {
            (ItemKind::Workspace, Some(ItemId::Workspace(id))) => match self.workspaces.get(id) {
                Ok(row) => Ok(row_found(&row)),
                Err(e) => Err(e),
            },
            (ItemKind::Collection, Some(ItemId::Collection(id))) => match self.collections.get(id) {
                Ok(row) => Ok(row_found(&row)),
                Err(e) => Err(e),
            },
            (ItemKind::Folder, Some(ItemId::Folder(id))) => match self.folders.get(id) {
                Ok(row) => Ok(row_found(&row)),
                Err(e) => Err(e),
            },
            (ItemKind::Environment, Some(ItemId::Environment(id))) => match self.environments.get(
                id,
            ) {
                Ok(row) => Ok(row_found(&row)),
                Err(e) => Err(e),
            },
            (ItemKind::Request, Some(ItemId::Request(id))) => match self.requests.get(id) {
                Ok(row) => Ok(row_found(&row)),
                Err(e) => Err(e),
            },
            (ItemKind::Settings, None) | (ItemKind::About, None) => Ok(true),
            _ => Ok(false),
        }
    }

    /// The workspace an item belongs to: a workspace is its own; a
    /// collection, folder, environment or request is looked up through its
    /// rows; the utility pages and malformed keys belong to none.
    pub fn workspace_for_item(&self, item: ItemKey) -> (r: Result<
        Option<WorkspaceId>,
        anyhow::Error,
    >)
        ensures
            (item.kind, item.id) matches (ItemKind::Workspace, Some(ItemId::Workspace(id)))
                ==> r matches Ok(Some(w)) && w == id,
            item_always_exists(item) || item_never_exists(item) ==> r matches Ok(None),
    {
        match (item.kind, item.id) {
            (ItemKind::Workspace, Some(ItemId::Workspace(id))) => Ok(Some(id)),
            (ItemKind::Collection, Some(ItemId::Collection(id))) => match self.collections.get(id) {
                Ok(row) => Ok(collection_workspace(&row)),
                Err(e) => Err(e),
            },
            (ItemKind::Folder, Some(ItemId::Folder(id))) => {
                let collection_id = match self.folders.get(id) {
                    Ok(row) => folder_collection(&row),
                    Err(e) => {
                        return Err(e);
                    },
                };
                match collection_id {
                    None => Ok(None),
                    Some(collection_id) => match self.collections.get(collection_id) {
                        Ok(row) => Ok(collection_workspace(&row)),
                        Err(e) => Err(e),
                    },
                }
            },
            (ItemKind::Environment, Some(ItemId::Environment(id))) => match self.environments.get(
                id,
            ) {
                Ok(row) => Ok(environment_workspace(&row)),
                Err(e) => Err(e),
            },
            (ItemKind::Request, Some(ItemId::Request(id))) => {
                let collection_id = match self.requests.get(id) {
                    Ok(row) => request_collection(&row),
                    Err(e) => {
                        return Err(e);
                    },
                };
                match collection_id {
                    None => Ok(None),
                    Some(collection_id) => match self.collections.get(collection_id) {
                        Ok(row) => Ok(collection_workspace(&row)),
                        Err(e) => Err(e),
                    },
                }
            },
            _ => Ok(None),
        }
    }
}

/// The saved active tab, kept only when it is among `tabs`.
pub open spec fn restored_active_spec(tabs: Seq<TabState>, active: Option<TabKey>) -> Option<
    TabKey,
> {
    match active {
        Some(key) => if has_tab_key(tabs, key) {
            Some(key)
        } else {
            None
        },
        None => None,
    }
}

/// Keys of the utility pages, whose items always exist.
pub open spec fn item_always_exists(item: ItemKey) -> bool {
    (item.kind == ItemKind::Settings || item.kind == ItemKind::About) && item.id is None
}

/// Keys whose id is missing or of another kind than the key's.
pub open spec fn item_never_exists(item: ItemKey) -> bool {
    match (item.kind, item.id) {
        (ItemKind::Workspace, Some(ItemId::Workspace(_))) => false,
        (ItemKind::Collection, Some(ItemId::Collection(_))) => false,
        (ItemKind::Folder, Some(ItemId::Folder(_))) => false,
        (ItemKind::Environment, Some(ItemId::Environment(_))) => false,
        (ItemKind::Request, Some(ItemId::Request(_))) => false,
        (ItemKind::Settings, None) | (ItemKind::About, None) => false,
        _ => true,
    }
}

/// Whether a repository's lookup found a row: an item exists exactly when
/// the lookup of its id gives one.
pub fn row_found<T>(row: &Option<T>) -> (r: bool)
    ensures
        r == row is Some,
{
    row.is_some()
}

/// The tabs of `tabs` whose entry in `exists` is true, in order.
pub open spec fn kept_tabs(tabs: Seq<TabState>, exists: Seq<bool>) -> Seq<TabState>
    decreases tabs.len(),
{
    if tabs.len() == 0 {
        Seq::empty()
    } else {
        let last = tabs.len() - 1;
        let rest = kept_tabs(tabs.drop_last(), exists);
        if exists[last] {
            rest.push(tabs[last])
        } else {
            rest
        }
    }
}

/// `exists` has one answer per tab, and agrees with the keys whose answer
/// needs no lookup: utility pages exist, malformed keys do not.
pub open spec fn existence_consistent(tabs: Seq<TabState>, exists: Seq<bool>) -> bool {
    &&& exists.len() == tabs.len()
    &&& forall|j: int|
        0 <= j < tabs.len() ==> {
            &&& item_always_exists(#[trigger] tabs[j].key.0) ==> exists[j]
            &&& item_never_exists(tabs[j].key.0) ==> !exists[j]
        }
}

/// What restoring `snapshot` gives when `exists` tells which of its tabs'
/// items are still stored: nothing when no tab is left, else the kept tabs
/// in order, the saved active tab if kept, and the saved sidebar selection
/// and window layout.
pub open spec fn restores_to(
    snapshot: TabSessionSnapshot,
    exists: Seq<bool>,
    res: Option<RestoredSessionState>,
) -> bool {
    let kept = kept_tabs(snapshot.tabs@, exists);
    &&& (res is None <==> kept.len() == 0)
    &&& res matches Some(state) ==> {
        &&& state.tabs@ == kept
        &&& state.active == restored_active_spec(kept, snapshot.active)
        &&& state.sidebar_selection == snapshot.sidebar_selection
        &&& state.window_layout == snapshot.window_layout
    }
}

/// `res` is what restoring `snapshot` gives for some answers of the
/// repositories that agree with the keys.
pub open spec fn restores_from_snapshot(
    snapshot: TabSessionSnapshot,
    res: Option<RestoredSessionState>,
) -> bool {
    exists|exists: Seq<bool>|
        existence_consistent(snapshot.tabs@, exists) && #[trigger] restores_to(
            snapshot,
            exists,
            res,
        )
}

/// Some session among the first `n` of `listed` has the id `id`.
pub open spec fn listed_before(listed: Seq<TabSessionSnapshot>, id: SessionId, n: int) -> bool {
    exists|m: int| 0 <= m < n && #[trigger] listed[m].session_id == id
}

/// The session at `k` is one that a scan starting from the claims `claimed`
/// restores: not claimed before, and not listed earlier.
pub open spec fn scanned(claimed: Seq<SessionId>, listed: Seq<TabSessionSnapshot>, k: int) -> bool {
    &&& !claimed.contains(listed[k].session_id)
    &&& forall|m: int| 0 <= m < k ==> #[trigger] listed[m].session_id != listed[k].session_id
}

/// Every listed session is among the claims.
pub open spec fn all_claimed(claimed: Seq<SessionId>, listed: Seq<TabSessionSnapshot>) -> bool {
    forall|k: int| 0 <= k < listed.len() ==> claimed.contains(#[trigger] listed[k].session_id)
}

/// One scan over `listed`, from the claims `before` to the claims `after`,
/// with the result `r`: claims only grow, and only by listed sessions; with
/// every listed session claimed already the result is `Ok(None)` and
/// nothing changes; `Ok(None)` means each scanned session restored to
/// nothing and all are now claimed; `Ok(Some(state))` comes from the first
/// scanned session that restores to a state, and the sessions up to it are
/// claimed.
pub open spec fn restore_outcome(
    before: Seq<SessionId>,
    after: Seq<SessionId>,
    listed: Seq<TabSessionSnapshot>,
    r: Result<Option<RestoredSessionState>, anyhow::Error>,
) -> bool {
    &&& forall|id: SessionId| before.contains(id) ==> after.contains(id)
    &&& forall|id: SessionId|
        after.contains(id) ==> before.contains(id) || listed_before(listed, id, listed.len() as int)
    &&& all_claimed(before, listed) ==> (r matches Ok(None) && after == before)
    &&& r matches Ok(None) ==> {
        &&& forall|k: int| 0 <= k < listed.len() ==> after.contains(#[trigger] listed[k].session_id)
        &&& forall|k: int|
            0 <= k < listed.len() && scanned(before, listed, k) ==> restores_from_snapshot(
                #[trigger] listed[k],
                None,
            )
    }
    &&& r matches Ok(Some(state)) ==> exists|i: int| #[trigger] restored_at(before, after, listed, i, state)
}

/// `state` comes from the session at `i` of `listed`, in a scan from the
/// claims `before` to the claims `after`: the first scanned session that
/// restores to a state, with it and every session before it claimed.
pub open spec fn restored_at(
    before: Seq<SessionId>,
    after: Seq<SessionId>,
    listed: Seq<TabSessionSnapshot>,
    i: int,
    state: RestoredSessionState,
) -> bool {
    &&& 0 <= i < listed.len()
    &&& scanned(before, listed, i)
    &&& restores_from_snapshot(listed[i], Some(state))
    &&& forall|k: int| 0 <= k <= i ==> after.contains(#[trigger] listed[k].session_id)
    &&& forall|k: int|
        0 <= k < i && scanned(before, listed, k) ==> restores_from_snapshot(#[trigger] listed[k], None)
}

/// Across calls no session is restored twice: the session one scan
/// restored from is claimed when it ends, so the next scan does not restore
/// from it.
pub proof fn law_no_session_restored_twice(
    first_before: Seq<SessionId>,
    between: Seq<SessionId>,
    second_after: Seq<SessionId>,
    first_listed: Seq<TabSessionSnapshot>,
    second_listed: Seq<TabSessionSnapshot>,
    i: int,
    j: int,
    first: RestoredSessionState,
    second: RestoredSessionState,
)
    requires
        restored_at(first_before, between, first_listed, i, first),
        restored_at(between, second_after, second_listed, j, second),
    ensures
        first_listed[i].session_id != second_listed[j].session_id,
{
    assert(between.contains(first_listed[i].session_id));
}

/// Claims last: a session claimed before a scan is still claimed after it,
/// and the scan neither restores it nor claims it anew, so no session is
/// restored by two scans.
pub proof fn law_claimed_session_is_never_restored_again(
    before: Seq<SessionId>,
    after: Seq<SessionId>,
    listed: Seq<TabSessionSnapshot>,
    r: Result<Option<RestoredSessionState>, anyhow::Error>,
    id: SessionId,
)
    requires
        restore_outcome(before, after, listed, r),
        before.contains(id),
    ensures
        after.contains(id),
        forall|i: int| 0 <= i < listed.len() && #[trigger] listed[i].session_id == id ==> !scanned(before, listed, i),
{
}

/// The workspace a key names without a lookup: its own for a workspace
/// key, none for any other.
pub open spec fn key_workspace(item: ItemKey) -> Option<WorkspaceId> {
    match (item.kind, item.id) {
        (ItemKind::Workspace, Some(ItemId::Workspace(id))) => Some(id),
        _ => None,
    }
}

/// An answer of `workspace_for_item` that agrees with the key: a workspace
/// key answers its own id, utility pages and malformed keys answer none.
pub open spec fn workspace_answer_ok(item: ItemKey, answer: Option<WorkspaceId>) -> bool {
    &&& (item.kind, item.id) matches (ItemKind::Workspace, Some(ItemId::Workspace(id))) ==> answer
        == Some(id)
    &&& item_always_exists(item) || item_never_exists(item) ==> answer is None
}

/// The answer for the active tab agrees with its key; none without one.
pub open spec fn active_answer_fits(active: Option<TabKey>, answer: Option<WorkspaceId>) -> bool {
    match active {
        Some(key) => workspace_answer_ok(key.0, answer),
        None => answer is None,
    }
}

/// The first workspace among the answers.
pub open spec fn first_workspace(answers: Seq<Option<WorkspaceId>>) -> Option<WorkspaceId>
    decreases answers.len(),
{
    if answers.len() == 0 {
        None
    } else if answers[0] is Some {
        answers[0]
    } else {
        first_workspace(answers.drop_first())
    }
}

/// The workspace to select: the active tab's, else the first tab's that
/// has one.
pub open spec fn chosen_workspace(
    active: Option<TabKey>,
    active_answer: Option<WorkspaceId>,
    tab_answers: Seq<Option<WorkspaceId>>,
) -> Option<WorkspaceId> {
    if active is Some && active_answer is Some {
        active_answer
    } else {
        first_workspace(tab_answers)
    }
}

/// `selected` is the workspace chosen for `tabs` and `active`, given the
/// workspace lookup of the active tab and of each tab.
pub open spec fn selection_fits(
    tabs: Seq<TabState>,
    active: Option<TabKey>,
    active_answer: Option<WorkspaceId>,
    tab_answers: Seq<Option<WorkspaceId>>,
    selected: Option<WorkspaceId>,
) -> bool {
    &&& active_answer_fits(active, active_answer)
    &&& tab_answers.len() == tabs.len()
    &&& forall|j: int| 0 <= j < tabs.len() ==> workspace_answer_ok(tabs[j].key.0, #[trigger] tab_answers[j])
    &&& selected == chosen_workspace(active, active_answer, tab_answers)
}

/// The restored state selects the workspace of its active tab, else of its
/// first tab that has one, for some lookup answers that agree with the keys.
pub open spec fn workspace_selected(state: RestoredSessionState) -> bool {
    exists|active_answer: Option<WorkspaceId>, tab_answers: Seq<Option<WorkspaceId>>|
        #[trigger] selection_fits(
            state.tabs@,
            state.active,
            active_answer,
            tab_answers,
            state.selected_workspace_id,
        )
}

/// The active environments kept from saved workspace states, given the
/// environment row looked up for each (`None` when none was found): a
/// state's environment is kept when its row belongs to the state's
/// workspace.
pub open spec fn kept_environments(
    states: Seq<WorkspaceSessionState>,
    rows: Seq<Option<Environment>>,
) -> Seq<(WorkspaceId, EnvironmentId)>
    decreases states.len(),
{
    if states.len() == 0 {
        Seq::empty()
    } else {
        let last = states.len() - 1;
        let rest = kept_environments(states.drop_last(), rows);
        match (states[last].active_environment_id, rows[last]) {
            (Some(e), Some(env)) => if env.workspace_id == states[last].workspace_id {
                rest.push((states[last].workspace_id, e))
            } else {
                rest
            },
            _ => rest,
        }
    }
}

/// Each saved state's workspace with its expanded-items text, in order.
pub open spec fn expanded_texts(states: Seq<WorkspaceSessionState>) -> Seq<(WorkspaceId, String)> {
    states.map_values(|s: WorkspaceSessionState| (s.workspace_id, s.expanded_items_json))
}

/// The environments and expanded-items texts of the loaded states `states`
/// with the environment rows `rows`.
pub open spec fn environments_fit(
    states: Seq<WorkspaceSessionState>,
    rows: Seq<Option<Environment>>,
    environments: Seq<(WorkspaceId, EnvironmentId)>,
    expanded: Seq<(WorkspaceId, String)>,
) -> bool {
    &&& rows.len() == states.len()
    &&& environments == kept_environments(states, rows)
    &&& expanded == expanded_texts(states)
}

/// The restored state's active environments and expanded-items texts come
/// from some loaded workspace states and their environment rows.
pub open spec fn environments_kept(state: RestoredSessionState) -> bool {
    exists|states: Seq<WorkspaceSessionState>, rows: Seq<Option<Environment>>|
        #[trigger] environments_fit(
            states,
            rows,
            state.active_environments_by_workspace@,
            state.expanded_items_json_by_workspace@,
        )
}

/// The environment a saved workspace state keeps, given the row looked up
/// for its active environment: kept when the row belongs to that workspace.
pub fn kept_environment(state: &WorkspaceSessionState, row: &Option<Environment>) -> (r: Option<
    (WorkspaceId, EnvironmentId),
>)
    ensures
        r == (match (state.active_environment_id, *row) {
            (Some(e), Some(env)) => if env.workspace_id == state.workspace_id {
                Some((state.workspace_id, e))
            } else {
                None
            },
            _ => None,
        }),
{
    match (state.active_environment_id, row) {
        (Some(e), Some(env)) => if env.workspace_id == state.workspace_id {
            Some((state.workspace_id, e))
        } else {
            None
        },
        _ => None,
    }
}

proof fn lemma_kept_environments_extra_row(
    states: Seq<WorkspaceSessionState>,
    rows: Seq<Option<Environment>>,
    row: Option<Environment>,
)
    requires
        rows.len() >= states.len(),
    ensures
        kept_environments(states, rows.push(row)) == kept_environments(states, rows),
    decreases states.len(),
{
    if states.len() > 0 {
        lemma_kept_environments_extra_row(states.drop_last(), rows, row);
        assert(rows.push(row)[states.len() - 1] == rows[states.len() - 1]);
    }
}

proof fn lemma_first_workspace_push(answers: Seq<Option<WorkspaceId>>, a: Option<WorkspaceId>)
    requires
        first_workspace(answers) is None,
    ensures
        first_workspace(answers.push(a)) == a,
    decreases answers.len(),
{
    if answers.len() > 0 {
        assert(answers[0] is None);
        assert(answers.push(a)[0] == answers[0]);
        assert(answers.push(a).drop_first() =~= answers.drop_first().push(a));
        lemma_first_workspace_push(answers.drop_first(), a);
        assert(first_workspace(answers.push(a)) == first_workspace(answers.drop_first().push(a)));
    } else {
        assert(answers.push(a)[0] == a);
        assert(answers.push(a).drop_first() =~= Seq::<Option<WorkspaceId>>::empty());
        assert(first_workspace(Seq::<Option<WorkspaceId>>::empty()) is None);
    }
}

proof fn lemma_first_workspace_append(a: Seq<Option<WorkspaceId>>, b: Seq<Option<WorkspaceId>>)
    requires
        first_workspace(a) is Some,
    ensures
        first_workspace(a + b) == first_workspace(a),
    decreases a.len(),
{
    if a.len() > 0 && a[0] is None {
        assert((a + b).drop_first() =~= a.drop_first() + b);
        lemma_first_workspace_append(a.drop_first(), b);
    }
}

/// A run of scans, each starting from the claims the one before left:
/// scan `t` goes from `claims[t]` to `claims[t + 1]` over `listings[t]`
/// with the result `results[t]`.
pub open spec fn restore_run(
    claims: Seq<Seq<SessionId>>,
    listings: Seq<Seq<TabSessionSnapshot>>,
    results: Seq<Result<Option<RestoredSessionState>, anyhow::Error>>,
) -> bool {
    &&& claims.len() == listings.len() + 1
    &&& results.len() == listings.len()
    &&& forall|t: int|
        0 <= t < listings.len() ==> #[trigger] restore_outcome(
            claims[t],
            claims[t + 1],
            listings[t],
            results[t],
        )
}

proof fn lemma_run_claims_grow(
    claims: Seq<Seq<SessionId>>,
    listings: Seq<Seq<TabSessionSnapshot>>,
    results: Seq<Result<Option<RestoredSessionState>, anyhow::Error>>,
    t: int,
    u: int,
    id: SessionId,
)
    requires
        restore_run(claims, listings, results),
        0 <= t <= u < claims.len(),
        claims[t].contains(id),
    ensures
        claims[u].contains(id),
    decreases u - t,
{
    if t < u {
        assert(restore_outcome(claims[t], claims[t + 1], listings[t], results[t]));
        lemma_run_claims_grow(claims, listings, results, t + 1, u, id);
    }
}

/// Over a run of scans claims only grow, so a session once scanned stays
/// claimed, and no session is restored by two scans of the run.
pub proof fn law_restore_run(
    claims: Seq<Seq<SessionId>>,
    listings: Seq<Seq<TabSessionSnapshot>>,
    results: Seq<Result<Option<RestoredSessionState>, anyhow::Error>>,
)
    requires
        restore_run(claims, listings, results),
    ensures
        forall|t: int, u: int, id: SessionId|
            0 <= t <= u < claims.len() && #[trigger] claims[t].contains(id) ==> #[trigger] claims[u].contains(
                id,
            ),
        forall|t: int, u: int, i: int, j: int, first: RestoredSessionState, second: RestoredSessionState|
            0 <= t < u < listings.len() && #[trigger] restored_at(
                claims[t],
                claims[t + 1],
                listings[t],
                i,
                first,
            ) && #[trigger] restored_at(claims[u], claims[u + 1], listings[u], j, second)
                ==> listings[t][i].session_id != listings[u][j].session_id,
{
    assert forall|t: int, u: int, id: SessionId|
        0 <= t <= u < claims.len() && #[trigger] claims[t].contains(id) implies #[trigger] claims[u].contains(
            id,
        ) by {
        lemma_run_claims_grow(claims, listings, results, t, u, id);
    }
    assert forall|t: int, u: int, i: int, j: int, first: RestoredSessionState, second: RestoredSessionState|
        0 <= t < u < listings.len() && #[trigger] restored_at(
            claims[t],
            claims[t + 1],
            listings[t],
            i,
            first,
        ) && #[trigger] restored_at(claims[u], claims[u + 1], listings[u], j, second) implies listings[t][i].session_id
        != listings[u][j].session_id by {
        let id = listings[t][i].session_id;
        assert(claims[t + 1].contains(id));
        lemma_run_claims_grow(claims, listings, results, t + 1, u, id);
    }
}

proof fn lemma_listed_widen(listed: Seq<TabSessionSnapshot>, id: SessionId, n: int, wider: int)
    requires
        n <= wider,
        listed_before(listed, id, n),
    ensures
        listed_before(listed, id, wider),
{
    let m = choose|m: int| 0 <= m < n && #[trigger] listed[m].session_id == id;
    assert(0 <= m < wider && listed[m].session_id == id);
}

proof fn lemma_nothing_kept(tabs: Seq<TabState>, exists: Seq<bool>)
    requires
        forall|j: int| 0 <= j < tabs.len() ==> !#[trigger] exists[j],
    ensures
        kept_tabs(tabs, exists).len() == 0,
    decreases tabs.len(),
{
    if tabs.len() > 0 {
        lemma_nothing_kept(tabs.drop_last(), exists);
        assert(!exists[tabs.len() - 1]);
    }
}

/// The tabs whose entry in `exists` is true, in order.
fn kept_tabs_of(tabs: &Vec<TabState>, exists: &[bool]) -> (r: Vec<TabState>)
    requires
        exists@.len() == tabs@.len(),
    ensures
        r@ == kept_tabs(tabs@, exists@),
{
    let mut kept: Vec<TabState> = Vec::new();
    let mut i: usize = 0;
    while i < tabs.len()
        invariant
            i <= tabs.len(),
            exists@.len() == tabs@.len(),
            kept@ == kept_tabs(tabs@.take(i as int), exists@),
        decreases tabs.len() - i,
    {
        proof {
            assert(tabs@.take(i + 1).drop_last() =~= tabs@.take(i as int));
            assert(tabs@.take(i + 1)[i as int] == tabs@[i as int]);
        }
        if exists[i] {
            kept.push(tabs[i]);
        }
        i = i + 1;
    }
    proof {
        assert(tabs@.take(i as int) =~= tabs@);
    }
    kept
}

/// The session state to reopen from `snapshot`, given which of its tabs'
/// items exist (`exists`, one entry per tab) and the workspace selection,
/// active environments and expanded-items texts worked out for it.
pub fn restored_state(
    snapshot: &TabSessionSnapshot,
    exists: &[bool],
    selected_workspace_id: Option<WorkspaceId>,
    active_environments_by_workspace: Vec<(WorkspaceId, EnvironmentId)>,
    expanded_items_json_by_workspace: Vec<(WorkspaceId, String)>,
) -> (r: Option<RestoredSessionState>)
    requires
        exists@.len() == snapshot.tabs@.len(),
    ensures
        restores_to(*snapshot, exists@, r),
        r matches Some(state) ==> {
            &&& state.selected_workspace_id == selected_workspace_id
            &&& state.active_environments_by_workspace == active_environments_by_workspace
            &&& state.expanded_items_json_by_workspace == expanded_items_json_by_workspace
        },
{
    let tabs = kept_tabs_of(&snapshot.tabs, exists);
    if tabs.len() == 0 {
        return None;
    }
    let active = restored_active(tabs.as_slice(), snapshot.active);
    Some(
        RestoredSessionState {
            tabs,
            active,
            selected_workspace_id,
            active_environments_by_workspace,
            expanded_items_json_by_workspace,
            sidebar_selection: snapshot.sidebar_selection,
            window_layout: snapshot.window_layout,
        },
    )
}

/// The workspace a looked-up collection row names.
pub fn collection_workspace(row: &Option<Collection>) -> (r: Option<WorkspaceId>)
    ensures
        r == (match *row {
            Some(collection) => Some(collection.workspace_id),
            None => None,
        }),
{
    match row {
        Some(collection) => Some(collection.workspace_id),
        None => None,
    }
}

/// The workspace a looked-up environment row names.
pub fn environment_workspace(row: &Option<Environment>) -> (r: Option<WorkspaceId>)
    ensures
        r == (match *row {
            Some(environment) => Some(environment.workspace_id),
            None => None,
        }),
{
    match row {
        Some(environment) => Some(environment.workspace_id),
        None => None,
    }
}

/// The collection a looked-up folder row belongs to.
pub fn folder_collection(row: &Option<Folder>) -> (r: Option<CollectionId>)
    ensures
        r == (match *row {
            Some(folder) => Some(folder.collection_id),
            None => None,
        }),
{
    match row {
        Some(folder) => Some(folder.collection_id),
        None => None,
    }
}

/// The collection a looked-up request row belongs to.
pub fn request_collection(row: &Option<RequestItem>) -> (r: Option<CollectionId>)
    ensures
        r == (match *row {
            Some(request) => Some(request.collection_id),
            None => None,
        }),
{
    match row {
        Some(request) => Some(request.collection_id),
        None => None,
    }
}

} // verus!
