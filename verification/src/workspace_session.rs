//! The state of one window: its tabs, the sidebar selection, the selected
//! workspace and the environment chosen in each workspace.
//!
//! Each setter returns whether anything changed, which is when the window
//! has to be redrawn.
use std::collections::HashMap;
use vstd::prelude::*;

use crate::ids::{fresh_uuid_value, EnvironmentId, WorkspaceId};
use crate::item_key::{ItemKey, TabKey};
use crate::session_restore::SessionId;
use crate::sidebar::SidebarSection;
use crate::tab_manager::{
    close_spec, has_tab, open_spec, reorder_spec, tabs_wf, CloseTabOutcome, OpenTabOutcome,
    TabManager,
};

verus! {

broadcast use vstd::std_specs::hash::group_hash_axioms;

impl SessionId {
    /// A fresh session id (a time-ordered UUID).
    pub fn new() -> Self {
        SessionId(fresh_uuid_value())
    }
}

/// The window state.
#[derive(Debug, Clone)]
pub struct WorkspaceSession {
    pub session_id: SessionId,
    pub selected_workspace_id: Option<WorkspaceId>,
    /// The environment chosen in each workspace, keyed by the workspace id's
    /// value.
    pub active_environments_by_workspace: HashMap<u128, EnvironmentId>,
    pub sidebar_selection: Option<ItemKey>,
    pub tab_manager: TabManager,
    pub sidebar_collapsed: bool,
    pub sidebar_section: SidebarSection,
}

/// The environment chosen in a workspace, in a map of choices.
pub open spec fn chosen_environment(m: Map<u128, EnvironmentId>, workspace_id: WorkspaceId) -> Option<
    EnvironmentId,
> {
    if m.contains_key(workspace_id.0) {
        Some(m[workspace_id.0])
    } else {
        None
    }
}

/// The map of choices after choosing `environment_id` in a workspace
/// (`None` forgets the choice).
pub open spec fn choose_environment(
    m: Map<u128, EnvironmentId>,
    workspace_id: WorkspaceId,
    environment_id: Option<EnvironmentId>,
) -> Map<u128, EnvironmentId> {
    match environment_id {
        Some(e) => m.insert(workspace_id.0, e),
        None => m.remove(workspace_id.0),
    }
}

/// The item of the active tab, if there is one.
pub open spec fn active_item(active: Option<TabKey>) -> Option<ItemKey> {
    match active {
        Some(k) => Some(k.0),
        None => None,
    }
}

/// Choosing an environment in a workspace is what reading it back gives,
/// and the choices of every other workspace are as they were.
pub proof fn law_environment_choice_reads_back(
    m: Map<u128, EnvironmentId>,
    workspace_id: WorkspaceId,
    environment_id: Option<EnvironmentId>,
    other: WorkspaceId,
)
    ensures
        chosen_environment(choose_environment(m, workspace_id, environment_id), workspace_id)
            == environment_id,
        other.0 != workspace_id.0 ==> chosen_environment(
            choose_environment(m, workspace_id, environment_id),
            other,
        ) == chosen_environment(m, other),
{
}

impl WorkspaceSession {
    /// An empty session with a fresh id: no tabs, nothing selected, the
    /// sidebar open on its collections.
    pub fn new() -> (r: Self)
        ensures
            r.selected_workspace_id.is_none(),
            r.active_environments_by_workspace@ == Map::<u128, EnvironmentId>::empty(),
            r.sidebar_selection.is_none(),
            r.tab_manager@.tabs == Seq::<crate::tab_manager::TabState>::empty(),
            r.tab_manager@.active.is_none(),
            !r.sidebar_collapsed,
            r.sidebar_section == SidebarSection::Collections,
    {
        WorkspaceSession {
            session_id: SessionId::new(),
            selected_workspace_id: None,
            active_environments_by_workspace: HashMap::new(),
            sidebar_selection: None,
            tab_manager: TabManager::default(),
            sidebar_collapsed: false,
            sidebar_section: SidebarSection::Collections,
        }
    }

    /// Opens or focuses the tab of an item and selects the item.
    pub fn open_or_focus(&mut self, item_key: ItemKey) -> (r: OpenTabOutcome)
        requires
            tabs_wf(old(self).tab_manager@),
            old(self).tab_manager@.tabs.len() + 1 < usize::MAX,
        ensures
            tabs_wf(final(self).tab_manager@),
            (final(self).tab_manager@, r) == open_spec(old(self).tab_manager@, item_key),
            final(self).sidebar_selection == Some(item_key),
            final(self).sidebar_selection == active_item(final(self).tab_manager@.active),
            final(self).selected_workspace_id == old(self).selected_workspace_id,
            final(self).active_environments_by_workspace@
                == old(self).active_environments_by_workspace@,
            final(self).sidebar_collapsed == old(self).sidebar_collapsed,
            final(self).sidebar_section == old(self).sidebar_section,
    {
        self.sidebar_selection = Some(item_key);
        self.tab_manager.open_or_focus(item_key)
    }

    /// Focuses an open tab and selects its item; `false`, and no change,
    /// when the tab is not open.
    pub fn focus_tab(&mut self, tab_key: TabKey) -> (r: bool)
        requires
            tabs_wf(old(self).tab_manager@),
        ensures
            tabs_wf(final(self).tab_manager@),
            r == has_tab(old(self).tab_manager@.tabs, tab_key),
            final(self).tab_manager@.tabs == old(self).tab_manager@.tabs,
            r ==> final(self).tab_manager@.active == Some(tab_key),
            r ==> final(self).sidebar_selection == Some(tab_key.0),
            !r ==> final(self).tab_manager@ == old(self).tab_manager@,
            !r ==> final(self).sidebar_selection == old(self).sidebar_selection,
            final(self).selected_workspace_id == old(self).selected_workspace_id,
            final(self).active_environments_by_workspace@
                == old(self).active_environments_by_workspace@,
            final(self).sidebar_collapsed == old(self).sidebar_collapsed,
            final(self).sidebar_section == old(self).sidebar_section,
    {
        let changed = self.tab_manager.set_active(tab_key);
        if changed {
            self.sidebar_selection = Some(tab_key.item());
        }
        changed
    }

    /// Closes a tab; the selection follows the tab that becomes active.
    /// `None`, and no change, when the tab is not open.
    pub fn close_tab(&mut self, tab_key: TabKey) -> (r: Option<CloseTabOutcome>)
        requires
            tabs_wf(old(self).tab_manager@),
        ensures
            tabs_wf(final(self).tab_manager@),
            (final(self).tab_manager@, r) == close_spec(old(self).tab_manager@, tab_key),
            r is Some ==> final(self).sidebar_selection == active_item(
                final(self).tab_manager@.active,
            ),
            r is None ==> final(self).sidebar_selection == old(self).sidebar_selection,
            final(self).selected_workspace_id == old(self).selected_workspace_id,
            final(self).active_environments_by_workspace@
                == old(self).active_environments_by_workspace@,
            final(self).sidebar_collapsed == old(self).sidebar_collapsed,
            final(self).sidebar_section == old(self).sidebar_section,
    {
        let outcome = match self.tab_manager.close(tab_key) {
            Some(o) => o,
            None => return None,
        };
        self.sidebar_selection = match self.tab_manager.active() {
            Some(active) => Some(active.item()),
            None => None,
        };
        Some(outcome)
    }

    /// Selects a workspace; whether that changed anything.
    pub fn set_selected_workspace(&mut self, workspace_id: Option<WorkspaceId>) -> (r: bool)
        ensures
            r == (old(self).selected_workspace_id != workspace_id),
            final(self).selected_workspace_id == workspace_id,
            final(self).sidebar_selection == old(self).sidebar_selection,
            final(self).tab_manager@ == old(self).tab_manager@,
            final(self).active_environments_by_workspace@
                == old(self).active_environments_by_workspace@,
            final(self).sidebar_collapsed == old(self).sidebar_collapsed,
            final(self).sidebar_section == old(self).sidebar_section,
    {
        if self.selected_workspace_id != workspace_id {
            self.selected_workspace_id = workspace_id;
            true
        } else {
            false
        }
    }

    /// Sets the sidebar selection; whether that changed anything.
    pub fn set_sidebar_selection(&mut self, selection: Option<ItemKey>) -> (r: bool)
        ensures
            r == (old(self).sidebar_selection != selection),
            final(self).sidebar_selection == selection,
            final(self).selected_workspace_id == old(self).selected_workspace_id,
            final(self).tab_manager@ == old(self).tab_manager@,
            final(self).active_environments_by_workspace@
                == old(self).active_environments_by_workspace@,
            final(self).sidebar_collapsed == old(self).sidebar_collapsed,
            final(self).sidebar_section == old(self).sidebar_section,
    {
        if self.sidebar_selection != selection {
            self.sidebar_selection = selection;
            true
        } else {
            false
        }
    }

    /// The environment chosen in a workspace.
    pub fn active_environment_for_workspace(&self, workspace_id: WorkspaceId) -> (r: Option<
        EnvironmentId,
    >)
        ensures
            r == chosen_environment(self.active_environments_by_workspace@, workspace_id),
    {
        match self.active_environments_by_workspace.get(&workspace_id.0) {
            Some(e) => Some(*e),
            None => None,
        }
    }

    /// Chooses (or, with `None`, forgets) the environment of a workspace;
    /// whether that changed anything.
    pub fn set_active_environment_for_workspace(
        &mut self,
        workspace_id: WorkspaceId,
        environment_id: Option<EnvironmentId>,
    ) -> (r: bool)
        ensures
            r == (chosen_environment(old(self).active_environments_by_workspace@, workspace_id)
                != environment_id),
            final(self).active_environments_by_workspace@ == choose_environment(
                old(self).active_environments_by_workspace@,
                workspace_id,
                environment_id,
            ),
            final(self).selected_workspace_id == old(self).selected_workspace_id,
            final(self).sidebar_selection == old(self).sidebar_selection,
            final(self).tab_manager@ == old(self).tab_manager@,
            final(self).sidebar_collapsed == old(self).sidebar_collapsed,
            final(self).sidebar_section == old(self).sidebar_section,
    {
        let key = workspace_id.0;
        match environment_id {
            Some(env_id) => {
                let same = match self.active_environments_by_workspace.get(&key) {
                    Some(current) => *current == env_id,
                    None => false,
                };
                if same {
                    proof {
                        assert(self.active_environments_by_workspace@.insert(key, env_id)
                            =~= self.active_environments_by_workspace@);
                    }
                    false
                } else {
                    self.active_environments_by_workspace.insert(key, env_id);
                    true
                }
            },
            None => {
                let removed = self.active_environments_by_workspace.remove(&key);
                removed.is_some()
            },
        }
    }

    /// Collapses or expands the sidebar; whether that changed anything.
    pub fn set_sidebar_collapsed(&mut self, collapsed: bool) -> (r: bool)
        ensures
            r == (old(self).sidebar_collapsed != collapsed),
            final(self).sidebar_collapsed == collapsed,
            final(self).sidebar_section == old(self).sidebar_section,
            final(self).selected_workspace_id == old(self).selected_workspace_id,
            final(self).sidebar_selection == old(self).sidebar_selection,
            final(self).tab_manager@ == old(self).tab_manager@,
            final(self).active_environments_by_workspace@
                == old(self).active_environments_by_workspace@,
    {
        if self.sidebar_collapsed != collapsed {
            self.sidebar_collapsed = collapsed;
            true
        } else {
            false
        }
    }

    /// Flips the sidebar between collapsed and expanded.
    pub fn toggle_sidebar(&mut self)
        ensures
            final(self).sidebar_collapsed == !old(self).sidebar_collapsed,
            final(self).sidebar_section == old(self).sidebar_section,
            final(self).selected_workspace_id == old(self).selected_workspace_id,
            final(self).sidebar_selection == old(self).sidebar_selection,
            final(self).tab_manager@ == old(self).tab_manager@,
            final(self).active_environments_by_workspace@
                == old(self).active_environments_by_workspace@,
    {
        self.sidebar_collapsed = !self.sidebar_collapsed;
    }

    /// Moves the tab at `from` to position `to`; whether anything moved.
    pub fn reorder_tabs(&mut self, from: usize, to: usize) -> (r: bool)
        requires
            tabs_wf(old(self).tab_manager@),
        ensures
            tabs_wf(final(self).tab_manager@),
            (final(self).tab_manager@.tabs, r) == reorder_spec(
                old(self).tab_manager@.tabs,
                from as int,
                to as int,
            ),
            final(self).tab_manager@.active == old(self).tab_manager@.active,
            final(self).sidebar_selection == old(self).sidebar_selection,
            final(self).selected_workspace_id == old(self).selected_workspace_id,
            final(self).active_environments_by_workspace@
                == old(self).active_environments_by_workspace@,
            final(self).sidebar_collapsed == old(self).sidebar_collapsed,
            final(self).sidebar_section == old(self).sidebar_section,
    {
        self.tab_manager.reorder(from, to)
    }
}

} // verus!
