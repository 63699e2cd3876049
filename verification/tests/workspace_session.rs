use torii::ids::{EnvironmentId, RequestId, WorkspaceId};
use torii::item_key::{ItemKey, TabKey};
use torii::sidebar::SidebarSection;
use torii::workspace_session::WorkspaceSession;

#[test]
fn a_new_session_is_empty() {
    let s = WorkspaceSession::new();
    assert!(s.selected_workspace_id.is_none());
    assert!(s.sidebar_selection.is_none());
    assert!(s.tab_manager.tabs().is_empty());
    assert!(s.tab_manager.active().is_none());
    assert!(!s.sidebar_collapsed);
    assert_eq!(s.sidebar_section, SidebarSection::Collections);
    assert!(s.active_environments_by_workspace.is_empty());
}

#[test]
fn opening_an_item_selects_it() {
    let mut s = WorkspaceSession::new();
    let a = ItemKey::request(RequestId(1));
    let b = ItemKey::request(RequestId(2));
    let first = s.open_or_focus(a);
    assert_eq!(first.index, 0);
    assert!(!first.already_open);
    s.open_or_focus(b);
    assert_eq!(s.sidebar_selection, Some(b));
    let again = s.open_or_focus(a);
    assert!(again.already_open);
    assert_eq!(s.sidebar_selection, Some(a));
    assert_eq!(s.tab_manager.tabs().len(), 2);
}

#[test]
fn focusing_selects_only_open_tabs() {
    let mut s = WorkspaceSession::new();
    let a = ItemKey::request(RequestId(1));
    let b = ItemKey::request(RequestId(2));
    s.open_or_focus(a);
    s.open_or_focus(b);
    assert!(s.focus_tab(TabKey(a)));
    assert_eq!(s.sidebar_selection, Some(a));
    assert_eq!(s.tab_manager.active(), Some(TabKey(a)));
    let missing = ItemKey::request(RequestId(9));
    assert!(!s.focus_tab(TabKey(missing)));
    assert_eq!(s.sidebar_selection, Some(a));
}

#[test]
fn closing_a_tab_moves_the_selection_to_the_new_active_tab() {
    let mut s = WorkspaceSession::new();
    let a = ItemKey::request(RequestId(1));
    let b = ItemKey::request(RequestId(2));
    s.open_or_focus(a);
    s.open_or_focus(b);
    let outcome = s.close_tab(TabKey(b)).unwrap();
    assert_eq!(outcome.closed_index, 1);
    assert_eq!(outcome.next_active, Some(TabKey(a)));
    assert_eq!(s.sidebar_selection, Some(a));
    s.close_tab(TabKey(a));
    assert_eq!(s.sidebar_selection, None);
    assert!(s.close_tab(TabKey(a)).is_none());
}

#[test]
fn setters_report_whether_anything_changed() {
    let mut s = WorkspaceSession::new();
    let w = WorkspaceId(7);
    assert!(s.set_selected_workspace(Some(w)));
    assert!(!s.set_selected_workspace(Some(w)));
    assert_eq!(s.selected_workspace_id, Some(w));
    let sel = Some(ItemKey::settings());
    assert!(s.set_sidebar_selection(sel));
    assert!(!s.set_sidebar_selection(sel));
    assert!(s.set_sidebar_collapsed(true));
    assert!(!s.set_sidebar_collapsed(true));
    s.toggle_sidebar();
    assert!(!s.sidebar_collapsed);
}

#[test]
fn an_environment_choice_reads_back_per_workspace() {
    let mut s = WorkspaceSession::new();
    let w1 = WorkspaceId(1);
    let w2 = WorkspaceId(2);
    let e = EnvironmentId(10);
    assert_eq!(s.active_environment_for_workspace(w1), None);
    assert!(s.set_active_environment_for_workspace(w1, Some(e)));
    assert!(!s.set_active_environment_for_workspace(w1, Some(e)));
    assert_eq!(s.active_environment_for_workspace(w1), Some(e));
    assert_eq!(s.active_environment_for_workspace(w2), None);
    assert!(s.set_active_environment_for_workspace(w2, Some(EnvironmentId(20))));
    assert!(s.set_active_environment_for_workspace(w1, None));
    assert!(!s.set_active_environment_for_workspace(w1, None));
    assert_eq!(s.active_environment_for_workspace(w1), None);
    assert_eq!(s.active_environment_for_workspace(w2), Some(EnvironmentId(20)));
}

#[test]
fn reordering_tabs_keeps_the_selection() {
    let mut s = WorkspaceSession::new();
    for i in 1..=3 {
        s.open_or_focus(ItemKey::request(RequestId(i)));
    }
    let sel = s.sidebar_selection;
    assert!(s.reorder_tabs(0, 2));
    assert!(!s.reorder_tabs(1, 1));
    assert!(!s.reorder_tabs(0, 5));
    assert_eq!(s.sidebar_selection, sel);
    assert_eq!(s.tab_manager.tabs()[2].key, TabKey(ItemKey::request(RequestId(1))));
}
