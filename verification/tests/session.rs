use torii::error_classifier::{classify_transport_facts, error_chain_string, ClassifiedError, TransportErrorFacts};
use torii::ids::{ItemId, RequestId, WorkspaceId};
use torii::item_key::{ItemKey, ItemKind, TabKey};
use torii::recovery::{RecoveryCoordinator, RecoveryReport};
use torii::sidebar::{Page, SidebarSection};
use torii::tab_manager::{TabManager, TabState};
use torii::workspace_tree::ItemIcon;

#[test]
fn opening_focuses_and_reopening_does_not_duplicate() {
    let mut tabs = TabManager::default();
    let a = ItemKey::request(RequestId(1));
    let b = ItemKey::settings();
    let first = tabs.open_or_focus(a);
    assert!(!first.already_open);
    assert_eq!(first.index, 0);
    tabs.open_or_focus(b);
    assert_eq!(tabs.active(), Some(TabKey(b)));
    let again = tabs.open_or_focus(a);
    assert!(again.already_open);
    assert_eq!(again.index, 0);
    assert_eq!(tabs.tabs().len(), 2);
    assert_eq!(tabs.active(), Some(TabKey(a)));
}

#[test]
fn closing_the_active_tab_activates_a_neighbour() {
    let mut tabs = TabManager::default();
    let keys = [ItemKey::request(RequestId(1)), ItemKey::request(RequestId(2)), ItemKey::request(RequestId(3))];
    for k in keys {
        tabs.open_or_focus(k);
    }
    tabs.set_active(TabKey(keys[1]));
    let outcome = tabs.close(TabKey(keys[1])).unwrap();
    assert_eq!(outcome.closed, TabKey(keys[1]));
    assert_eq!(outcome.closed_index, 1);
    assert!(outcome.next_active.is_some());
    assert_eq!(tabs.active(), outcome.next_active);
    assert_eq!(tabs.tabs().len(), 2);
    assert!(tabs.close(TabKey(keys[1])).is_none());
}

#[test]
fn open_then_close_restores_the_tab_list() {
    let mut tabs = TabManager::default();
    tabs.open_or_focus(ItemKey::settings());
    let before: Vec<TabState> = tabs.tabs().to_vec();
    let fresh = ItemKey::about();
    tabs.open_or_focus(fresh);
    tabs.close(TabKey(fresh));
    assert_eq!(tabs.tabs(), &before[..]);
}

#[test]
fn reorder_moves_a_tab_and_keeps_the_set() {
    let mut tabs = TabManager::default();
    for i in 1..=3 {
        tabs.open_or_focus(ItemKey::request(RequestId(i)));
    }
    assert!(tabs.reorder(0, 2));
    let order: Vec<TabKey> = tabs.tabs().iter().map(|t| t.key).collect();
    assert_eq!(
        order,
        vec![
            TabKey(ItemKey::request(RequestId(2))),
            TabKey(ItemKey::request(RequestId(3))),
            TabKey(ItemKey::request(RequestId(1)))
        ]
    );
    assert!(!tabs.reorder(0, 9));
    assert!(!tabs.set_active(TabKey(ItemKey::about())));
}

#[test]
fn item_keys_carry_ids_only_for_stored_kinds() {
    assert!(ItemKind::Request.is_persisted());
    assert!(!ItemKind::About.is_persisted());
    let k = ItemKey::workspace(WorkspaceId(4));
    assert_eq!(k.id, Some(ItemId::Workspace(WorkspaceId(4))));
    assert!(k.is_persisted());
    assert!(!ItemKey::settings().is_persisted());
    assert_eq!(TabKey::new(k).item(), k);
    assert_eq!(ItemKey::new(ItemKind::About, None), ItemKey::about());
}

fn facts(detail: &str) -> TransportErrorFacts {
    TransportErrorFacts {
        detail: detail.to_string(),
        from_http_client: true,
        host: "example.com".to_string(),
        port: 443,
        is_timeout: false,
        is_connect: false,
        connection_refused: false,
    }
}

#[test]
fn transport_errors_are_classified_by_their_facts() {
    let mut f = facts("operation timed out");
    f.is_timeout = true;
    assert_eq!(classify_transport_facts(&f), ClassifiedError::RequestTimeout);
    f.is_connect = true;
    assert_eq!(classify_transport_facts(&f), ClassifiedError::ConnectionTimeout);
    let mut f = facts("error sending request");
    f.is_connect = true;
    f.connection_refused = true;
    assert_eq!(
        classify_transport_facts(&f),
        ClassifiedError::ConnectionRefused { host: "example.com".into(), port: 443 }
    );
    let mut f = facts("dns error: failed to lookup address information");
    f.is_connect = true;
    assert_eq!(classify_transport_facts(&f), ClassifiedError::DnsFailure { host: "example.com".into() });
    let f = facts("invalid peer Certificate");
    assert_eq!(classify_transport_facts(&f), ClassifiedError::TlsError { reason: "invalid peer Certificate".into() });
    let f = facts("something else");
    assert_eq!(
        classify_transport_facts(&f),
        ClassifiedError::TransportError { summary: "Transport error".into(), detail: "something else".into() }
    );
}

#[test]
fn error_chains_join_with_colons() {
    assert_eq!(error_chain_string(&["a".to_string(), "b".to_string(), "c".to_string()]), "a: b: c");
    assert_eq!(error_chain_string(&[]), "");
}

#[test]
fn recovery_settings_keep_at_least_one_day() {
    let c = RecoveryCoordinator::new((), (), ());
    assert_eq!(c.history_retention_days(), 30);
    assert_eq!(c.stale_temp_max_age(), std::time::Duration::from_secs(86_400));
    let c = c.with_history_retention_days(0).with_stale_temp_max_age(std::time::Duration::from_secs(5));
    assert_eq!(c.history_retention_days(), 1);
    assert_eq!(c.stale_temp_max_age(), std::time::Duration::from_secs(5));
    let c = c.with_history_retention_days(90);
    assert_eq!(c.history_retention_days(), 90);
    assert_eq!(RecoveryReport::default().stale_temp_removed, 0);
}

#[test]
fn pages_and_sections() {
    assert_eq!(Page::all(), vec![Page::Home, Page::Form, Page::Settings, Page::About]);
    assert_eq!(SidebarSection::default(), SidebarSection::Collections);
}

#[test]
fn pages_have_title_keys_and_icons() {

    assert_eq!(Page::Home.title(), "page-Home");
    assert_eq!(Page::About.title(), "page-About");
    assert_eq!(Page::Form.icon(), ItemIcon::File);
    assert_eq!(Page::Settings.icon(), ItemIcon::Settings2);
}
