use torii::domain::{BodyType, FormDataFileField, KeyValuePair, RequestItem};
use torii::ids::CollectionId;
use torii::kv_table::{apply_kv_edit, meaningful_pairs, rows_to_rebuild, shown_rows, KvEditOutcome, KvTarget};
use torii::request_editor_state::{RequestEditorState, SaveStatus};
use torii::response_view::{BodyKind, ReentrancyGuard};

fn kv(key: &str, value: &str, enabled: bool) -> KeyValuePair {
    KeyValuePair { key: key.to_string(), value: value.to_string(), enabled }
}

fn blank() -> KeyValuePair {
    kv("", "", true)
}

fn editor(url: &str) -> RequestEditorState {
    RequestEditorState::from_persisted(RequestItem::new(CollectionId(1), None, "R", "GET", url, 0))
}

#[test]
fn blank_rows_do_not_count() {
    let rows = vec![kv("a", "1", true), kv("  ", " ", true), kv("", "v", false), blank()];
    assert_eq!(meaningful_pairs(&rows), vec![kv("a", "1", true), kv("", "v", false)]);
}

#[test]
fn tables_show_a_trailing_fresh_row() {
    assert_eq!(shown_rows(&vec![]), vec![blank()]);
    assert_eq!(shown_rows(&vec![kv("a", "1", false)]), vec![kv("a", "1", false), blank()]);
    assert_eq!(shown_rows(&vec![kv("a", "1", true), kv(" ", "", false)]), vec![kv("a", "1", true), kv(" ", "", false)]);
}

#[test]
fn a_table_is_rebuilt_only_when_it_disagrees_with_the_draft() {
    let mut draft = RequestItem::new(CollectionId(1), None, "R", "GET", "/", 0);
    draft.headers = vec![kv("X", "1", true)];
    let same = vec![kv("X", "1", true), blank()];
    assert_eq!(rows_to_rebuild(&draft, KvTarget::Headers, &same), None);
    let other = vec![kv("Y", "2", true)];
    assert_eq!(rows_to_rebuild(&draft, KvTarget::Headers, &other), Some(vec![kv("X", "1", true), blank()]));
    assert_eq!(rows_to_rebuild(&draft, KvTarget::BodyUrlEncoded, &other), None);
}

#[test]
fn a_parameter_edit_rewrites_the_url() {
    let mut e = editor("https://example.test/items");
    let mut guard = ReentrancyGuard::default();
    let rows = vec![kv("page", "2", true), blank()];
    let outcome = apply_kv_edit(&mut e, &mut guard, KvTarget::Params, &rows, BodyKind::NoBody);
    assert_eq!(
        outcome,
        KvEditOutcome::Applied { draft_changed: true, url: Some("https://example.test/items?page=2".to_string()) }
    );
    assert_eq!(e.draft().params, vec![kv("page", "2", true)]);
    assert_eq!(e.draft().url, "https://example.test/items?page=2");
    assert_eq!(e.save_status(), &SaveStatus::Dirty);
    let again = apply_kv_edit(&mut e, &mut guard, KvTarget::Params, &rows, BodyKind::NoBody);
    assert_eq!(again, KvEditOutcome::Applied { draft_changed: false, url: None });
}

#[test]
fn a_parameter_edit_during_synchronisation_is_deferred() {
    let mut e = editor("/");
    let mut guard = ReentrancyGuard::default();
    assert!(guard.enter());
    let outcome = apply_kv_edit(&mut e, &mut guard, KvTarget::Params, &vec![kv("a", "b", true)], BodyKind::NoBody);
    assert_eq!(outcome, KvEditOutcome::Deferred);
    assert!(guard.deferred);
    assert!(e.draft().params.is_empty());
    assert!(guard.leave_and_take_deferred());
}

#[test]
fn header_edits_change_only_the_headers() {
    let mut e = editor("/x");
    let mut guard = ReentrancyGuard::default();
    let outcome = apply_kv_edit(&mut e, &mut guard, KvTarget::Headers, &vec![kv("Accept", "*/*", true)], BodyKind::NoBody);
    assert_eq!(outcome, KvEditOutcome::Applied { draft_changed: true, url: None });
    assert_eq!(e.draft().headers, vec![kv("Accept", "*/*", true)]);
    assert_eq!(e.draft().url, "/x");
    let again = apply_kv_edit(&mut e, &mut guard, KvTarget::Headers, &vec![kv("Accept", "*/*", true), blank()], BodyKind::NoBody);
    assert_eq!(again, KvEditOutcome::Applied { draft_changed: false, url: None });
}

#[test]
fn form_edits_apply_only_to_the_selected_body_kind() {
    let mut e = editor("/x");
    let mut guard = ReentrancyGuard::default();
    let rows = vec![kv("f", "v", true)];
    let ignored = apply_kv_edit(&mut e, &mut guard, KvTarget::BodyFormDataText, &rows, BodyKind::RawText);
    assert_eq!(ignored, KvEditOutcome::Ignored);
    assert_eq!(e.draft().body, BodyType::NoBody);

    let file = FormDataFileField { key: "doc".into(), file_name: Some("a.pdf".into()), blob_hash: "h".into(), enabled: true };
    e.draft_mut().body = BodyType::FormData { text_fields: vec![], file_fields: vec![file.clone()] };
    let applied = apply_kv_edit(&mut e, &mut guard, KvTarget::BodyFormDataText, &rows, BodyKind::FormData);
    assert_eq!(applied, KvEditOutcome::Applied { draft_changed: true, url: None });
    assert_eq!(e.draft().body, BodyType::FormData { text_fields: rows.clone(), file_fields: vec![file] });

    let encoded = apply_kv_edit(&mut e, &mut guard, KvTarget::BodyUrlEncoded, &rows, BodyKind::UrlEncoded);
    assert_eq!(encoded, KvEditOutcome::Applied { draft_changed: true, url: None });
    assert_eq!(e.draft().body, BodyType::UrlEncoded { entries: rows });
}
