use torii::domain::{BodyRef, RequestItem, ResponseSummary};
use torii::ids::{CollectionId, HistoryEntryId, RequestId};
use torii::request_editor_state::{EditorIdentity, ExecStatus, RequestEditorState, SaveStatus};

fn test_collection_id() -> CollectionId {
    CollectionId::new()
}

fn summary(media_type: Option<&str>, total_ms: Option<u64>, ttfb_ms: Option<u64>) -> ResponseSummary {
    ResponseSummary {
        status_code: 200,
        status_text: "OK".to_string(),
        headers_json: None,
        media_type: media_type.map(|m| m.to_string()),
        body_ref: BodyRef::Empty,
        total_ms,
        ttfb_ms,
        dispatched_at_unix_ms: None,
        first_byte_at_unix_ms: None,
        completed_at_unix_ms: None,
        http_version: None,
        local_addr: None,
        remote_addr: None,
        tls: None,
        size: torii::domain::ResponseSizeBreakdown { headers_bytes: None, body_wire_bytes: None, body_decoded_bytes: 0 },
        request_size: torii::domain::RequestSizeBreakdown { headers_bytes: None, body_bytes: 0 },
        phase_timings: torii::request_execution::PhaseTimings::unmeasured(),
    }
}

#[test]
fn draft_editor_starts_dirty() {
    let editor = RequestEditorState::new_draft(test_collection_id());
    assert_eq!(editor.save_status(), &SaveStatus::Dirty);
    assert!(editor.baseline().is_none());
    assert!(editor.detect_dirty());
}

#[test]
fn persisted_editor_starts_pristine() {
    let request = RequestItem::new(test_collection_id(), None, "Test", "GET", "/api", 0);
    let editor = RequestEditorState::from_persisted(request);
    assert_eq!(editor.save_status(), &SaveStatus::Pristine);
    assert!(editor.baseline().is_some());
    assert!(!editor.detect_dirty());
}

#[test]
fn editing_draft_makes_dirty() {
    let request = RequestItem::new(test_collection_id(), None, "Test", "GET", "/api", 0);
    let mut editor = RequestEditorState::from_persisted(request);
    editor.draft_mut().url = "/changed".to_string();
    editor.refresh_save_status();
    assert_eq!(editor.save_status(), &SaveStatus::Dirty);
}

#[test]
fn save_roundtrip_resets_to_pristine() {
    let request = RequestItem::new(test_collection_id(), None, "Test", "GET", "/api", 0);
    let mut editor = RequestEditorState::from_persisted(request);
    editor.draft_mut().url = "/changed".to_string();
    editor.begin_save();
    assert_eq!(editor.save_status(), &SaveStatus::Saving);

    let saved = editor.draft().clone();
    editor.complete_save(&saved);
    assert_eq!(editor.save_status(), &SaveStatus::Pristine);
    assert!(!editor.detect_dirty());
}

#[test]
fn save_failed_stays_dirty() {
    let request = RequestItem::new(test_collection_id(), None, "Test", "GET", "/api", 0);
    let mut editor = RequestEditorState::from_persisted(request);
    editor.draft_mut().url = "/changed".to_string();
    editor.begin_save();
    editor.fail_save("conflict".to_string());
    assert!(matches!(editor.save_status(), SaveStatus::SaveFailed { .. }));
    assert!(editor.detect_dirty());
}

#[test]
fn exec_transitions_idle_to_sending_to_completed() {
    let request = RequestItem::new(test_collection_id(), None, "Test", "GET", "/api", 0);
    let mut editor = RequestEditorState::from_persisted(request);
    assert!(matches!(editor.exec_status(), ExecStatus::Idle));

    let op_id = HistoryEntryId::new();
    let old = editor.begin_send(op_id);
    assert!(old.is_none());
    assert!(editor.exec_status().is_in_flight());

    let summary = summary(Some("text/plain"), Some(150), Some(50));
    assert!(editor.complete_exec(summary, op_id));
    assert!(editor.exec_status().is_terminal());
}

#[test]
fn late_response_is_ignored() {
    let request = RequestItem::new(test_collection_id(), None, "Test", "GET", "/api", 0);
    let mut editor = RequestEditorState::from_persisted(request);

    let op1 = HistoryEntryId::new();
    let op2 = HistoryEntryId::new();
    let old = editor.begin_send(op1);

    if let Some(token) = old {
        token.cancel();
    }
    let _old2 = editor.begin_send(op2);

    let summary = summary(None, None, None);
    assert!(!editor.complete_exec(summary, op1));
    assert!(editor.exec_status().is_in_flight());
}

#[test]
fn auto_cancel_on_resend() {
    let request = RequestItem::new(test_collection_id(), None, "Test", "GET", "/api", 0);
    let mut editor = RequestEditorState::from_persisted(request);

    let op1 = HistoryEntryId::new();
    let old = editor.begin_send(op1);
    assert!(old.is_none());
    let token1 = editor.cancellation_token().unwrap().clone();

    let op2 = HistoryEntryId::new();
    let old = editor.begin_send(op2);
    let old_token = old.unwrap();
    assert!(old_token.is_cancelled());
    assert!(token1.is_cancelled());
    assert_eq!(editor.active_operation_id(), Some(op2));
}

#[test]
fn cancel_exec_transitions_to_cancelled() {
    let request = RequestItem::new(test_collection_id(), None, "Test", "GET", "/api", 0);
    let mut editor = RequestEditorState::from_persisted(request);

    let op_id = HistoryEntryId::new();
    editor.begin_send(op_id);
    assert!(editor.cancel_exec(Some(1024), op_id));
    assert!(matches!(
        editor.exec_status(),
        ExecStatus::Cancelled {
            partial_size: Some(1024)
        }
    ));
}

#[test]
fn orthogonal_save_and_exec_status() {
    let request = RequestItem::new(test_collection_id(), None, "Test", "GET", "/api", 0);
    let mut editor = RequestEditorState::from_persisted(request);

    editor.draft_mut().url = "/changed".to_string();
    editor.begin_save();

    let op_id = HistoryEntryId::new();
    editor.begin_send(op_id);

    assert_eq!(editor.save_status(), &SaveStatus::Saving);
    assert!(editor.exec_status().is_in_flight());

    let summary = summary(None, None, None);
    assert!(editor.complete_exec(summary, op_id));

    let saved = editor.draft().clone();
    editor.complete_save(&saved);
    assert_eq!(*editor.save_status(), SaveStatus::Pristine);
}

#[test]
fn draft_transitions_to_persisted_on_first_save() {
    let mut editor = RequestEditorState::new_draft(test_collection_id());
    assert!(matches!(editor.identity(), EditorIdentity::Draft(_)));
    assert!(editor.request_id().is_none());

    let id = RequestId::new();
    let saved = editor.draft().clone();
    editor.transition_to_persisted(id, &saved);
    assert!(matches!(editor.identity(), EditorIdentity::Persisted(_)));
    assert_eq!(editor.request_id(), Some(id));
}

#[test]
fn preflight_error_does_not_change_exec_status() {
    let request = RequestItem::new(test_collection_id(), None, "Test", "GET", "/api", 0);
    let mut editor = RequestEditorState::from_persisted(request);
    assert!(matches!(editor.exec_status(), ExecStatus::Idle));

    editor.set_preflight_error("bad URL".to_string());
    assert!(editor.preflight_error().is_some());
    assert!(matches!(editor.exec_status(), ExecStatus::Idle));
}

#[test]
fn reload_baseline_keeps_draft() {
    let request = RequestItem::new(test_collection_id(), None, "Test", "GET", "/api", 0);
    let mut editor = RequestEditorState::from_persisted(request);
    editor.draft_mut().url = "/changed".to_string();
    assert!(editor.detect_dirty());

    let mut reloaded = editor.draft().clone();
    reloaded.url = "/remote-change".to_string();
    reloaded.meta.revision += 1;
    editor.reload_baseline(reloaded);

    assert_eq!(editor.draft().url, "/changed");
    assert_eq!(editor.baseline().unwrap().url, "/remote-change");
    assert!(editor.detect_dirty());
}

#[test]
fn reset_preflight_clears_sending_state() {
    let request = RequestItem::new(test_collection_id(), None, "Test", "GET", "/api", 0);
    let mut editor = RequestEditorState::from_persisted(request);
    assert!(matches!(editor.exec_status(), ExecStatus::Idle));

    let op_id = HistoryEntryId::new();
    editor.begin_send(op_id);
    assert!(editor.exec_status().is_in_flight());
    assert_eq!(editor.active_operation_id(), Some(op_id));
    assert!(editor.cancellation_token().is_some());

    editor.reset_preflight();
    assert!(matches!(editor.exec_status(), ExecStatus::Idle));
    assert!(editor.active_operation_id().is_none());
    assert!(editor.cancellation_token().is_none());

    let op_id2 = HistoryEntryId::new();
    editor.begin_send(op_id2);
    assert!(editor.exec_status().is_in_flight());
    assert_eq!(editor.active_operation_id(), Some(op_id2));
}

#[test]
fn saved_baseline_is_clean_after_complete_save() {
    let mut editor = RequestEditorState::new_draft(test_collection_id());
    editor.draft_mut().name = "Renamed".to_string();
    let saved = editor.draft().clone();
    editor.complete_save(&saved);
    assert!(!editor.detect_dirty());
    assert_eq!(editor.save_status(), &SaveStatus::Pristine);
    editor.refresh_save_status();
    assert_eq!(editor.save_status(), &SaveStatus::Pristine);
}

#[test]
fn fail_exec_and_restore_responses_set_terminal_states() {
    let request = RequestItem::new(test_collection_id(), None, "Test", "GET", "/api", 0);
    let mut editor = RequestEditorState::from_persisted(request);
    let op = HistoryEntryId::new();
    editor.begin_send(op);
    editor.transition_to_streaming();
    assert!(matches!(editor.exec_status(), ExecStatus::Streaming));
    assert!(editor.fail_exec("boom".to_string(), None, op));
    assert!(matches!(editor.exec_status(), ExecStatus::Failed { summary, .. } if summary == "boom"));
    assert!(editor.active_operation_id().is_none());

    editor.restore_cancelled_response(Some(7));
    assert!(matches!(
        editor.exec_status(),
        ExecStatus::Cancelled {
            partial_size: Some(7)
        }
    ));
    editor.restore_failed_response("later".to_string());
    assert!(matches!(editor.exec_status(), ExecStatus::Failed { summary, .. } if summary == "later"));
    editor.restore_completed_response(summary(None, Some(3), None));
    assert!(matches!(editor.exec_status(), ExecStatus::Completed { .. }));
}
