use std::sync::Arc;

use torii::domain::{ApiKeyLocation, AuthType, BodyRef, BodyType, ResponseSummary};
use torii::error_classifier::ClassifiedError;
use torii::request_editor_state::ExecStatus;
use torii::response_view::{
    classified_error_display, latest_run_summary, render_preview_text, response_body_preview_text,
    BodyPreviewText, DisplayText,
};
use torii::response_view::{
    api_key_location_from_index, api_key_location_index, auth_kind_from_label, auth_type_index,
    body_kind_from_label, body_type_index, dash_or, format_ms, looks_like_html, looks_like_image,
    parse_preflight_message, standard_method_index, status_description_key, suggested_file_name,
    truncate_for_tab_cap, AuthKind, BodyKind, ReentrancyGuard,
};

#[test]
fn uses_exact_known_status_descriptions() {
    assert_eq!(status_description_key(200), "request_tab_status_desc_200");
    assert_eq!(status_description_key(404), "request_tab_status_desc_404");
    assert_eq!(status_description_key(511), "request_tab_status_desc_511");
}

#[test]
fn falls_back_to_class_level_descriptions_for_unknown_statuses() {
    assert_eq!(status_description_key(299), "request_tab_status_desc_2xx_generic");
    assert_eq!(status_description_key(399), "request_tab_status_desc_3xx_generic");
    assert_eq!(status_description_key(499), "request_tab_status_desc_4xx_generic");
    assert_eq!(status_description_key(599), "request_tab_status_desc_5xx_generic");
    assert_eq!(status_description_key(700), "request_tab_status_desc_unknown");
}

#[test]
fn reentrancy_guard_defers_nested_entry() {
    let mut guard = ReentrancyGuard::default();
    assert!(guard.enter());
    assert!(!guard.enter());
    assert!(guard.leave_and_take_deferred());
}

#[test]
fn reentrancy_guard_without_nesting_defers_nothing() {
    let mut guard = ReentrancyGuard::default();
    assert!(guard.enter());
    assert!(guard.is_active());
    assert!(!guard.leave_and_take_deferred());
    assert!(!guard.is_active());
    assert!(guard.enter());
}

#[test]
fn truncate_respects_custom_max_bytes() {
    let bytes = vec![1_u8; 16];
    let (truncated, was_truncated) = truncate_for_tab_cap(bytes, 8);
    assert!(was_truncated);
    assert_eq!(truncated.len(), 8);
}

#[test]
fn truncate_keeps_short_bodies_whole() {
    let (kept, was_truncated) = truncate_for_tab_cap(vec![1, 2, 3], 8);
    assert!(!was_truncated);
    assert_eq!(kept, vec![1, 2, 3]);
}

#[test]
fn media_type_sniffing() {
    assert!(looks_like_image(Some("image/png")));
    assert!(!looks_like_image(Some("text/plain")));
    assert!(!looks_like_image(None));
    assert!(looks_like_html(Some("TEXT/HTML")));
    assert!(!looks_like_html(Some("text/html; charset=utf-8")));
    assert!(!looks_like_html(Some("application/json")));
}

#[test]
fn suggested_file_names_follow_media_type() {
    assert_eq!(suggested_file_name(Some("application/json")), "response.json");
    assert_eq!(suggested_file_name(Some("Text/Plain")), "response.txt");
    assert_eq!(suggested_file_name(None), "response.bin");
}

#[test]
fn method_auth_and_body_indices_round_trip() {
    assert_eq!(standard_method_index("GET"), Some(0));
    assert_eq!(standard_method_index("BREW"), None);
    assert_eq!(auth_type_index(&AuthType::NoAuth), 0);
    assert_eq!(auth_kind_from_label("Bearer"), AuthKind::Bearer);
    assert_eq!(auth_kind_from_label("Other"), AuthKind::NoAuth);
    assert_eq!(body_type_index(&BodyType::NoBody), 0);
    assert_eq!(body_kind_from_label("unknown label"), BodyKind::NoBody);
    for loc in [ApiKeyLocation::Header, ApiKeyLocation::Query] {
        assert_eq!(api_key_location_from_index(api_key_location_index(loc)), loc);
    }
}

#[test]
fn dash_and_millisecond_formatting() {
    assert_eq!(dash_or(None), "\u{2014}");
    assert_eq!(dash_or(Some("x".to_string())), "x");
    assert_eq!(format_ms(Some(150)), "150 ms");
    assert_eq!(format_ms(None), "\u{2014}");
}

#[test]
fn preflight_message_is_split_into_names_and_scopes() {
    let (names, scopes) = parse_preflight_message(
        "missing variables: a, b; checked scopes: request overrides -> workspace",
    );
    assert_eq!(names.as_deref(), Some("a, b"));
    assert_eq!(scopes.as_deref(), Some("request overrides -> workspace"));
    let (names, scopes) = parse_preflight_message("something else");
    assert!(names.is_none() && scopes.is_none());
}

#[test]
fn failed_exchanges_get_a_title_and_a_detail() {
    let dns = ClassifiedError::DnsFailure { host: "example.test".into() };
    assert_eq!(
        classified_error_display(Some(&dns), "s"),
        (DisplayText::MessageKey("request_tab_error_dns_failure".into()), "Could not resolve host: example.test".to_string())
    );
    let refused = ClassifiedError::ConnectionRefused { host: "localhost".into(), port: 8080 };
    assert_eq!(
        classified_error_display(Some(&refused), "s"),
        (DisplayText::MessageKey("request_tab_error_connection_refused".into()), "Connection refused: localhost:8080".to_string())
    );
    let transport = ClassifiedError::TransportError { summary: "Broken".into(), detail: "pipe".into() };
    assert_eq!(
        classified_error_display(Some(&transport), "s"),
        (DisplayText::Text("Broken".into()), "pipe".to_string())
    );
    assert_eq!(
        classified_error_display(None, "boom"),
        (DisplayText::MessageKey("request_tab_error_transport_generic".into()), "boom".to_string())
    );
    assert_eq!(
        classified_error_display(Some(&ClassifiedError::RequestTimeout), "late"),
        (DisplayText::MessageKey("request_tab_error_request_timeout".into()), "late".to_string())
    );
}

#[test]
fn the_latest_run_is_summarised_by_its_state() {
    assert_eq!(latest_run_summary(&ExecStatus::Idle), DisplayText::MessageKey("request_tab_latest_run_none".into()));
    assert_eq!(latest_run_summary(&ExecStatus::Sending), DisplayText::MessageKey("request_tab_sending".into()));
    let response = ResponseSummary {
        status_code: 201,
        status_text: "Created".into(),
        headers_json: None,
        media_type: None,
        body_ref: BodyRef::Empty,
        total_ms: Some(42),
        ttfb_ms: None,
        dispatched_at_unix_ms: None,
        first_byte_at_unix_ms: None,
        completed_at_unix_ms: None,
        http_version: None,
        local_addr: None,
        remote_addr: None,
        tls: None,
        size: torii::domain::ResponseSizeBreakdown { headers_bytes: None, body_wire_bytes: None, body_decoded_bytes: 0 },
        request_size: torii::domain::RequestSizeBreakdown { headers_bytes: None, body_bytes: 0 },
        phase_timings: torii::request_execution::PhaseTimings::unmeasured(),
    };
    let mut no_time = response.clone();
    no_time.total_ms = None;
    assert_eq!(
        latest_run_summary(&ExecStatus::Completed { response: Arc::new(response) }),
        DisplayText::Text("201 Created • 42 ms".into())
    );
    assert_eq!(
        latest_run_summary(&ExecStatus::Completed { response: Arc::new(no_time) }),
        DisplayText::Text("201 Created".into())
    );
    assert_eq!(
        latest_run_summary(&ExecStatus::Failed { summary: "oops".into(), classified: None }),
        DisplayText::MessageKeyThen { key: "request_tab_response_failed".into(), rest: ": oops".into() }
    );
    assert_eq!(
        latest_run_summary(&ExecStatus::Cancelled { partial_size: Some(1024) }),
        DisplayText::MessageKeyThen { key: "request_tab_response_cancelled_with_bytes".into(), rest: " (1024)".into() }
    );
    assert_eq!(
        latest_run_summary(&ExecStatus::Cancelled { partial_size: None }),
        DisplayText::MessageKey("request_tab_response_cancelled".into())
    );
}

#[test]
fn the_missing_variables_message_parses_back_into_names_and_scopes() {
    let message = "missing variables: api_key, host; checked scopes: request overrides -> active environment -> workspace";
    let (names, scopes) = parse_preflight_message(message);
    assert_eq!(names.as_deref(), Some("api_key, host"));
    assert_eq!(scopes.as_deref(), Some("request overrides -> active environment -> workspace"));
}

fn summary_with(body_ref: BodyRef, media_type: Option<&str>) -> ResponseSummary {
    ResponseSummary {
        status_code: 200,
        status_text: "OK".into(),
        headers_json: None,
        media_type: media_type.map(|m| m.to_string()),
        body_ref,
        total_ms: None,
        ttfb_ms: None,
        dispatched_at_unix_ms: None,
        first_byte_at_unix_ms: None,
        completed_at_unix_ms: None,
        http_version: None,
        local_addr: None,
        remote_addr: None,
        tls: None,
        size: torii::domain::ResponseSizeBreakdown { headers_bytes: None, body_wire_bytes: None, body_decoded_bytes: 0 },
        request_size: torii::domain::RequestSizeBreakdown { headers_bytes: None, body_bytes: 0 },
        phase_timings: torii::request_execution::PhaseTimings::unmeasured(),
    }
}

#[test]
fn preview_text_is_pretty_for_json_and_xml_and_plain_otherwise() {
    assert_eq!(render_preview_text(br#"{"a":1}"#, Some("Application/JSON")), "{\n  \"a\": 1\n}");
    assert_eq!(render_preview_text(b"{broken", Some("application/json")), "{broken");
    let xml = render_preview_text(b"<a><b>1</b></a>", Some("text/xml"));
    assert_eq!(xml, "<a>\n  <b>1</b>\n</a>");
    let html = render_preview_text(b"<p><i>x</i></p>", Some("TEXT/HTML"));
    assert_eq!(html, "<p>\n  <i>x</i>\n</p>");
    assert_eq!(render_preview_text(br#"{"a":1}"#, Some("text/plain")), r#"{"a":1}"#);
    assert_eq!(render_preview_text(b"ok", None), "ok");
    assert_eq!(render_preview_text(&[b'a', 0xff, b'b'], None), "a\u{FFFD}b");
}

#[test]
fn body_preview_shows_the_truncation_notice_for_larger_blobs() {
    let full = Some("whole".to_string());
    let p = response_body_preview_text(&summary_with(BodyRef::Empty, None), &full);
    assert_eq!(p, BodyPreviewText { text: "whole".into(), truncated_notice: None });
    let p = response_body_preview_text(&summary_with(BodyRef::Empty, None), &None);
    assert_eq!(p, BodyPreviewText { text: String::new(), truncated_notice: None });
    let mem = BodyRef::InMemoryPreview { bytes: b"[1]".to_vec(), truncated: false };
    let p = response_body_preview_text(&summary_with(mem, Some("application/json")), &None);
    assert_eq!(p.text, "[\n  1\n]");
    let blob = BodyRef::DiskBlob { blob_id: "h".into(), preview: Some(b"abc".to_vec()), size_bytes: 10 };
    let p = response_body_preview_text(&summary_with(blob, None), &None);
    assert_eq!(p, BodyPreviewText { text: "abc".into(), truncated_notice: Some("request_tab_response_truncated".into()) });
    let whole = BodyRef::DiskBlob { blob_id: "h".into(), preview: Some(b"abc".to_vec()), size_bytes: 3 };
    assert_eq!(response_body_preview_text(&summary_with(whole, None), &None).truncated_notice, None);
    let none = BodyRef::DiskBlob { blob_id: "h".into(), preview: None, size_bytes: 0 };
    assert_eq!(response_body_preview_text(&summary_with(none, None), &None).text, "");
}

#[test]
fn body_sizes_follow_the_body_reference() {
    assert_eq!(BodyRef::Empty.size_bytes(), 0);
    assert_eq!(BodyRef::InMemoryPreview { bytes: vec![1, 2, 3], truncated: false }.size_bytes(), 3);
    assert_eq!(BodyRef::DiskBlob { blob_id: "h".into(), preview: None, size_bytes: 99 }.size_bytes(), 99);
}
