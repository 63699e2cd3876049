use base64::Engine as _;
use torii::domain::BodyRef;
use torii::error_classifier::{ClassifiedError, TransportErrorFacts};
use torii::request_execution::{
    first_common_name, has_unresolved_placeholders, header_block_size, http_version_label,
    media_type_of, outcome_after_send, parse_content_length,
    parse_tls_summary, tls_summary_from_fields, BodyStreamProgress, ExecOutcome,
    ExecProgressEvent, HttpVersion, PhaseTimingCollector, PhaseTimings,
};

const CERT_WITH_CN_DER_B64: &str = "MIICqDCCAZACCQC+zNamvRmnrDANBgkqhkiG9w0BAQsFADAWMRQwEgYDVQQDDAtleGFtcGxlLmNvbTAeFw0yNjA0MTkyMTA0NTdaFw0zNjA0MTYyMTA0NTdaMBYxFDASBgNVBAMMC2V4YW1wbGUuY29tMIIBIjANBgkqhkiG9w0BAQEFAAOCAQ8AMIIBCgKCAQEAn0XE3Gmpd3EJlmiza72fClQqEabt0IEW8VSPN4sKvGdHcckLX1W8nqy11M8cCc5PiVW6OgsZ1MYf8T0J7Hhu8AHBBubqRmecOahJI7NO9f/HiYSrF2pqGezwmvJFugNZmcBIty1qPN9HRewIzYVmahcLM+/FiTanD43KVYBt8+ABydlGr+Psp6IzbFcLsGRLnk86Iq3VddypXwL1ty4jjc+lzkPV+P1KsxM7Q8Vdebs0yaeUQFoW7o8GKuRhnYYs18tyJF96sSpEpfZIkffN14nT2ML7xLhl81bp3MXpQKl49u7J/Sg89xa9mM3t5hHtU2VdRv3Jjw8VXLr11KLDWwIDAQABMA0GCSqGSIb3DQEBCwUAA4IBAQAQDPh0tRj7Honl3JfQkDUUswaLzkkc/76zvempdE8Jk0H/iUwtXucoBPoQvFskXTnjIkvVf5dEGl24Y024qOlNkjroeMl4QCM9zD+29D8gx9Iceb+/3XtKis3aLggTd65uqxnrxuGkJxycLrEmMhM0HBGvp5p18JbDXQZKpkLlePwOCPsIqsO7D+3q1/YoLdMEmqj4OOGiMPagn6TEYJvtc9LhNOAt8anpklUwiCLcle59f532M5rbxeUxZo0yTjg0fOyri2tWPT5SBMliidUsMZgwvPhGdfMabVMufBESrCh/GGV1dcyfs/egcH2AeUSMBgvNz1GmxuszH9Ox4tBy";
const CERT_NO_SUBJECT_CN_DER_B64: &str = "MIICpDCCAYwCCQDKL604yUhsqzANBgkqhkiG9w0BAQsFADAUMRIwEAYDVQQKDAlObyBDTiBPcmcwHhcNMjYwNDE5MjEwNDU4WhcNMzYwNDE2MjEwNDU4WjAUMRIwEAYDVQQKDAlObyBDTiBPcmcwggEiMA0GCSqGSIb3DQEBAQUAA4IBDwAwggEKAoIBAQCg77X51JXFX3Utf8MeyHQk4rxVqz5Nw44JlV6PWLyGj0h3PApp36HYSPNq9Vy1Trape5jUFXu6qlP1GpUiE+NtNm3RXz66/KYXvyDykm9Um5tvYW9xrSc21TKBepnXgkd+gDdSysOYMugi3mYezn0tpZZEM+TXuhRJ+WeJSt02eU8NPHz7613aKiRq522vjeXeyliKD3X+h1CxfLRGKRrYJCSSD3TefwFUOk9d/qgEb2PitLrcwuY/1TAUIZS7+BOM+hV4R8zoo6xJ5Ma1g1iQGp9CmS29Xk4bfgr4uQI8SZuqNlEdjCOgUvwt0L2PxO+rjL7dXFY1Y4c18zdkJaaJAgMBAAEwDQYJKoZIhvcNAQELBQADggEBAJUHFEm87sNgs3QG4Ve+1B5egYr5KLb0musrgE5BymVlcX7Ns3nQ8vO2yOQsSU14Cl8mSjXTEDwYUlha4CICMqIbfsIqLD0rh9dvFXdHsRkIQZ03nGOwXJL9ae8R3ypoj0xGIx+LAIpEkcURmjpBvumeo2psSJJpoLCHhpAtZRUwPJBqH/WzY/8wBRL3OTloxhmQimaXvdmmW8vkFHxAEhEuwfYvKVvg5qwunhAYpPxSN3uOXaS5YjHHUwMjssuFXbFQhnbRM7Jvqxly/bldHYxaYNdc0hfSA0w4BtZdM+toX/JjDKh/7p7EbWTeSCXWIwh4RrbgqPmaL3VbtIr5IG4=";

fn now_unix_ms() -> i64 {
    std::time::SystemTime::now()
        .duration_since(std::time::UNIX_EPOCH)
        .map(|d| d.as_millis() as i64)
        .unwrap_or(0)
}

#[test]
fn content_length_parser_handles_chunked_and_fixed_length() {
    assert_eq!(parse_content_length(None, Some("512")), Some(512));
    assert_eq!(parse_content_length(Some("chunked"), Some("1024")), None);
    assert_eq!(parse_content_length(None, Some("not-a-number")), None);
}

#[test]
fn content_length_edge_cases_follow_u64_parsing() {
    assert_eq!(parse_content_length(Some("gzip, Chunked "), Some("5")), None);
    assert_eq!(parse_content_length(Some("gzip"), Some("5")), Some(5));
    assert_eq!(parse_content_length(None, Some("+7")), Some(7));
    assert_eq!(parse_content_length(None, Some("+")), None);
    assert_eq!(parse_content_length(None, Some("-1")), None);
    assert_eq!(parse_content_length(None, Some("")), None);
    assert_eq!(parse_content_length(None, Some("18446744073709551615")), Some(u64::MAX));
    assert_eq!(parse_content_length(None, Some("18446744073709551616")), None);
    assert_eq!(parse_content_length(None, None), None);
}

#[test]
fn tls_summary_parsing_happy_path_and_future_validity() {
    let der = base64::engine::general_purpose::STANDARD
        .decode(CERT_WITH_CN_DER_B64)
        .expect("decode der");
    let tls = parse_tls_summary(Some(&der)).expect("parse tls summary");

    assert_eq!(tls.certificate_cn.as_deref(), Some("example.com"));
    assert_eq!(tls.issuer_cn.as_deref(), Some("example.com"));
    assert!(tls.valid_until.expect("valid_until") > 0);
    assert!(tls.valid_until.expect("valid_until") > now_unix_ms());
}

#[test]
fn tls_summary_parsing_handles_malformed_der_and_missing_cn() {
    assert!(parse_tls_summary(Some(&[0x01, 0x02, 0x03])).is_none());

    let der = base64::engine::general_purpose::STANDARD
        .decode(CERT_NO_SUBJECT_CN_DER_B64)
        .expect("decode der");
    let tls = parse_tls_summary(Some(&der)).expect("parse tls summary");

    assert!(tls.certificate_cn.is_none());
    assert!(tls.valid_until.is_some());
}

#[test]
fn tls_summary_from_fields_scales_validity_to_milliseconds() {
    let t = tls_summary_from_fields(Some((Some("a".to_string()), None, 1_700_000_000))).unwrap();
    assert_eq!(t.valid_until, Some(1_700_000_000_000));
    assert_eq!(t.certificate_cn.as_deref(), Some("a"));
    assert!(t.issuer_cn.is_none() && t.protocol.is_none() && t.cipher.is_none());
    let t = tls_summary_from_fields(Some((None, None, i64::MAX / 10))).unwrap();
    assert_eq!(t.valid_until, None);
    assert!(tls_summary_from_fields(None).is_none());
    assert!(parse_tls_summary(None).is_none());
}

#[test]
fn placeholders_are_detected_only_when_both_braces_occur() {
    assert!(has_unresolved_placeholders("a {{x}} b"));
    assert!(has_unresolved_placeholders("}} then {{"));
    assert!(!has_unresolved_placeholders("{{ only open"));
    assert!(!has_unresolved_placeholders("plain"));
}

#[test]
fn header_block_size_counts_separators() {
    let headers = vec![
        (b"Host".to_vec(), b"example.com".to_vec()),
        (b"Accept".to_vec(), b"*/*".to_vec()),
    ];
    assert_eq!(header_block_size(&headers), (4 + 2 + 11 + 2) + (6 + 2 + 3 + 2));
    assert_eq!(header_block_size(&[]), 0);
}

#[test]
fn http_version_labels() {
    assert_eq!(http_version_label(HttpVersion::Http11), "HTTP/1.1");
    assert_eq!(http_version_label(HttpVersion::Http2), "HTTP/2");
    assert_eq!(http_version_label(HttpVersion::Other), "HTTP/?");
}

#[test]
fn phase_timing_collector_records_dns_and_connect() {
    let mut c = PhaseTimingCollector::new();
    assert_eq!(c.snapshot(), PhaseTimings::unmeasured());
    c.record_dns(12);
    c.record_connect(30);
    let s = c.snapshot();
    assert_eq!(s.dns_ms, Some(12));
    assert_eq!(s.connect_ms, Some(30));
    assert_eq!(s.prepare_ms, None);
}

#[test]
fn preview_keeps_only_the_first_cap_bytes() {
    let mut p = BodyStreamProgress::new();
    p.accept_chunk(&[1, 2, 3], 5);
    p.accept_chunk(&[4, 5, 6, 7], 5);
    p.accept_chunk(&[8], 5);
    assert_eq!(p.preview, vec![1, 2, 3, 4, 5]);
    assert_eq!(p.total_written, 8);
    assert!(p.exceeded_preview_cap);
    match p.finish("hash".to_string()) {
        BodyRef::DiskBlob { blob_id, preview, size_bytes } => {
            assert_eq!(blob_id, "hash");
            assert_eq!(preview, Some(vec![1, 2, 3, 4, 5]));
            assert_eq!(size_bytes, 8);
        }
        other => panic!("unexpected body ref: {other:?}"),
    }
}

#[test]
fn preview_of_a_short_body_is_the_whole_body() {
    let mut p = BodyStreamProgress::new();
    p.accept_chunk(&[1, 2], 4);
    p.accept_chunk(&[3, 4], 4);
    assert!(!p.exceeded_preview_cap);
    assert_eq!(
        p.finish("unused".to_string()),
        BodyRef::InMemoryPreview { bytes: vec![1, 2, 3, 4], truncated: false }
    );
}

#[test]
fn outcome_and_progress_values() {
    let o = ExecOutcome::Cancelled { partial_size: Some(3) };
    assert!(matches!(o, ExecOutcome::Cancelled { partial_size: Some(3) }));
    assert_eq!(ExecProgressEvent::ResponseStreamingStarted, ExecProgressEvent::ResponseStreamingStarted);
}

#[test]
fn media_type_is_the_trimmed_part_before_parameters() {
    assert_eq!(media_type_of("application/json; charset=utf-8"), "application/json");
    assert_eq!(media_type_of("  text/html  "), "text/html");
    assert_eq!(media_type_of(";x"), "");
    assert_eq!(media_type_of(""), "");
}

#[test]
fn outcome_after_a_failed_send_is_cancelled_or_classified() {
    let facts = TransportErrorFacts {
        detail: "connection refused".to_string(),
        from_http_client: true,
        host: "example.test".to_string(),
        port: 443,
        is_timeout: true,
        is_connect: false,
        connection_refused: false,
    };
    assert!(matches!(
        outcome_after_send(true, "boom".to_string(), &facts),
        ExecOutcome::Cancelled { partial_size: None }
    ));
    match outcome_after_send(false, "boom".to_string(), &facts) {
        ExecOutcome::Failed { summary, classified } => {
            assert_eq!(summary, "boom");
            assert!(matches!(classified, Some(ClassifiedError::RequestTimeout)));
        }
        _ => panic!("expected a failure"),
    }
}

#[test]
fn first_common_name_takes_the_first_only_when_it_is_text() {
    assert_eq!(first_common_name(&vec![Some("a".to_string()), Some("b".to_string())]), Some("a".to_string()));
    assert_eq!(first_common_name(&vec![None, Some("b".to_string())]), None);
    assert_eq!(first_common_name(&vec![]), None);
}
