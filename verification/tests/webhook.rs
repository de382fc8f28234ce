use hmac::Mac;
use tuskar::config::parse_network_list;
use tuskar::net::{extract_client_ip, first_forwarded, is_blocked_ip, IpAddress, IpNetwork};
use tuskar::status::TusError;
use tuskar::webhook::{
    check_resolved_addresses, check_webhook_url, events_json, keep_response_chunk, retry_delay,
    row_to_config, rows_to_configs, signature_header, unresolved_host, AttemptResult,
    DeliveryState, DeliveryStep, WebhookConfig, WebhookResponse, WebhookRow, MAX_RESPONSE_BODY,
};

fn v4(a: u8, b: u8, c: u8, d: u8) -> IpAddress {
    IpAddress::V4([a, b, c, d])
}

fn v6(s: [u16; 8]) -> IpAddress {
    IpAddress::V6(s)
}

// ── blocked addresses ────────────────────────────────────────────────────

#[test]
fn blocks_loopback_v4() {
    assert!(is_blocked_ip(v4(127, 0, 0, 1)));
}

#[test]
fn blocks_private_ranges() {
    assert!(is_blocked_ip(v4(10, 0, 0, 1)));
    assert!(is_blocked_ip(v4(172, 16, 0, 1)));
    assert!(is_blocked_ip(v4(192, 168, 1, 1)));
}

#[test]
fn blocks_link_local_and_metadata() {
    assert!(is_blocked_ip(v4(169, 254, 169, 254)));
    assert!(is_blocked_ip(v4(169, 254, 0, 1)));
}

#[test]
fn blocks_ipv6_loopback_and_ula() {
    assert!(is_blocked_ip(v6([0, 0, 0, 0, 0, 0, 0, 1])));
    assert!(is_blocked_ip(v6([0xfe80, 0, 0, 0, 0, 0, 0, 1])));
    assert!(is_blocked_ip(v6([0xfc00, 0, 0, 0, 0, 0, 0, 1])));
}

#[test]
fn allows_public_ips() {
    assert!(!is_blocked_ip(v4(1, 1, 1, 1)));
    assert!(!is_blocked_ip(v4(8, 8, 8, 8)));
    assert!(!is_blocked_ip(v6([0x2606, 0x4700, 0x4700, 0, 0, 0, 0, 0x1111])));
}

#[test]
fn blocks_unspecified_and_broadcast() {
    assert!(is_blocked_ip(v4(0, 0, 0, 0)));
    assert!(is_blocked_ip(v4(255, 255, 255, 255)));
    assert!(is_blocked_ip(v6([0; 8])));
    assert!(!is_blocked_ip(v4(172, 32, 0, 1)));
}

// ── URL checks ───────────────────────────────────────────────────────────

#[test]
fn rejects_non_http_scheme() {
    assert!(check_webhook_url("ftp://example.com/hook").is_err());
    assert!(check_webhook_url("file:///etc/passwd").is_err());
    assert!(check_webhook_url("not a url").is_err());
}

#[test]
fn webhook_url_errors_and_ports() {
    assert_eq!(
        check_webhook_url("ftp://example.com/hook"),
        Err(TusError::InvalidHeader("webhook URL scheme must be http or https, got: ftp".into()))
    );
    assert_eq!(
        check_webhook_url("not a url"),
        Err(TusError::InvalidHeader("webhook URL is invalid: not a url".into()))
    );
    assert_eq!(check_webhook_url("https://example.com/h"), Ok(("example.com".to_string(), 443)));
    assert_eq!(check_webhook_url("http://example.com:8080/h"), Ok(("example.com".to_string(), 8080)));
    assert_eq!(check_webhook_url("http://example.com/h"), Ok(("example.com".to_string(), 80)));
    assert_eq!(
        unresolved_host("no such host"),
        TusError::InvalidHeader("webhook URL host could not be resolved: no such host".into())
    );
}

#[test]
fn resolved_addresses_are_checked_in_order() {
    let ok = vec![(v4(8, 8, 8, 8), "8.8.8.8".to_string())];
    assert_eq!(check_resolved_addresses(&ok), Ok(()));
    let bad = vec![
        (v4(8, 8, 8, 8), "8.8.8.8".to_string()),
        (v4(10, 0, 0, 1), "10.0.0.1".to_string()),
        (v4(127, 0, 0, 1), "127.0.0.1".to_string()),
    ];
    assert_eq!(
        check_resolved_addresses(&bad),
        Err(TusError::InvalidHeader("webhook URL resolves to a blocked address: 10.0.0.1".into()))
    );
}

// ── client address ───────────────────────────────────────────────────────

#[test]
fn forwarded_headers_need_a_trusted_peer() {
    let trusted = parse_network_list("10.0.0.0/8");
    assert_eq!(trusted.len(), 1);
    let peer = v4(10, 1, 2, 3);
    let outside = v4(203, 0, 113, 9);
    let claimed = v4(1, 2, 3, 4);
    assert_eq!(extract_client_ip(Some(claimed), None, peer, &trusted), claimed);
    assert_eq!(extract_client_ip(None, Some(claimed), peer, &trusted), claimed);
    assert_eq!(extract_client_ip(None, None, peer, &trusted), peer);
    assert_eq!(extract_client_ip(Some(claimed), None, outside, &trusted), outside);
    assert_eq!(extract_client_ip(Some(claimed), None, peer, &[]), peer);
    assert_eq!(first_forwarded(" 1.2.3.4 , 5.6.7.8"), "1.2.3.4");
}

#[test]
fn networks_contain_their_addresses() {
    let n: IpNetwork = parse_network_list("192.168.0.0/16")[0];
    assert!(n.contains(&v4(192, 168, 4, 5)));
    assert!(!n.contains(&v4(192, 169, 0, 1)));
    assert!(parse_network_list("not a cidr").is_empty());
    assert_eq!(parse_network_list("10.0.0.0/8, junk ,::1/128").len(), 2);
    let n6 = parse_network_list("fc00::/7")[0];
    assert!(n6.contains(&v6([0xfd12, 0, 0, 0, 0, 0, 0, 1])));
}

// ── stored webhooks ──────────────────────────────────────────────────────

fn row(events: &str) -> WebhookRow {
    WebhookRow {
        id: "w1".into(),
        name: "hook".into(),
        url: "https://example.com/h".into(),
        secret: Some("s3cret".into()),
        events: events.into(),
        enabled: true,
        created_at: "c".into(),
        updated_at: "u".into(),
    }
}

#[test]
fn stored_events_read_back() {
    let events = vec!["completed".to_string(), "created".to_string()];
    let text = events_json(&events);
    assert_eq!(text, r#"["completed","created"]"#);
    let cfg: WebhookConfig = row_to_config(row(&text)).unwrap();
    assert_eq!(cfg.events, events);
    assert!(matches!(row_to_config(row("not json")), Err(TusError::Internal(_))));
    let all = rows_to_configs(vec![row(&text), row("[]")]).unwrap();
    assert_eq!(all.len(), 2);
    assert!(rows_to_configs(vec![row(&text), row("{")]).is_err());
}

#[test]
fn webhook_response_hides_the_secret() {
    let cfg = row_to_config(row("[\"completed\"]")).unwrap();
    let r = WebhookResponse::from(cfg);
    assert!(r.has_secret);
    assert_eq!(r.events, vec!["completed".to_string()]);
}

// ── deliveries ───────────────────────────────────────────────────────────

#[test]
fn signature_is_hmac_sha256_hex() {
    let body = br#"{"a":1}"#;
    let mut mac = hmac::Hmac::<sha2::Sha256>::new_from_slice(b"key").unwrap();
    mac.update(body);
    let expected = format!("sha256={}", hex::encode(mac.finalize().into_bytes()));
    assert_eq!(signature_header("key", body), expected);
    assert_ne!(signature_header("other", body), expected);
}

#[test]
fn retry_delays_follow_configuration() {
    assert_eq!(retry_delay(&[1, 4], 1), 1);
    assert_eq!(retry_delay(&[1, 4], 2), 4);
    assert_eq!(retry_delay(&[1, 4], 5), 4);
    assert_eq!(retry_delay(&[], 3), 1);
}

#[test]
fn response_bodies_are_capped() {
    let mut kept = Vec::new();
    assert!(keep_response_chunk(&mut kept, &[1u8; 3000]));
    assert!(keep_response_chunk(&mut kept, &[2u8; 3000]));
    assert_eq!(kept.len(), MAX_RESPONSE_BODY);
    assert_eq!(kept[3000], 2);
    assert!(!keep_response_chunk(&mut kept, &[3u8; 10]));
    assert_eq!(kept.len(), MAX_RESPONSE_BODY);
}

#[test]
fn delivery_retries_until_success() {
    let mut st = DeliveryState::new();
    let step = st.record_attempt(1, AttemptResult::Failed { error: "refused".into() }, 3, &[2, 5]);
    assert_eq!(step, DeliveryStep::Retry { delay_secs: 2 });
    assert_eq!(st.last_error.as_deref(), Some("refused"));
    let step = st.record_attempt(2, AttemptResult::Response { status: 500, body: b"oops".to_vec() }, 3, &[2, 5]);
    assert_eq!(step, DeliveryStep::Retry { delay_secs: 5 });
    assert_eq!(st.last_error.as_deref(), Some("HTTP 500"));
    assert_eq!(st.last_status, Some(500));
    assert_eq!(st.outcome(), "failure");
    let step = st.record_attempt(3, AttemptResult::Response { status: 204, body: Vec::new() }, 3, &[2, 5]);
    assert_eq!(step, DeliveryStep::Finished);
    assert_eq!(st.outcome(), "success");
    let rec = st.into_record("d1".into(), "w1".into(), "u1".into(), "completed".into(), b"{}");
    assert_eq!(rec.attempts, 3);
    assert_eq!(rec.status_code, Some(204));
    assert_eq!(rec.error, None);
    assert_eq!(rec.payload, "{}");
}

#[test]
fn delivery_gives_up_after_the_last_attempt() {
    let mut st = DeliveryState::new();
    let step = st.record_attempt(2, AttemptResult::Response { status: 404, body: b"missing".to_vec() }, 2, &[1]);
    assert_eq!(step, DeliveryStep::Finished);
    assert_eq!(st.last_body.as_deref(), Some("missing"));
    assert_eq!(st.outcome(), "failure");
}
