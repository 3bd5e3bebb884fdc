use autodns::config::default_local_config;
use autodns::desktop::{ApplyConfigAction, DesktopStatus, HealthState};
use autodns::dns_message::{build_query, parse_question};
use autodns::doh::{
    doh_post_body, doh_response, doh_route, doh_verdict, http_error_response, parse_doh_head, DohRoute, DohVerdict,
};
use autodns::environment::AppEnvironment;
use autodns::health::HealthMonitor;
use autodns::history::{
    batch_has_room, cleanup_due, history_event, should_flush, HistoryRecorderState, RecordAction, SendResult,
};
use autodns::socks5::{
    socks5_address_layout, socks5_auth_accepted, socks5_auth_request, socks5_greeting, socks5_method_choice,
    socks5_reply_address, socks5_reply_head, socks5_request, AddressLayout, AuthMethod, Socks5Error,
};
use autodns::status::{apply_config_action, running_status, stopped_status};
use autodns::wire::{write_rr_header, CLASS_IN, TYPE_A};

#[test]
fn socks5_handshake_bytes() {
    assert_eq!(socks5_greeting(false), vec![5, 1, 0]);
    assert_eq!(socks5_greeting(true), vec![5, 2, 0, 2]);
    assert_eq!(socks5_method_choice(5, 0), Ok(AuthMethod::NoAuthentication));
    assert_eq!(socks5_method_choice(5, 2), Ok(AuthMethod::UsernamePassword));
    assert_eq!(socks5_method_choice(5, 0xff), Err(Socks5Error::MethodsRejected));
    assert_eq!(socks5_method_choice(4, 0), Err(Socks5Error::MethodsRejected));
    assert_eq!(socks5_method_choice(5, 1), Err(Socks5Error::UnsupportedMethod(1)));
    assert_eq!(
        Socks5Error::UnsupportedMethod(1).message(),
        "SOCKS5 proxy selected unsupported authentication method 1"
    );
    assert_eq!(socks5_auth_request("user", "pw"), Ok(vec![1, 4, b'u', b's', b'e', b'r', 2, b'p', b'w']));
    assert_eq!(socks5_auth_request(&"x".repeat(256), ""), Err(Socks5Error::CredentialsTooLong));
    assert_eq!(socks5_auth_accepted(1, 0), Ok(()));
    assert_eq!(socks5_auth_accepted(1, 1), Err(Socks5Error::AuthenticationFailed));
}

#[test]
fn socks5_requests_and_replies() {
    let request = socks5_request(1, "dns.example:853").expect("request");
    let mut expected = vec![5, 1, 0, 3, 11];
    expected.extend_from_slice(b"dns.example");
    expected.extend_from_slice(&853u16.to_be_bytes());
    assert_eq!(request, expected);
    assert!(matches!(socks5_request(3, "no-port"), Err(Socks5Error::Address(_))));
    assert_eq!(socks5_request(1, &format!("{}:53", "h".repeat(256))), Err(Socks5Error::HostTooLong));

    assert_eq!(socks5_reply_head(5, 0, 1), Ok(1));
    assert_eq!(socks5_reply_head(4, 0, 1), Err(Socks5Error::InvalidResponse));
    assert_eq!(socks5_reply_head(5, 5, 1), Err(Socks5Error::RequestFailed(5)));
    assert_eq!(Socks5Error::RequestFailed(5).message(), "SOCKS5 request failed with reply code 5");
    assert_eq!(socks5_address_layout(1), Ok(AddressLayout::Fixed(4)));
    assert_eq!(socks5_address_layout(3), Ok(AddressLayout::LengthPrefixed));
    assert_eq!(socks5_address_layout(4), Ok(AddressLayout::Fixed(16)));
    assert_eq!(socks5_address_layout(9), Err(Socks5Error::UnsupportedAddressType(9)));

    assert_eq!(socks5_reply_address(1, &[10, 0, 0, 1], 1080), "10.0.0.1:1080");
    assert_eq!(socks5_reply_address(3, b"proxy.local", 53), "proxy.local:53");
    assert_eq!(socks5_reply_address(3, &[0xff, b'a'], 53), "\u{fffd}a:53");
    let mut v6 = [0u8; 16];
    v6[0] = 0x20;
    v6[1] = 0x01;
    v6[2] = 0x0d;
    v6[3] = 0xb8;
    v6[15] = 1;
    assert_eq!(socks5_reply_address(4, &v6, 443), "[2001:db8::1]:443");
}

#[test]
fn doh_heads_are_read() {
    let head = parse_doh_head(b"POST /dns-query HTTP/1.1\r\nHost: x\r\ncontent-LENGTH:  33 \r\nContent-Length: 7");
    assert_eq!(head.method, "POST");
    assert_eq!(head.target, "/dns-query");
    assert_eq!(head.content_length, 33);

    let bad_length = parse_doh_head(b"POST /q HTTP/1.1\r\nContent-Length: x\r\ncontent-length: 12");
    assert_eq!(bad_length.content_length, 12);

    let bare = parse_doh_head(b"  GET   /dns-query?dns=AAA  ");
    assert_eq!(bare.method, "GET");
    assert_eq!(bare.target, "/dns-query?dns=AAA");
    assert_eq!(bare.content_length, 0);

    let empty = parse_doh_head(b"");
    assert_eq!(empty.method, "");
    assert_eq!(empty.target, "");
}

#[test]
fn doh_requests_are_routed() {
    let get = parse_doh_head(b"GET /dns-query?dns=q80BAAABAAAAAAAAA3d3dwdleGFtcGxlA2NvbQAAAQAB HTTP/1.1");
    match doh_route(&get, "/dns-query") {
        DohRoute::Payload(Some(payload)) => assert_eq!(&payload[..2], &[0xab, 0xcd]),
        other => panic!("unexpected {other:?}"),
    }
    let wrong_path = parse_doh_head(b"GET /other?dns=AAAA HTTP/1.1");
    assert!(matches!(doh_route(&wrong_path, "/dns-query"), DohRoute::Payload(None)));
    let post = parse_doh_head(b"POST /dns-query?x=1 HTTP/1.1\r\nContent-Length: 4");
    assert!(matches!(doh_route(&post, "/dns-query"), DohRoute::ReadBody));
    let post_elsewhere = parse_doh_head(b"POST /nope HTTP/1.1");
    assert!(matches!(doh_route(&post_elsewhere, "/dns-query"), DohRoute::Payload(None)));
    let put = parse_doh_head(b"PUT /dns-query HTTP/1.1");
    assert!(matches!(doh_route(&put, "/dns-query"), DohRoute::MethodNotAllowed));

    let buffer = b"POST / HTTP/1.1\r\n\r\nabcdef";
    assert_eq!(doh_post_body(buffer, 15, 4), b"abcd".to_vec());
    assert_eq!(doh_post_body(buffer, 15, 40), b"abcdef".to_vec());
    assert_eq!(doh_verdict(&None), DohVerdict::BadRequest);
    assert_eq!(doh_verdict(&Some(vec![0; 65536])), DohVerdict::PayloadTooLarge);
    assert_eq!(doh_verdict(&Some(vec![0; 12])), DohVerdict::Resolve);
}

#[test]
fn http_responses_have_exact_heads() {
    assert_eq!(
        doh_response(&[1, 2]),
        b"HTTP/1.1 200 OK\r\nContent-Type: application/dns-message\r\nContent-Length: 2\r\nConnection: close\r\n\r\n\x01\x02"
            .to_vec()
    );
    assert_eq!(
        http_error_response(405, "Method Not Allowed", b"method not allowed"),
        b"HTTP/1.1 405 Method Not Allowed\r\nContent-Type: text/plain; charset=utf-8\r\nContent-Length: 18\r\nConnection: close\r\n\r\nmethod not allowed"
            .to_vec()
    );
}

#[test]
fn history_events_describe_the_answer() {
    let question = parse_question(&build_query("History.Example", TYPE_A)).expect("question");
    let mut resp = build_query("history.example", TYPE_A);
    resp[2] = 0x81;
    resp[3] = 0x80;
    resp[6..8].copy_from_slice(&1u16.to_be_bytes());
    write_rr_header(&mut resp, TYPE_A, CLASS_IN, 42, 4);
    resp.extend_from_slice(&[192, 0, 2, 1]);
    let event = history_event(&question, "2024-01-01T00:00:00Z", 12, "upstream", 3, "a", "udp", 2, &resp, "");
    assert_eq!(event.domain, "history.example");
    assert_eq!(event.record_type, "A");
    assert_eq!(event.qclass, CLASS_IN);
    assert_eq!(event.source, "upstream");
    assert_eq!(event.route_id, 3);
    assert_eq!(event.attempt_count, 2);
    assert_eq!(event.response_code, "NOERROR");
    assert_eq!(event.min_ttl, Some(42));
    let failed = history_event(&question, "t", 0, "error", -1, "", "", 0, &[0, 1], "all upstreams failed");
    assert_eq!(failed.response_code, "INVALID");
    assert_eq!(failed.min_ttl, None);
    assert_eq!(failed.error, "all upstreams failed");
}

#[test]
fn history_recorder_decisions() {
    let disabled = HistoryRecorderState::disabled();
    assert_eq!(disabled.record(), RecordAction::Skip);
    let mut recorder = HistoryRecorderState::started(true);
    assert_eq!(recorder.record(), RecordAction::Send);
    recorder.sent(SendResult::Full);
    recorder.sent(SendResult::Queued);
    recorder.sent(SendResult::Disconnected);
    assert_eq!(recorder.dropped, 1);
    recorder.set_enabled(false);
    assert_eq!(recorder.record(), RecordAction::Skip);
    assert!(should_flush(1));
    assert!(!should_flush(0));
    assert!(batch_has_room(99));
    assert!(!batch_has_room(100));
    assert!(cleanup_due(600_000));
    assert!(!cleanup_due(599_999));
}

#[test]
fn service_status_follows_the_runtime() {
    let core = default_local_config(AppEnvironment::Test);
    let names: Vec<String> = core.resolver.upstreams.iter().map(|u| u.name.clone()).collect();
    let health = HealthMonitor::new(true, 1, 1, names);
    let status = running_status(&core, &health.snapshot(), Some("now".into()));
    assert!(status.running);
    assert_eq!(status.listen, core.server.listen);
    assert_eq!(status.upstreams, 2);
    assert_eq!(status.upstream_health.len(), 2);
    assert_eq!(status.upstream_health[0].health, HealthState::Healthy);
    let stopped = stopped_status(status);
    assert!(!stopped.running);
    assert_eq!(stopped.started_at.as_deref(), Some("now"));
    assert!(stopped.upstream_health.iter().all(|u| u.health == HealthState::Unknown));
    assert_eq!(apply_config_action(false, true), ApplyConfigAction::Saved);
    assert_eq!(apply_config_action(true, true), ApplyConfigAction::HotReloaded);
    assert_eq!(apply_config_action(true, false), ApplyConfigAction::Restarted);
}

#[test]
fn default_status_is_stopped_and_empty() {
    let status = DesktopStatus::default();
    assert!(!status.running);
    assert!(status.mode.is_empty() && status.listen.is_empty() && status.config_path.is_empty());
    assert_eq!((status.upstreams, status.routes, status.default_upstreams), (0, 0, 0));
    assert!(status.started_at.is_none() && status.last_error.is_none());
    assert!(status.upstream_health.is_empty() && status.proxy_health.is_empty());
}
