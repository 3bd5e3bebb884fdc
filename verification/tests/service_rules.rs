use autodns::commands::command_error_from_message;
use autodns::environment::{
    app_dir_name, app_identifier, autostart_entry_name, default_listen_addr, product_name, tray_id, AppEnvironment,
};
use autodns::health::{classify_probe_response, ProbeOutcome};
use autodns::runtime::{listener_bind_error, BindErrorKind};
use autodns::wire::{RCODE_NAME_ERROR, RCODE_REFUSED, RCODE_SERVER_FAILURE, RCODE_SUCCESS};

fn code_of(message: &str) -> String {
    command_error_from_message(message).code
}

#[test]
fn maps_known_messages_to_codes() {
    assert_eq!(code_of("server.listen is required"), "config.serverListenRequired");
    assert_eq!(code_of("DNS service is not running"), "dns.serviceNotRunning");
    assert_eq!(code_of("system DNS takeover is disabled"), "systemDns.takeoverDisabled");
    assert_eq!(code_of("no network adapter is selected"), "systemDns.noAdapterSelected");
    assert_eq!(code_of("target DNS server is empty"), "systemDns.emptyTargetServer");
    assert_eq!(code_of("anything else"), "command.unknown");
}

#[test]
fn maps_upstream_not_found_with_name() {
    let error = command_error_from_message("upstream not found: cloudflare");
    assert_eq!(error.code, "dns.upstreamNotFound");
    assert_eq!(error.value("name").as_deref(), Some("cloudflare"));
}

#[test]
fn maps_listener_errors_with_protocol_and_listen() {
    let in_use = command_error_from_message("udp listen address 127.0.0.1:53 is already in use");
    assert_eq!(in_use.code, "dns.listenerAddressInUse");
    assert_eq!(in_use.value("protocol").as_deref(), Some("udp"));
    assert_eq!(in_use.value("listen").as_deref(), Some("127.0.0.1:53"));

    let denied = command_error_from_message("tcp listen address 0.0.0.0:53 permission denied");
    assert_eq!(denied.code, "dns.listenerPermissionDenied");
    assert_eq!(denied.value("protocol").as_deref(), Some("tcp"));

    let bind_failed = command_error_from_message("udp listen address 10.0.0.1:53 bind failed: no route");
    assert_eq!(bind_failed.code, "dns.listenerBindFailed");
    assert_eq!(bind_failed.value("reason").as_deref(), Some("no route"));
}

#[test]
fn maps_validate_error_from_its_source() {
    let mut core = autodns::config::default_local_config(AppEnvironment::Test);
    core.server.listen = String::new();
    let err = core.validate().expect_err("empty listen must be rejected");
    assert_eq!(code_of(&err.message()), "config.serverListenRequired");
}

#[test]
fn listener_bind_error_explains_port_conflict() {
    let err = listener_bind_error("UDP", "127.0.0.1:53", BindErrorKind::AddrInUse, "address in use");

    assert!(err.contains("already in use"));
    assert!(err.contains("127.0.0.1:53"));
}

#[test]
fn listener_bind_error_explains_privileged_port_permission() {
    let err = listener_bind_error("UDP", "127.0.0.1:53", BindErrorKind::PermissionDenied, "permission denied");

    assert!(err.contains("permission denied"));
}

#[test]
fn listener_bind_error_round_trips_to_its_code() {
    let err = listener_bind_error("tcp", "[::1]:53", BindErrorKind::Other, "no route");
    assert_eq!(err, "tcp listen address [::1]:53 bind failed: no route");
    let mapped = command_error_from_message(&err);
    assert_eq!(mapped.code, "dns.listenerBindFailed");
    assert_eq!(mapped.value("listen").as_deref(), Some("[::1]:53"));
}

#[test]
fn probe_response_classification_rejects_unparseable_responses() {
    assert_eq!(classify_probe_response(&[]), ProbeOutcome::InvalidResponse);
    assert_eq!(classify_probe_response(&[0x12, 0x34, 0x80]), ProbeOutcome::InvalidResponse);
    assert_eq!(
        classify_probe_response(&[0x12, 0x34, 0x80, RCODE_SERVER_FAILURE]),
        ProbeOutcome::RetryableResponse
    );
    assert_eq!(classify_probe_response(&[0x12, 0x34, 0x80, RCODE_REFUSED]), ProbeOutcome::RetryableResponse);
    assert_eq!(classify_probe_response(&[0x12, 0x34, 0x80, RCODE_SUCCESS]), ProbeOutcome::Healthy);
    assert_eq!(classify_probe_response(&[0x12, 0x34, 0x80, RCODE_NAME_ERROR]), ProbeOutcome::Healthy);
}

#[test]
fn test_environment_uses_isolated_identity() {
    let env = AppEnvironment::Test;
    assert_eq!(env, AppEnvironment::Test);
    assert_eq!(app_dir_name(env), "autodns-test");
    assert_eq!(app_identifier(env), "com.autodns.desktop.test");
    assert_eq!(product_name(env), "autodns-test");
    assert_eq!(tray_id(env), "autodns-test");
    assert_eq!(default_listen_addr(env), "127.0.0.1:15453");
    assert_eq!(autostart_entry_name(env), "autodns-test");
}

#[test]
fn production_identity_differs_from_development() {
    assert_eq!(app_dir_name(AppEnvironment::Production), "autodns");
    assert_eq!(app_dir_name(AppEnvironment::Development), "autodns-dev");
    assert_eq!(default_listen_addr(AppEnvironment::Production), "127.0.0.1:15353");
    assert_eq!(app_identifier(AppEnvironment::Development), "com.autodns.desktop.dev");
}

#[test]
fn listener_permission_error_reads_back_protocol_and_listen() {
    let err = listener_bind_error("dot", "0.0.0.0:853", BindErrorKind::PermissionDenied, "ignored");
    let mapped = command_error_from_message(&err);
    assert_eq!(mapped.code, "dns.listenerPermissionDenied");
    assert_eq!(mapped.message, err);
    assert_eq!(mapped.value("protocol").as_deref(), Some("dot"));
    assert_eq!(mapped.value("listen").as_deref(), Some("0.0.0.0:853"));
    assert_eq!(mapped.values.len(), 2);
}

#[test]
fn listener_in_use_error_reads_back_protocol_and_listen() {
    let err = listener_bind_error("udp", "127.0.0.1:53", BindErrorKind::AddrInUse, "ignored");
    let mapped = command_error_from_message(&err);
    assert_eq!(mapped.code, "dns.listenerAddressInUse");
    assert_eq!(mapped.value("protocol").as_deref(), Some("udp"));
    assert_eq!(mapped.value("listen").as_deref(), Some("127.0.0.1:53"));
}

#[test]
fn probe_query_asks_ns_of_the_root_and_a_otherwise() {
    let root = autodns::dns_message::probe_query(".");
    assert_eq!(root, autodns::dns_message::build_query(".", 2));
    let named = autodns::dns_message::probe_query("example.com");
    assert_eq!(named, autodns::dns_message::build_query("example.com", 1));
    assert_eq!(autodns::health::probe_failure_text(ProbeOutcome::Healthy), None);
    assert_eq!(
        autodns::health::probe_failure_text(ProbeOutcome::RetryableResponse).as_deref(),
        Some("healthcheck returned retryable response")
    );
    assert_eq!(
        autodns::health::probe_failure_text(ProbeOutcome::InvalidResponse).as_deref(),
        Some("healthcheck returned invalid response")
    );
}
