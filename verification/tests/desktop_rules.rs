use autodns::environment::AppEnvironment;
use autodns::certificates::{
    cert_file_name, certificate_defaults, default_cert_dir, key_file_name, normalized_list, normalized_or_default,
    normalized_valid_days, parse_ip_addresses, plan_certificate, sanitize_file_prefix, suffix_candidate,
    GenerateCertificateRequest,
};
use autodns::desktop::{DesktopPreferences, DesktopWindowState, LocalizedMessage, SystemDnsAdapter, SystemDnsSettings};
use autodns::ip_text::ip_to_string;
use autodns::net::IpAddress;
use autodns::order::{sort_dedup, text_less};
use autodns::preferences::{
    default_desktop_preferences, desktop_escape, merge_desktop_preferences, normalize_desktop_preferences,
    normalize_window_state, window_save_due, xml_escape, CLOSE_BEHAVIOR_ASK, LANGUAGE_SYSTEM, MIN_WINDOW_HEIGHT, MIN_WINDOW_WIDTH,
};
use autodns::store_rules::{
    bool_to_i64, i64_to_i32, i64_to_u128, i64_to_u32, i64_to_usize, int_to_bool, parse_host_rule, parse_route_rule, port_to_i64, route_invalid_reason,
    u128_to_i64, u32_to_i64, usize_to_i64,
};
use autodns::system_dns::{
    applied_adapter, check_apply_settings, dns_server_ip_for_listener, find_adapter, listener_dns_targets,
    localized_message_fallback, needs_restore, normalize_system_dns_settings, parse_dns_servers,
    parse_network_services, restore_adapter_ids, restored_adapter, system_dns_status,
    state_after_applied, state_after_error, state_after_restored, target_servers_match_listener,
    virtual_adapter, SystemDnsAdapterState,
};
use autodns::tray::{tray_labels, tray_text};

fn strings(items: &[&str]) -> Vec<String> {
    items.iter().map(|s| s.to_string()).collect()
}

fn listen_value(message: &LocalizedMessage) -> Option<String> {
    message
        .values
        .iter()
        .find(|(key, _)| key == "listen")
        .map(|(_, value)| value.clone())
}

#[test]
fn normalize_preferences_accepts_missing_window_state() {
    let mut prefs = default_desktop_preferences(true);
    prefs.close_behavior = "invalid".into();
    prefs.window = None;

    let normalized = normalize_desktop_preferences(prefs, true);

    assert_eq!(normalized.close_behavior, CLOSE_BEHAVIOR_ASK);
    assert!(normalized.window.is_none());
}

#[test]
fn normalize_window_state_clamps_reasonable_saved_size() {
    let state = normalize_window_state(DesktopWindowState {
        width: 640,
        height: 480,
        x: Some(40),
        y: Some(80),
        maximized: true,
    })
    .expect("window state should be retained");

    assert_eq!(state.width, MIN_WINDOW_WIDTH);
    assert_eq!(state.height, MIN_WINDOW_HEIGHT);
    assert_eq!(state.x, Some(40));
    assert_eq!(state.y, Some(80));
    assert!(state.maximized);
}

#[test]
fn normalize_window_state_rejects_tiny_saved_size() {
    let state = normalize_window_state(DesktopWindowState {
        width: 100,
        height: 100,
        x: None,
        y: None,
        maximized: false,
    });

    assert!(state.is_none());
}

#[test]
fn normalize_window_state_caps_huge_size_and_keeps_it_stable() {
    let state = normalize_window_state(DesktopWindowState {
        width: 9000,
        height: 450,
        x: None,
        y: Some(-5),
        maximized: false,
    })
    .expect("kept");
    assert_eq!(state.width, 3840);
    assert_eq!(state.height, 620);
    assert_eq!(normalize_window_state(state), Some(state));
    // exactly half the minimum is still kept
    assert!(normalize_window_state(DesktopWindowState { width: 450, height: 310, x: None, y: None, maximized: false })
        .is_some());
    assert!(normalize_window_state(DesktopWindowState { width: 449, height: 310, x: None, y: None, maximized: false })
        .is_none());
}

#[test]
fn normalize_preferences_keeps_known_values_and_is_idempotent() {
    let prefs = DesktopPreferences {
        close_behavior: "quit".into(),
        language: "klingon".into(),
        start_at_login: true,
        start_at_login_supported: false,
        tray_supported: false,
        tray_message: "old".into(),
        window: Some(DesktopWindowState { width: 1000, height: 700, x: None, y: None, maximized: false }),
    };
    let once = normalize_desktop_preferences(prefs, true);
    assert_eq!(once.close_behavior, "quit");
    assert_eq!(once.language, LANGUAGE_SYSTEM);
    assert!(once.start_at_login);
    assert!(once.start_at_login_supported);
    assert!(once.tray_supported);
    assert_eq!(once.tray_message, "Tauri desktop keeps close-to-hide behavior.");
    let twice = normalize_desktop_preferences(once.clone(), true);
    assert_eq!(twice.close_behavior, once.close_behavior);
    assert_eq!(twice.language, once.language);
    assert_eq!(twice.window, once.window);
}

#[test]
fn merged_preferences_keep_current_window_and_platform_fields() {
    let mut current = default_desktop_preferences(false);
    current.window = Some(DesktopWindowState { width: 1200, height: 800, x: Some(1), y: Some(2), maximized: true });
    current.tray_message = "current".into();
    let mut next = default_desktop_preferences(true);
    next.language = "zh-CN".into();
    let merged = merge_desktop_preferences(next, current);
    assert_eq!(merged.language, "zh-CN");
    assert_eq!(merged.window.map(|w| w.width), Some(1200));
    assert!(!merged.start_at_login_supported);
    assert_eq!(merged.tray_message, "current");
}

#[test]
fn xml_and_desktop_escapes() {
    assert_eq!(xml_escape("a&b<c>\"d'"), "a&amp;b&lt;c&gt;&quot;d&apos;");
    assert_eq!(xml_escape("plain"), "plain");
    assert_eq!(desktop_escape("/opt/app/bin"), "/opt/app/bin");
    assert_eq!(desktop_escape("C:\\a \"b\""), "\"C:\\\\a \\\"b\\\"\"");
}

#[test]
fn parses_network_services_and_skips_header() {
    let raw = "An asterisk (*) denotes that a network service is disabled.\nWi-Fi\n*Thunderbolt Bridge\nUSB 10/100/1000 LAN\n";

    let services = parse_network_services(raw);

    assert_eq!(services, vec!["Wi-Fi", "Thunderbolt Bridge", "USB 10/100/1000 LAN"]);
}

#[test]
fn parses_empty_dns_servers() {
    let servers = parse_dns_servers("There aren't any DNS Servers set on Wi-Fi.\n");

    assert!(servers.is_empty());
}

#[test]
fn parses_dns_server_lines() {
    let servers = parse_dns_servers("223.5.5.5\n119.29.29.29\n\n");

    assert_eq!(servers, vec!["223.5.5.5", "119.29.29.29"]);
}

#[test]
fn parses_lines_with_carriage_returns() {
    assert_eq!(parse_dns_servers("1.1.1.1\r\n  8.8.8.8  \r\n"), vec!["1.1.1.1", "8.8.8.8"]);
    assert_eq!(parse_network_services("***Ethernet\r\n\n"), vec!["Ethernet"]);
}

#[test]
fn listener_dns_targets_accepts_explicit_loopback_addresses_on_port_53() {
    let first = listener_dns_targets("127.0.0.1:53");
    assert_eq!(first.servers, vec!["127.0.0.1".to_string()]);
    assert!(first.can_apply);
    assert!(first.warning.is_none());

    let second = listener_dns_targets("127.0.0.53:53");
    assert_eq!(second.servers, vec!["127.0.0.53".to_string()]);
    assert!(second.can_apply);
    assert!(second.warning.is_none());

    let third = listener_dns_targets("[::1]:53");
    assert_eq!(third.servers, vec!["::1".to_string()]);
    assert!(third.can_apply);
    assert!(third.warning.is_none());
}

#[test]
fn listener_dns_targets_map_unspecified_listeners_to_loopback_targets() {
    let v4 = listener_dns_targets("0.0.0.0:53");
    assert_eq!(v4.servers, vec!["127.0.0.1".to_string()]);
    assert!(v4.can_apply);
    assert!(v4.warning.is_none());

    let v6 = listener_dns_targets("[::]:53");
    assert_eq!(v6.servers, vec!["::1".to_string()]);
    assert!(v6.can_apply);
    assert!(v6.warning.is_none());
}

#[test]
fn listener_dns_targets_rejects_non_standard_or_invalid_listener() {
    let non_standard = listener_dns_targets("127.0.0.1:15453");
    assert_eq!(non_standard.servers, vec!["127.0.0.1"]);
    assert!(!non_standard.can_apply);
    let warning = non_standard.warning.unwrap();
    assert_eq!(warning.code, "systemDns.warning.listenPortNot53");
    assert_eq!(listen_value(&warning), Some("127.0.0.1:15453".to_string()));

    let invalid = listener_dns_targets("127.0.0.1");
    assert!(invalid.servers.is_empty());
    assert!(!invalid.can_apply);
    assert_eq!(invalid.warning.unwrap().code, "systemDns.warning.invalidListenAddress");
}

#[test]
fn target_servers_match_only_listener_derived_single_ip() {
    assert!(target_servers_match_listener("0.0.0.0:53", &vec!["0.0.0.0".to_string()]));
    assert!(!target_servers_match_listener("0.0.0.0:53", &vec!["127.0.0.1".to_string()]));
    assert!(!target_servers_match_listener(
        "0.0.0.0:53",
        &vec!["0.0.0.0".to_string(), "127.0.0.1".to_string()]
    ));
    assert!(!target_servers_match_listener("127.0.0.1", &vec!["127.0.0.1".to_string()]));
}

#[test]
fn ip_addresses_display_like_the_standard_library() {
    let cases: Vec<(IpAddress, &str)> = vec![
        (IpAddress::V4(192, 0, 2, 1), "192.0.2.1"),
        (IpAddress::V6(0, 0, 0, 0, 0, 0, 0, 1), "::1"),
        (IpAddress::V6(0, 0, 0, 0, 0, 0, 0, 0), "::"),
        (IpAddress::V6(0x2001, 0xdb8, 0, 0, 1, 0, 0, 1), "2001:db8::1:0:0:1"),
        (IpAddress::V6(0x2001, 0xdb8, 0, 1, 0, 0, 0, 1), "2001:db8:0:1::1"),
        (IpAddress::V6(0, 0, 0, 0, 0, 0xffff, 0xc000, 0x0201), "::ffff:192.0.2.1"),
        (IpAddress::V6(1, 0, 2, 0, 3, 0, 4, 0), "1:0:2:0:3:0:4:0"),
        (IpAddress::V6(0xfe80, 0, 0, 0, 0xabcd, 0, 0, 0), "fe80::abcd:0:0:0"),
        (IpAddress::V6(0xfe80, 0, 0, 0, 0, 0, 0, 0), "fe80::"),
    ];
    for (ip, expected) in cases {
        assert_eq!(ip_to_string(ip), expected);
    }
    assert_eq!(dns_server_ip_for_listener(IpAddress::V4(0, 0, 0, 0)), "127.0.0.1");
    assert_eq!(dns_server_ip_for_listener(IpAddress::V6(0, 0, 0, 0, 0, 0, 0, 0)), "::1");
    assert_eq!(dns_server_ip_for_listener(IpAddress::V4(10, 0, 0, 1)), "10.0.0.1");
}

#[test]
fn virtual_adapters_are_recognized_case_insensitively() {
    assert!(virtual_adapter("Tailscale", ""));
    assert!(virtual_adapter("Ethernet 2", "Hyper-V Virtual Ethernet Adapter"));
    assert!(virtual_adapter("utun3", ""));
    assert!(!virtual_adapter("Wi-Fi", "Intel Wireless"));
    assert!(!virtual_adapter("Ethernet", ""));
}

#[test]
fn message_fallback_fills_placeholders_in_order() {
    let message = LocalizedMessage {
        code: "x".into(),
        message: "listen {listen} then {listen} and {port}".into(),
        values: vec![("listen".into(), "1.2.3.4".into()), ("port".into(), "53".into())],
    };
    assert_eq!(localized_message_fallback(&message), "listen 1.2.3.4 then 1.2.3.4 and 53");
}

#[test]
fn saved_settings_are_sorted_deduplicated_and_trimmed() {
    let settings = SystemDnsSettings {
        enabled: true,
        target_servers: strings(&[" 127.0.0.1 ", "", "   ", "::1"]),
        selected_adapter_ids: strings(&["b", "a", "b", "c", "a"]),
    };
    let normalized = normalize_system_dns_settings(settings);
    assert!(normalized.enabled);
    assert_eq!(normalized.selected_adapter_ids, strings(&["a", "b", "c"]));
    assert_eq!(normalized.target_servers, strings(&["127.0.0.1", "::1"]));
}

#[test]
fn sort_dedup_orders_by_characters() {
    assert_eq!(sort_dedup(strings(&["b", "ab", "a", "", "ab", "B"])), strings(&["", "B", "a", "ab", "b"]));
    assert!(text_less("abc", "abd"));
    assert!(text_less("ab", "abc"));
    assert!(!text_less("abc", "abc"));
    assert!(!text_less("b", "a"));
}

fn adapter(id: &str, status: &str, virtual_adapter: bool) -> SystemDnsAdapter {
    SystemDnsAdapter {
        id: id.into(),
        name: id.into(),
        description: String::new(),
        status: status.into(),
        kind: "test".into(),
        dns_servers: strings(&["192.0.2.1"]),
        selected: false,
        managed: false,
        virtual_adapter,
        interface_index: None,
        original_dns: None,
        last_applied_at: None,
        last_restored_at: None,
        last_error: None,
    }
}

fn stored(managed: bool, original: &[&str]) -> SystemDnsAdapterState {
    SystemDnsAdapterState {
        managed,
        original_dns: strings(original),
        last_applied_at: Some("2024-01-01".into()),
        last_restored_at: None,
        last_error: Some("boom".into()),
    }
}

#[test]
fn status_reports_adapters_targets_and_warnings() {
    let settings = SystemDnsSettings {
        enabled: true,
        target_servers: strings(&["0.0.0.0"]),
        selected_adapter_ids: strings(&["en0"]),
    };
    let adapters = vec![
        (adapter("en0", "up", false), stored(true, &["1.1.1.1"])),
        (adapter("utun1", "up", true), stored(false, &[])),
    ];
    let status = system_dns_status("0.0.0.0:15353", settings, adapters, None, "linux".into(), true);
    assert_eq!(status.local_servers, strings(&["127.0.0.1"]));
    assert_eq!(status.settings.target_servers, strings(&["127.0.0.1"]));
    assert!(!status.can_apply);
    assert!(status.adapters[0].selected);
    assert!(status.adapters[0].managed);
    assert_eq!(status.adapters[0].original_dns, Some(strings(&["1.1.1.1"])));
    assert_eq!(status.adapters[0].last_error.as_deref(), Some("boom"));
    assert!(!status.adapters[1].selected);
    assert_eq!(status.adapters[1].original_dns, None);
    let codes: Vec<&str> = status.warning_messages.iter().map(|m| m.code.as_str()).collect();
    assert_eq!(
        codes,
        vec![
            "systemDns.warning.multipleActiveAdapters",
            "systemDns.warning.virtualAdapters",
            "systemDns.warning.listenPortNot53",
        ]
    );
    assert_eq!(status.warnings.len(), 3);
    assert!(status.warnings[2].starts_with("System DNS can only set a DNS server IP."));
}

#[test]
fn status_keeps_custom_targets_and_warns_without_selection() {
    let settings = SystemDnsSettings {
        enabled: true,
        target_servers: strings(&["10.0.0.53"]),
        selected_adapter_ids: Vec::new(),
    };
    let status = system_dns_status("127.0.0.1:53", settings, Vec::new(), Some("failed".into()), "macos".into(), true);
    assert_eq!(status.settings.target_servers, strings(&["10.0.0.53"]));
    assert!(status.can_apply);
    assert_eq!(status.warnings, vec!["System DNS takeover is enabled, but no network adapter is selected."]);
    assert_eq!(status.last_error.as_deref(), Some("failed"));
}

#[test]
fn apply_checks_and_adapter_updates() {
    let mut settings = SystemDnsSettings { enabled: false, target_servers: Vec::new(), selected_adapter_ids: Vec::new() };
    assert_eq!(check_apply_settings(&settings), Err("system DNS takeover is disabled".to_string()));
    settings.enabled = true;
    assert_eq!(check_apply_settings(&settings), Err("no network adapter is selected".to_string()));
    settings.selected_adapter_ids = strings(&["en0"]);
    assert_eq!(check_apply_settings(&settings), Err("target DNS server is empty".to_string()));
    settings.target_servers = strings(&["127.0.0.1"]);
    assert_eq!(check_apply_settings(&settings), Ok(()));

    let list = vec![adapter("a", "up", false), adapter("b", "up", false)];
    assert_eq!(find_adapter(&list, "b"), Some(1));
    assert_eq!(find_adapter(&list, "z"), None);

    let applied = applied_adapter(adapter("a", "up", false), strings(&["127.0.0.1"]));
    assert_eq!(applied.dns_servers, strings(&["127.0.0.1"]));
    assert_eq!(applied.original_dns, Some(strings(&["192.0.2.1"])));
    assert!(applied.managed);
    let again = applied_adapter(applied, strings(&["::1"]));
    assert_eq!(again.original_dns, Some(strings(&["192.0.2.1"])));
    let restored = restored_adapter(again, strings(&["192.0.2.1"]));
    assert_eq!(restored.dns_servers, strings(&["192.0.2.1"]));
    assert_eq!(restored.original_dns, None);
    assert!(!restored.managed);

    assert!(needs_restore(&stored(true, &[])));
    assert!(needs_restore(&stored(false, &["1.1.1.1"])));
    assert!(!needs_restore(&stored(false, &[])));
    assert_eq!(restore_adapter_ids(strings(&["b", "a"]), strings(&["c", "a"])), strings(&["a", "b", "c"]));
}

#[test]
fn certificate_defaults_and_names() {
    let defaults = certificate_defaults(Some("/home/u/.config".into()), AppEnvironment::Test).expect("defaults");
    assert_eq!(defaults.common_name, "autodns.local");
    assert_eq!(defaults.organization, "autodns");
    assert_eq!(defaults.domains, strings(&["localhost", "autodns.local"]));
    assert_eq!(defaults.ip_addresses, strings(&["127.0.0.1", "::1"]));
    assert_eq!(defaults.valid_days, 3650);
    assert_eq!(defaults.output_dir, "/home/u/.config/autodns-test/certs");
    assert_eq!(
        certificate_defaults(None, AppEnvironment::Production).unwrap_err(),
        "user config dir is not available"
    );
    assert_eq!(default_cert_dir("/c", AppEnvironment::Production), "/c/autodns/certs");
    assert_eq!(defaults.file_prefix, "autodns-local");

    assert_eq!(cert_file_name("autodns-local", "", "ca"), "autodns-local-ca.crt");
    assert_eq!(key_file_name("autodns-local", "20240101-000000", "server"), "autodns-local-20240101-000000-server.key");
    assert_eq!(suffix_candidate("20240101-000000", 0), "20240101-000000");
    assert_eq!(suffix_candidate("20240101-000000", 12), "20240101-000000-12");
    assert_eq!(normalized_or_default("  ", "fallback"), "fallback");
    assert_eq!(normalized_or_default(" name ", "fallback"), "name");
    assert_eq!(normalized_valid_days(None), 3650);
    assert_eq!(normalized_valid_days(Some(0)), 1);
    assert_eq!(normalized_valid_days(Some(100000)), 8250);
}

#[test]
fn certificate_requests_are_normalized() {
    assert_eq!(sanitize_file_prefix("  my cert!  "), "my-cert");
    assert_eq!(sanitize_file_prefix("---"), "autodns-local");
    assert_eq!(sanitize_file_prefix("a_b-c9"), "a_b-c9");
    assert_eq!(normalized_list(strings(&[" b ", "a", "", "b"]), &["x"]), strings(&["a", "b"]));
    assert_eq!(normalized_list(strings(&["  "]), &["z", "y"]), strings(&["y", "z"]));
    assert_eq!(
        parse_ip_addresses(&strings(&["127.0.0.1", "nope"])),
        Err("invalid certificate IP address: nope".to_string())
    );
    let plan = plan_certificate(GenerateCertificateRequest {
        common_name: " ".into(),
        organization: " Org ".into(),
        domains: Vec::new(),
        ip_addresses: strings(&["::1", "127.0.0.1"]),
        valid_days: Some(30),
        output_dir: "  ".into(),
        file_prefix: "x y".into(),
    })
    .expect("plan");
    assert_eq!(plan.common_name, "autodns.local");
    assert_eq!(plan.organization, "Org");
    assert_eq!(plan.valid_days, 30);
    assert_eq!(plan.output_dir, None);
    assert_eq!(plan.file_prefix, "x-y");
    assert_eq!(plan.domains, strings(&["autodns.local", "localhost"]));
    assert_eq!(plan.ip_addresses, strings(&["127.0.0.1", "::1"]));
    assert_eq!(plan.ips, vec![IpAddress::V4(127, 0, 0, 1), IpAddress::V6(0, 0, 0, 0, 0, 0, 0, 1)]);
}

#[test]
fn store_rules_split_and_convert() {
    assert_eq!(parse_host_rule(" a.test = 1.2.3.4 "), Ok(("a.test".to_string(), "1.2.3.4".to_string())));
    assert_eq!(parse_host_rule("a.test"), Err("host rule must contain '='".to_string()));
    assert_eq!(port_to_i64("  "), Ok(None));
    assert_eq!(port_to_i64(" 853 "), Ok(Some(853)));
    assert_eq!(port_to_i64("70000"), Err("parse port \"70000\"".to_string()));
    let route = parse_route_rule(" suffix : example.com = a, ,b ").expect("route");
    assert_eq!(route.match_type, "suffix");
    assert_eq!(route.domain, "example.com");
    assert_eq!(route.upstreams, strings(&["a", "b"]));
    assert_eq!(parse_route_rule("example.com=a").err(), Some("route rule must contain ':'".to_string()));
    assert_eq!(parse_route_rule("suffix:example.com").err(), Some("route rule must contain '='".to_string()));
    assert_eq!(route_invalid_reason(&route, &strings(&["a", "b"])), "");
    assert_eq!(route_invalid_reason(&route, &strings(&["a"])), "missing upstream: b");
    let empty = parse_route_rule("exact:x=").expect("route");
    assert_eq!(route_invalid_reason(&empty, &strings(&["a"])), "no upstream selected");
    assert_eq!(bool_to_i64(true), 1);
    assert_eq!(bool_to_i64(false), 0);
    assert!(int_to_bool(-3));
    assert!(!int_to_bool(0));
    assert_eq!(usize_to_i64(7), Ok(7));
    assert_eq!(u32_to_i64(u32::MAX), 4294967295);
    assert_eq!(u128_to_i64(u128::MAX), Err("integer is too large".to_string()));
}

#[test]
fn tray_texts_follow_the_service_state() {
    let text = tray_text();
    assert_eq!(text.quit, "Quit");
    let running = tray_labels(true, "127.0.0.1:53");
    assert_eq!(running.status, "Status: Running");
    assert_eq!(running.listen, "Listen: 127.0.0.1:53");
    assert_eq!(running.toggle_service, "Stop service");
    assert!(running.restart_enabled);
    assert_eq!(running.tooltip, "Running · 127.0.0.1:53");
    let stopped = tray_labels(false, "");
    assert_eq!(stopped.status, "Status: Stopped");
    assert_eq!(stopped.listen, "Listen: -");
    assert_eq!(stopped.toggle_service, "Start service");
    assert!(!stopped.clear_cache_enabled);
    assert_eq!(stopped.tooltip, "Stopped");
}

#[test]
fn invalid_certificate_ip_is_rejected() {
    let err = plan_certificate(GenerateCertificateRequest {
        common_name: autodns::certificates::DEFAULT_COMMON_NAME.into(),
        organization: autodns::certificates::DEFAULT_ORGANIZATION.into(),
        domains: strings(&["autodns.local", "localhost"]),
        ip_addresses: vec!["not-an-ip".into()],
        valid_days: Some(30),
        output_dir: "/tmp".into(),
        file_prefix: "autodns-invalid-ip".into(),
    })
    .expect_err("invalid ip should fail");

    assert!(err.contains("invalid certificate IP address"));
}

#[test]
fn window_state_saves_are_throttled() {
    assert!(window_save_due(None, 0));
    assert!(!window_save_due(Some(1_000), 1_499));
    assert!(window_save_due(Some(1_000), 1_500));
    assert!(!window_save_due(Some(2_000), 1_000));
}

#[test]
fn restore_after_two_takeovers_gives_back_the_first_servers() {
    let before = adapter("en0", "Active", false);
    let first = applied_adapter(before.clone(), strings(&["127.0.0.1"]));
    let second = applied_adapter(first, strings(&["127.0.0.2"]));
    assert_eq!(second.original_dns, Some(strings(&["192.0.2.1"])));
    let original = second.original_dns.clone().expect("remembered");
    let back = restored_adapter(second, original);
    assert_eq!(back.dns_servers, before.dns_servers);
    assert!(!back.managed);
    assert!(back.original_dns.is_none());
    assert_eq!(back.id, before.id);
}

#[test]
fn takeover_record_keeps_first_original_until_given_back() {
    let first = state_after_applied(None, strings(&["192.0.2.1"]), "t1".to_string());
    assert!(first.managed);
    assert_eq!(first.original_dns, strings(&["192.0.2.1"]));
    assert_eq!(first.last_applied_at.as_deref(), Some("t1"));
    assert!(first.last_restored_at.is_none());

    let again = state_after_applied(Some(first.clone()), strings(&["127.0.0.1"]), "t2".to_string());
    assert_eq!(again.original_dns, strings(&["192.0.2.1"]));
    assert_eq!(again.last_applied_at.as_deref(), Some("t2"));

    let failed = state_after_error(Some(again.clone()), "boom".to_string());
    assert_eq!(failed.last_error.as_deref(), Some("boom"));
    assert!(failed.managed);
    assert_eq!(failed.original_dns, again.original_dns);

    let back = state_after_restored(Some(failed), "t3".to_string());
    assert!(!back.managed);
    assert!(back.original_dns.is_empty());
    assert_eq!(back.last_restored_at.as_deref(), Some("t3"));
    assert_eq!(back.last_applied_at.as_deref(), Some("t2"));
    assert!(back.last_error.is_none());

    let fresh = state_after_error(None, "missing".to_string());
    assert!(!fresh.managed && fresh.original_dns.is_empty());
    let reapplied = state_after_applied(Some(back), strings(&["198.51.100.1"]), "t4".to_string());
    assert_eq!(reapplied.original_dns, strings(&["198.51.100.1"]));
    assert_eq!(reapplied.last_restored_at.as_deref(), Some("t3"));
}

#[test]
fn stored_numbers_read_back_only_when_they_fit() {
    assert_eq!(i64_to_usize(42), Some(42));
    assert_eq!(i64_to_usize(-1), None);
    assert_eq!(i64_to_u32(4_294_967_295), Some(u32::MAX));
    assert_eq!(i64_to_u32(4_294_967_296), None);
    assert_eq!(i64_to_i32(-2_147_483_648), Some(i32::MIN));
    assert_eq!(i64_to_i32(2_147_483_648), None);
    assert_eq!(i64_to_u128(7), Some(7));
    assert_eq!(i64_to_u128(-7), None);
}
