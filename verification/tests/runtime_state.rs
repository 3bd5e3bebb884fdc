use autodns::cache::{entry_for, serve_entry, serve_lookup, CacheKey, CacheSettings, DnsCache};
use autodns::config::CoreConfig;
use autodns::dns_message::build_query;
use autodns::health::{
    FailureKind, HealthMonitor, HEALTHCHECK_FAILURE_RETRY_MAX_DELAY_NS, HEALTHCHECK_RECOVERY_CONFIRM_DELAY_NS,
};
use autodns::logging::{LogBuffer, LogLevel};
use autodns::pool::{PoolStatus, UpstreamPoolState};
use autodns::wire::{rr_ttls, write_rr_header, CLASS_IN, TYPE_A};

const MS: u128 = 1_000_000;
const SEC: u128 = 1_000_000_000;
const NOW_MS: u64 = 5_000;

fn monitor(enabled: bool, failure_threshold: u32, recovery_threshold: u32) -> HealthMonitor {
    HealthMonitor::new(enabled, failure_threshold, recovery_threshold, vec!["upstream".to_string()])
}

fn eligibility(health: &HealthMonitor, names: &[&str]) -> Vec<bool> {
    let names: Vec<String> = names.iter().map(|n| n.to_string()).collect();
    health.query_eligibility(&names)
}

fn assert_delay_between(value: u128, min: u128, max: u128) {
    assert!(value >= min && value <= max, "expected {value} between {min} and {max}");
}

#[test]
fn health_restore_returns_upstream_to_query_pool_immediately() {
    let mut health = monitor(true, 2, 3);

    health.record_failure("upstream", FailureKind::Transport, "failure".into());
    assert_eq!(eligibility(&health, &["upstream"]), vec![false]);
    health.restore("upstream");
    assert_eq!(eligibility(&health, &["upstream"]), vec![true]);
    assert!(health.snapshot().healthy("upstream"));

    health.record_failure("upstream", FailureKind::Transport, "failure".into());
    health.record_failure("upstream", FailureKind::Transport, "failure".into());
    assert!(!health.snapshot().healthy("upstream"));
    health.restore("upstream");
    assert_eq!(eligibility(&health, &["upstream"]), vec![true]);
    assert!(health.snapshot().healthy("upstream"));
}

#[test]
fn tests_health_recent_query_success_ignores_probe_success() {
    let mut health = monitor(true, 3, 2);

    health.record_probe_success("upstream", 12);
    assert!(!health.recent_query_success("upstream", 10 * SEC, NOW_MS));

    health.record_query_success("upstream", 10, NOW_MS);
    assert!(health.recent_query_success("upstream", 10 * SEC, NOW_MS));
}

#[test]
fn dns_health_recent_query_success_ignores_probe_success() {
    let mut health = monitor(true, 3, 2);

    health.record_probe_success("upstream", 12);
    assert!(!health.recent_query_success("upstream", 10 * SEC, NOW_MS));

    health.record_query_success("upstream", 10, NOW_MS);
    assert!(health.recent_query_success("upstream", 10 * SEC, NOW_MS));
}

#[test]
fn health_recent_query_success_expires_after_window() {
    let mut health = monitor(true, 3, 2);
    health.record_query_success("upstream", 10, NOW_MS);
    assert!(health.recent_query_success("upstream", 10 * SEC, NOW_MS + 9_999));
    assert!(!health.recent_query_success("upstream", 10 * SEC, NOW_MS + 10_001));
}

#[test]
fn health_recent_query_success_does_not_pause_recovery() {
    let mut health = monitor(true, 1, 2);

    health.record_failure("upstream", FailureKind::Transport, "failure".into());
    health.record_query_success("upstream", 10, NOW_MS);

    assert!(health.recent_query_success("upstream", 10 * SEC, NOW_MS));
    assert!(!health.recent_healthy_query_success("upstream", 10 * SEC, NOW_MS));
}

#[test]
fn health_degraded_upstream_ignores_recent_query_success_for_probe_skip() {
    let mut health = monitor(true, 3, 2);

    health.record_query_success("upstream", 10, NOW_MS);
    assert!(health.recent_healthy_query_success("upstream", 10 * SEC, NOW_MS));

    health.record_failure("upstream", FailureKind::Transport, "failure".into());

    assert!(health.recent_query_success("upstream", 10 * SEC, NOW_MS));
    assert!(!health.recent_healthy_query_success("upstream", 10 * SEC, NOW_MS));
}

#[test]
fn tests_health_probe_delay_backs_off_after_unhealthy() {
    let mut health = monitor(true, 2, 1);
    let interval = 30 * SEC;

    health.record_probe_failure("upstream", "first failure".into());
    assert_delay_between(health.probe_delay("upstream", interval), 800 * MS, 1200 * MS);

    health.record_probe_failure("upstream", "second failure".into());
    assert_delay_between(health.probe_delay("upstream", interval), 1600 * MS, 2400 * MS);

    health.record_probe_failure("upstream", "third failure".into());
    assert_delay_between(health.probe_delay("upstream", interval), 3200 * MS, 4800 * MS);

    health.record_probe_success("upstream", 8);
    assert_eq!(health.probe_delay("upstream", interval), interval);
}

#[test]
fn health_probe_delay_caps_failure_backoff() {
    let mut health = monitor(true, 1, 1);
    let interval = 60 * SEC;

    for index in 0..10 {
        health.record_probe_failure("upstream", format!("failure {index}"));
    }

    assert_delay_between(health.probe_delay("upstream", interval), 24 * SEC, HEALTHCHECK_FAILURE_RETRY_MAX_DELAY_NS);
}

#[test]
fn health_recovery_probe_uses_short_confirm_delay() {
    let mut health = monitor(true, 1, 2);
    let interval = 30 * SEC;

    health.record_failure("upstream", FailureKind::Transport, "failure".into());
    assert_delay_between(health.probe_delay("upstream", interval), 800 * MS, 1200 * MS);

    health.record_probe_success("upstream", 8);
    assert_eq!(health.probe_delay("upstream", interval), HEALTHCHECK_RECOVERY_CONFIRM_DELAY_NS);

    health.record_probe_success("upstream", 9);
    assert_eq!(health.probe_delay("upstream", interval), interval);
}

#[test]
fn health_negative_response_does_not_degrade_upstream() {
    let mut health = monitor(true, 1, 1);

    health.record_failure("upstream", FailureKind::Transport, "first failure".into());
    assert_eq!(eligibility(&health, &["upstream"]), vec![false]);

    health.record_negative_response("upstream", 9, NOW_MS);

    let snapshot = health.snapshot();
    assert!(snapshot.healthy("upstream"));
    assert_eq!(eligibility(&health, &["upstream"]), vec![true]);
}

#[test]
fn health_transport_failure_degrades_and_success_recovers_upstream() {
    let mut health = monitor(true, 2, 1);

    health.record_failure("upstream", FailureKind::Transport, "first failure".into());
    assert!(health.snapshot().healthy("upstream"));
    assert_eq!(eligibility(&health, &["upstream"]), vec![false]);

    health.record_failure("upstream", FailureKind::Transport, "second failure".into());
    assert!(!health.snapshot().healthy("upstream"));
    assert_eq!(eligibility(&health, &["upstream"]), vec![false]);

    health.record_probe_success("upstream", 8);
    let snapshot = health.snapshot();
    assert!(snapshot.healthy("upstream"));
    assert_eq!(eligibility(&health, &["upstream"]), vec![true]);
}

#[test]
fn health_requires_configured_recovery_successes() {
    let mut health = monitor(true, 1, 2);

    health.record_failure("upstream", FailureKind::Transport, "failure".into());
    assert!(!health.snapshot().healthy("upstream"));
    assert_eq!(eligibility(&health, &["upstream"]), vec![false]);

    health.record_probe_success("upstream", 8);
    assert!(!health.snapshot().healthy("upstream"));
    assert_eq!(eligibility(&health, &["upstream"]), vec![false]);

    health.record_probe_success("upstream", 9);
    assert!(health.snapshot().healthy("upstream"));
    assert_eq!(eligibility(&health, &["upstream"]), vec![true]);
}

#[test]
fn health_ejects_from_query_pool_before_displaying_unhealthy() {
    let mut health = monitor(true, 3, 2);

    health.record_failure("upstream", FailureKind::Transport, "first failure".into());

    assert!(health.snapshot().healthy("upstream"));
    assert_eq!(eligibility(&health, &["upstream"]), vec![false]);

    health.record_probe_success("upstream", 8);
    assert_eq!(eligibility(&health, &["upstream"]), vec![false]);

    health.record_probe_success("upstream", 9);
    assert!(health.snapshot().healthy("upstream"));
    assert_eq!(eligibility(&health, &["upstream"]), vec![true]);
}

#[test]
fn health_recovery_probe_does_not_wait_full_interval() {
    let mut health = monitor(true, 1, 2);
    let interval = 30 * SEC;

    health.record_failure("upstream", FailureKind::Transport, "failure".into());
    assert_delay_between(health.probe_delay("upstream", interval), 800 * MS, 1200 * MS);

    health.record_probe_success("upstream", 8);
    assert_eq!(health.probe_delay("upstream", interval), HEALTHCHECK_RECOVERY_CONFIRM_DELAY_NS);

    health.record_probe_success("upstream", 9);
    assert_eq!(health.probe_delay("upstream", interval), interval);
}

#[test]
fn health_retryable_response_removes_upstream_from_query_pool() {
    let mut health = monitor(true, 1, 1);

    health.record_failure("upstream", FailureKind::RetryableResponse, "retryable response".into());

    let snapshot = health.snapshot();
    assert!(!snapshot.healthy("upstream"));
    assert_eq!(eligibility(&health, &["upstream"]), vec![false]);
}

#[test]
fn health_disabled_keeps_all_upstreams_query_eligible() {
    let mut health = monitor(false, 1, 1);

    health.record_failure("upstream", FailureKind::Transport, "failure".into());

    assert_eq!(eligibility(&health, &["upstream", "missing"]), vec![true, true]);
}

#[test]
fn health_diagnostics_report_failures() {
    let mut health = monitor(true, 2, 1);
    health.record_failure("upstream", FailureKind::Transport, "timeout".into());
    let diagnostics = health.snapshot().diagnostics("upstream");
    assert_eq!(diagnostics.failure_count, 1);
    assert_eq!(diagnostics.last_error.as_deref(), Some("timeout"));
    assert!(!health.snapshot().healthy("missing"));
}

#[test]
fn upstream_pool_transport_failure_degrades_after_threshold() {
    let mut client = PoolStatus::new(2);

    assert!(!client.should_skip_for_query());
    client.mark_transport_failure();
    assert_eq!(client.state, UpstreamPoolState::Cold);
    assert!(!client.should_skip_for_query());

    client.mark_transport_failure();
    assert_eq!(client.state, UpstreamPoolState::Degraded);
    assert!(!client.should_skip_for_query());

    client.mark_ready();
    assert_eq!(client.state, UpstreamPoolState::Ready);
    assert!(!client.should_skip_for_query());
}

#[test]
fn upstream_pool_only_connecting_skips_without_health_state() {
    let mut client = PoolStatus::new(2);
    client.state = UpstreamPoolState::Degraded;
    assert!(!client.should_skip_for_query());

    client.state = UpstreamPoolState::Recovering;
    assert!(!client.should_skip_for_query());

    client.state = UpstreamPoolState::Connecting;
    assert!(client.should_skip_for_query());
}

#[test]
fn upstream_pool_singleflight_marks_concurrent_connecting() {
    let mut client = PoolStatus::new(2);

    assert!(client.begin_connect(true));
    assert_eq!(client.state, UpstreamPoolState::Connecting);
    assert!(client.should_skip_for_query());

    assert!(!client.begin_connect(false));

    client.mark_ready();
    assert!(!client.should_skip_for_query());
}

#[test]
fn upstream_pool_state_bytes_round_trip() {
    for state in [
        UpstreamPoolState::Ready,
        UpstreamPoolState::Cold,
        UpstreamPoolState::Connecting,
        UpstreamPoolState::Degraded,
        UpstreamPoolState::Recovering,
    ] {
        assert_eq!(UpstreamPoolState::from_u8(state.to_u8()), state);
    }
    let mut degraded = PoolStatus::new(1);
    degraded.mark_transport_failure();
    assert!(degraded.begin_connect(true));
    assert_eq!(degraded.state, UpstreamPoolState::Recovering);
}

#[test]
fn log_buffer_filters_below_min_level() {
    let mut logs = LogBuffer::new(10);
    logs.set_level("warn");

    logs.push("debug", "debug message");
    logs.push("info", "info message");
    logs.push("warn", "warn message");
    logs.push("error", "error message");

    let entries = logs.entries();
    assert_eq!(entries.len(), 2);
    assert_eq!(entries[0].level, "warn");
    assert_eq!(entries[1].level, "error");
}

#[test]
fn log_buffer_drops_oldest_and_numbers_entries() {
    let mut logs = LogBuffer::new(2);
    assert!(logs.push("INFO", "one").is_some());
    logs.push("info", "two");
    logs.push("info", "three");
    let entries = logs.entries();
    assert_eq!(entries.iter().map(|e| e.message.as_str()).collect::<Vec<_>>(), vec!["two", "three"]);
    assert_eq!(entries.iter().map(|e| e.id).collect::<Vec<_>>(), vec![2, 3]);
    assert_eq!(logs.entries_since(2).len(), 1);
    assert_eq!(LogLevel::from_str("WARN"), LogLevel::Warn);
    assert_eq!(LogLevel::from_str("verbose"), LogLevel::Info);
}

fn cache_key(qname: &str) -> CacheKey {
    CacheKey { qname: qname.to_string(), qtype: TYPE_A, qclass: CLASS_IN, route_id: 0 }
}

fn write_a_rr_with_ttl(resp: &mut Vec<u8>, ttl: u32) {
    write_rr_header(resp, TYPE_A, CLASS_IN, ttl, 4);
    resp.extend_from_slice(&[192, 0, 2, 10]);
}

fn success_response_with_answer(id: u16) -> Vec<u8> {
    let mut resp = build_query("cache.example", TYPE_A);
    resp[0..2].copy_from_slice(&id.to_be_bytes());
    resp[2] = 0x81;
    resp[3] = 0x80;
    resp[6..8].copy_from_slice(&1u16.to_be_bytes());
    write_a_rr_with_ttl(&mut resp, 60);
    resp
}

fn cache_config(min_ttl: u32, max_ttl: u32) -> CoreConfig {
    let mut cfg = CoreConfig::default();
    cfg.cache.enabled = true;
    cfg.cache.max_entries = 2;
    cfg.cache.max_entry_size = 512;
    cfg.cache.min_ttl = min_ttl;
    cfg.cache.max_ttl = max_ttl;
    cfg
}

fn check_cache_respects_max_entries() {
    let cache = DnsCache::new(&cache_config(1, 60));
    let resp = success_response_with_answer(1);

    cache.set(cache_key("a.example"), &resp, false, "", "", String::new(), NOW_MS);
    cache.set(cache_key("b.example"), &resp, false, "", "", String::new(), NOW_MS);
    assert!(cache.get(&cache_key("a.example"), 2, NOW_MS).is_some());
    cache.set(cache_key("c.example"), &resp, false, "", "", String::new(), NOW_MS);
    cache.set(cache_key("d.example"), &resp, false, "", "", String::new(), NOW_MS);

    assert!(cache.clear() <= 2);
}

#[test]
fn tests_dns_cache_respects_max_entries() {
    check_cache_respects_max_entries();
}

#[test]
fn dns_dns_cache_respects_max_entries() {
    check_cache_respects_max_entries();
}

fn check_cache_rewrites_ttl() {
    let cache = DnsCache::new(&cache_config(0, 120));
    let mut resp = build_query("ttl.example", TYPE_A);
    resp[2] = 0x81;
    resp[3] = 0x80;
    resp[6..8].copy_from_slice(&2u16.to_be_bytes());
    write_a_rr_with_ttl(&mut resp, 30);
    write_a_rr_with_ttl(&mut resp, 90);

    cache.set(cache_key("ttl.example"), &resp, false, "", "", String::new(), NOW_MS);
    let cached = cache.get(&cache_key("ttl.example"), 9, NOW_MS + 5_000).expect("cache hit");
    let ttls = rr_ttls(&cached.response).expect("parse cached ttl");

    assert_eq!(u16::from_be_bytes([cached.response[0], cached.response[1]]), 9);
    assert_eq!(ttls.len(), 2);
    assert!(ttls[0] <= 30);
    assert!(ttls[1] <= 30);
    assert_eq!(ttls, vec![25, 25]);
    assert!(cache.get(&cache_key("ttl.example"), 9, NOW_MS + 30_000).is_none());
}

#[test]
fn tests_dns_cache_rewrites_ttl_from_remaining_lifetime() {
    check_cache_rewrites_ttl();
}

#[test]
fn dns_dns_cache_rewrites_ttl_from_remaining_lifetime() {
    check_cache_rewrites_ttl();
}

#[test]
fn dns_cache_is_off_when_disabled() {
    let mut cfg = cache_config(0, 120);
    cfg.cache.enabled = false;
    let cache = DnsCache::new(&cfg);
    let resp = success_response_with_answer(1);
    cache.set(cache_key("off.example"), &resp, false, "", "", String::new(), NOW_MS);
    assert!(cache.get(&cache_key("off.example"), 1, NOW_MS).is_none());
}

#[test]
fn cache_entry_serves_the_kept_response_until_it_expires() {
    let settings = CacheSettings {
        enabled: true,
        max_entries: 10,
        max_entry_size: 512,
        min_ttl: 10,
        max_ttl: 600,
        negative_ttl: 30,
    };
    let resp = success_response_with_answer(1);
    let entry = entry_for(settings, &resp, false, "up", "udp", "1.2.3.4".to_string(), 1_000).expect("kept");
    assert_eq!(entry.expires_at_ms, 61_000);
    assert_eq!(entry.original_ttls, vec![60]);

    let hit = serve_entry(&entry, 0x0a0b, 31_000).expect("still fresh");
    assert_eq!(&hit.response[..2], &[0x0a, 0x0b]);
    assert_eq!(rr_ttls(&hit.response).unwrap(), vec![30]);
    assert_eq!(&hit.response[2..], &{
        let mut expected = resp.clone();
        let n = expected.len();
        expected[n - 10..n - 6].copy_from_slice(&30u32.to_be_bytes());
        expected
    }[2..]);
    assert_eq!(hit.upstream_name, "up");
    assert_eq!(hit.answers, "1.2.3.4");
    assert!(serve_entry(&entry, 1, 61_000).is_none());

    let negative = entry_for(settings, &resp, true, "up", "udp", "ignored".to_string(), 0).expect("kept");
    assert_eq!(negative.expires_at_ms, 30_000);
    assert!(negative.answers.is_empty());
    let hit = serve_entry(&negative, 9, 29_999).expect("fresh");
    assert_eq!(&hit.response[..2], &[0, 9]);
    assert_eq!(&hit.response[2..], &resp[2..]);
}

#[test]
fn health_stays_unhealthy_for_failures_past_the_threshold() {
    let mut health = monitor(true, 2, 3);
    for k in 1..=5u64 {
        health.record_failure("upstream", FailureKind::Transport, format!("timeout {k}"));
        assert_eq!(health.snapshot().healthy("upstream"), k < 2);
        assert_eq!(eligibility(&health, &["upstream"]), vec![false]);
        let diag = health.snapshot().diagnostics("upstream");
        assert_eq!(diag.failure_count, k);
        assert_eq!(diag.last_error.as_deref(), Some(format!("timeout {k}").as_str()));
    }
}

#[test]
fn health_stays_in_pool_for_successes_past_the_recovery_threshold() {
    let mut health = monitor(true, 1, 2);
    health.record_failure("upstream", FailureKind::Transport, "timeout".to_string());
    for m in 1..=4u32 {
        health.record_probe_success("upstream", 3);
        assert_eq!(eligibility(&health, &["upstream"]), vec![m >= 2]);
        if m >= 2 {
            assert!(health.snapshot().healthy("upstream"));
        }
    }
}

#[test]
fn cache_lookup_serves_fresh_entries_and_drops_expired_ones() {
    let settings = CacheSettings {
        enabled: true,
        max_entries: 10,
        max_entry_size: 512,
        min_ttl: 10,
        max_ttl: 600,
        negative_ttl: 30,
    };
    let resp = success_response_with_answer(1);
    let entry = entry_for(settings, &resp, false, "up", "udp", "1.2.3.4".to_string(), 1_000).expect("kept");

    let (hit, drop_entry) = serve_lookup(None, 7, 2_000);
    assert!(hit.is_none() && !drop_entry);

    let (hit, drop_entry) = serve_lookup(Some(&entry), 7, 31_000);
    let hit = hit.expect("fresh entry is served");
    assert!(!drop_entry);
    assert_eq!(&hit.response[..2], &[0, 7]);
    assert_eq!(rr_ttls(&hit.response).unwrap(), vec![30]);
    assert_eq!(hit.upstream_name, "up");

    let (hit, drop_entry) = serve_lookup(Some(&entry), 7, 61_000);
    assert!(hit.is_none() && drop_entry);
}

#[test]
fn cache_gives_back_what_it_kept_under_the_same_key_only() {
    let mut cfg = autodns::config::default_local_config(autodns::environment::AppEnvironment::Test);
    cfg.cache.enabled = true;
    cfg.cache.max_entries = 10;
    cfg.cache.max_entry_size = 4096;
    let cache = DnsCache::new(&cfg);
    let resp = success_response_with_answer(1);
    cache.set(cache_key("kept.example"), &resp, false, "up", "udp", String::new(), NOW_MS);
    let hit = cache.get(&cache_key("kept.example"), 0x1234, NOW_MS + 1_000).expect("hit");
    assert_eq!(&hit.response[..2], &[0x12, 0x34]);
    assert_eq!(&hit.response[2..rr_ttl_start(&hit.response)], &resp[2..rr_ttl_start(&resp)]);
    assert!(cache.get(&cache_key("other.example"), 1, NOW_MS + 1_000).is_none());
    let other_route = CacheKey { route_id: 1, ..cache_key("kept.example") };
    assert!(cache.get(&other_route, 1, NOW_MS + 1_000).is_none());
}

fn rr_ttl_start(resp: &[u8]) -> usize {
    resp.len() - 10
}
