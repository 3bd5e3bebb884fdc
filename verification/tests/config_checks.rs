use autodns::config::{
    core_config_from_desktop, database_path, default_local_config, desktop_config_from_core, CoreConfig, CoreProxyConfig,
    CoreUpstreamConfig,
};
use autodns::duration::{duration_fits_text, parse_go_duration, DurationError};
use autodns::environment::AppEnvironment;
use autodns::resolver_plan::{health_probe_plan, probe_stagger_ms, resolver_plan, PlanError, DEFAULT_RESOLVER_TIMEOUT_NS};
use std::path::Path;

fn config_with_listener_and_upstream(listen: &str, endpoint: &str) -> CoreConfig {
    let mut cfg = default_local_config(AppEnvironment::Test);
    cfg.server.listen = listen.into();
    cfg.resolver.upstreams = vec![CoreUpstreamConfig {
        name: "test".into(),
        endpoint: endpoint.into(),
        server_name: String::new(),
        proxy: String::new(),
    }];
    cfg
}

#[test]
fn test_defaults_use_isolated_environment() {
    let cfg = default_local_config(AppEnvironment::Test);
    let path = database_path("/home/user/.config", AppEnvironment::Test);
    let path = Path::new(&path);

    assert_eq!(cfg.server.listen, "127.0.0.1:15453");
    assert_eq!(
        path.parent().and_then(|parent| parent.file_name()).and_then(|name| name.to_str()),
        Some("autodns-test")
    );
    assert_eq!(path.file_name().and_then(|name| name.to_str()), Some("autodns.sqlite3"));
}

#[test]
fn apply_defaults_sets_resolver_timeout() {
    let mut cfg = default_local_config(AppEnvironment::Test);
    cfg.resolver.timeout.clear();

    cfg.apply_defaults();

    assert_eq!(cfg.resolver.timeout, "5s");
}

#[test]
fn validate_rejects_upstream_pointing_to_listener() {
    let cfg = config_with_listener_and_upstream("127.0.0.1:15353", "udp://127.0.0.1:15353");

    let err = cfg.validate().expect_err("upstream points back to listener");

    assert!(err.message().contains("endpoint must not point to server.listen"));
}

#[test]
fn validate_rejects_upstream_with_implicit_dns_port_pointing_to_listener() {
    let cfg = config_with_listener_and_upstream("127.0.0.1:53", "udp://127.0.0.1");

    let err = cfg.validate().expect_err("implicit port points back to listener");

    assert!(err.message().contains("endpoint must not point to server.listen"));
}

#[test]
fn validate_rejects_localhost_upstream_pointing_to_listener() {
    let cfg = config_with_listener_and_upstream("127.0.0.1:15353", "tcp://localhost:15353");

    let err = cfg.validate().expect_err("localhost points back to listener");

    assert!(err.message().contains("endpoint must not point to server.listen"));
}

#[test]
fn validate_rejects_loopback_upstream_when_listener_is_unspecified() {
    let cfg = config_with_listener_and_upstream("0.0.0.0:53", "udp://127.0.0.1:53");

    let err = cfg.validate().expect_err("loopback points back to unspecified listener");

    assert!(err.message().contains("endpoint must not point to server.listen"));
}

#[test]
fn validate_allows_public_upstream_on_same_port_when_listener_is_unspecified() {
    let cfg = config_with_listener_and_upstream("0.0.0.0:53", "udp://1.1.1.1:53");

    cfg.validate().expect("public upstream is not the local listener");
}

#[test]
fn validate_rejects_domain_upstream_without_bootstrap_when_it_selects_itself() {
    let mut cfg = config_with_listener_and_upstream("127.0.0.1:15353", "https://doh.example.com/dns-query");
    cfg.resolver.bootstrap_dns.clear();
    cfg.resolver.routes = vec!["exact:doh.example.com=test".into()];

    let err = cfg.validate().expect_err("domain upstream would resolve through itself");

    assert!(err.message().contains("resolver.bootstrap_dns is required"));
}

#[test]
fn validate_allows_domain_upstream_with_bootstrap() {
    let mut cfg = config_with_listener_and_upstream("127.0.0.1:15353", "https://doh.example.com/dns-query");
    cfg.resolver.routes = vec!["exact:doh.example.com=test".into()];

    cfg.validate().expect("bootstrap avoids self resolution");
}

#[test]
fn validate_rejects_bootstrap_pointing_to_listener() {
    let mut cfg = config_with_listener_and_upstream("127.0.0.1:15353", "udp://1.1.1.1:53");
    cfg.resolver.bootstrap_dns = vec!["127.0.0.1:15353".into()];

    let err = cfg.validate().expect_err("bootstrap points back to listener");

    assert!(err.message().contains("resolver.bootstrap_dns must not point to server.listen"));
}

#[test]
fn default_configuration_is_valid() {
    for env in [AppEnvironment::Development, AppEnvironment::Production, AppEnvironment::Test] {
        let cfg = default_local_config(env);
        cfg.validate().expect("default configuration is valid");
        assert_eq!(cfg.server.tls_source, "file");
        assert_eq!(cfg.cache.max_entries, 10000);
        assert_eq!(cfg.cache.max_entry_size, 4096);
        assert_eq!(cfg.cache.min_ttl, 10);
        assert_eq!(cfg.cache.max_ttl, 600);
        assert_eq!(cfg.cache.negative_ttl, 30);
        assert_eq!(cfg.cache.eviction_policy, "lru");
        assert_eq!(cfg.healthcheck.interval, "30s");
        assert_eq!(cfg.healthcheck.timeout, "2s");
        assert_eq!(cfg.healthcheck.domain, ".");
        assert_eq!(cfg.healthcheck.failure_threshold, 3);
        assert_eq!(cfg.healthcheck.recovery_threshold, 2);
    }
}

#[test]
fn apply_defaults_twice_changes_nothing_more() {
    let mut cfg = default_local_config(AppEnvironment::Production);
    cfg.server.mode = "doh".into();
    cfg.server.path.clear();
    cfg.log.level.clear();
    cfg.apply_defaults();
    let once = format!("{cfg:?}");
    cfg.apply_defaults();
    assert_eq!(format!("{cfg:?}"), once);
    assert_eq!(cfg.server.path, "/dns-query");
    assert_eq!(cfg.log.level, "info");
}

#[test]
fn validate_reports_each_check_in_order() {
    let mut cfg = config_with_listener_and_upstream("127.0.0.1:15353", "udp://1.1.1.1:53");
    cfg.server.mode = "quic".into();
    assert_eq!(cfg.validate().unwrap_err().message(), "server.mode must be one of udp,tcp,doh,dot");

    let mut cfg = config_with_listener_and_upstream(" ", "udp://1.1.1.1:53");
    assert_eq!(cfg.validate().unwrap_err().message(), "server.listen is required");
    cfg.server.listen = "127.0.0.1:15353".into();

    cfg.server.mode = "dot".into();
    cfg.server.tls_source = "inline".into();
    assert_eq!(
        cfg.validate().unwrap_err().message(),
        "server.cert_pem and server.key_pem are required for dot mode"
    );
    cfg.server.mode = "udp".into();
    cfg.server.cert_file = "cert.pem".into();
    assert_eq!(cfg.validate().unwrap_err().message(), "TLS fields are only valid for doh or dot mode");
    cfg.server.cert_file.clear();

    cfg.resolver.bootstrap_dns = vec!["not an address".into()];
    assert_eq!(
        cfg.validate().unwrap_err().message(),
        "resolver.bootstrap_dns[0] must be an IP address with optional port"
    );
    cfg.resolver.bootstrap_dns = vec!["  ".into(), "9.9.9.9".into(), "[2001:db8::1]:5353".into()];
    cfg.validate().expect("bootstrap servers with and without port");

    cfg.resolver.default_proxy = "missing".into();
    assert_eq!(
        cfg.validate().unwrap_err().message(),
        "resolver.default_proxy references unknown proxy \"missing\""
    );
    cfg.resolver.default_proxy.clear();

    cfg.resolver.upstreams[0].endpoint = "ftp://1.1.1.1".into();
    assert_eq!(cfg.validate().unwrap_err().message(), "unsupported endpoint scheme \"ftp\"");
    cfg.resolver.upstreams[0].endpoint = "udp://1.1.1.1/path".into();
    assert_eq!(
        cfg.validate().unwrap_err().message(),
        "endpoint \"udp://1.1.1.1/path\" must not include path for udp"
    );
    cfg.resolver.upstreams[0].endpoint = "udp://1.1.1.1:53".into();

    cfg.resolver.hosts = vec!["a.example=1.2.3.4,1.2.3.4".into()];
    assert_eq!(cfg.validate().unwrap_err().message(), "hosts[0] contains duplicate ip 1.2.3.4");
    cfg.resolver.hosts.clear();

    cfg.resolver.timeout = "0s".into();
    assert_eq!(cfg.validate().unwrap_err().message(), "resolver.timeout must be > 0 when set");
    cfg.resolver.timeout = "5x".into();
    assert_eq!(cfg.validate().unwrap_err().message(), "unknown duration unit \"x\"");
    cfg.resolver.timeout = "1.5s".into();

    cfg.cache.min_ttl = 700;
    assert_eq!(
        cfg.validate().unwrap_err().message(),
        "cache.min_ttl must be <= cache.max_ttl when cache.max_ttl is set"
    );
    cfg.cache.min_ttl = 10;

    cfg.healthcheck.interval = "1..5s".into();
    assert_eq!(cfg.validate().unwrap_err().message(), "healthcheck.interval");
    cfg.healthcheck.interval = "30s".into();

    cfg.log.level = "LOUD".into();
    assert_eq!(cfg.validate().unwrap_err().message(), "log.level must be one of debug,info,warn,error");
    cfg.log.level = "WARN".into();
    cfg.validate().expect("level is compared lower-cased");
}

#[test]
fn go_durations_are_read_in_nanoseconds() {
    assert_eq!(parse_go_duration("1h30m").unwrap(), 5_400_000_000_000);
    assert_eq!(parse_go_duration(" 1.5s ").unwrap(), 1_500_000_000);
    assert_eq!(parse_go_duration("250ms").unwrap(), 250_000_000);
    assert_eq!(parse_go_duration("3us2ns").unwrap(), 3_002);
    assert_eq!(parse_go_duration("0.5ns").unwrap(), 1);
    assert_eq!(parse_go_duration("0.4ns").unwrap(), 0);
    assert_eq!(parse_go_duration("0.999ns").unwrap(), 1);
    assert_eq!(parse_go_duration("1.0000000015s").unwrap(), 1_000_000_002);
    assert_eq!(parse_go_duration("00000000000000000000000001s").unwrap(), 1_000_000_000);
    assert_eq!(parse_go_duration("0.00000000000000000000000000001h").unwrap(), 0);
    assert_eq!(parse_go_duration("0.000000000000138888888888888888888889h").unwrap(), 1);
    assert_eq!(parse_go_duration("0.000000000000138888888888888888888888h").unwrap(), 0);
}

#[test]
fn go_durations_refuse_bad_text() {
    assert!(matches!(parse_go_duration("   "), Err(DurationError::Empty)));
    assert_eq!(parse_go_duration("s").unwrap_err().message(), "invalid duration \"s\"");
    assert!(matches!(parse_go_duration("1.2.3s"), Err(DurationError::Number)));
    assert_eq!(parse_go_duration("5x").unwrap_err().message(), "unknown duration unit \"x\"");
}

#[test]
fn duration_fit_is_tested_before_reading() {
    assert!(duration_fits_text("5s"));
    assert!(duration_fits_text("bogus"));
    assert!(duration_fits_text("18446744073709551615s"));
    assert!(!duration_fits_text("18446744073709551616s"));
    assert!(!duration_fits_text("12345678901234567890123456s"));
    assert!(duration_fits_text("00000000000000000000000001s"));
    assert!(duration_fits_text("0.000000000000000000000000000000000001s"));
}

#[test]
fn build_resolver_defaults_empty_timeout() {
    let mut cfg = default_local_config(AppEnvironment::Test);
    cfg.resolver.timeout.clear();

    let plan = resolver_plan(&cfg).expect("resolver");

    assert_eq!(plan.timeout_ns, DEFAULT_RESOLVER_TIMEOUT_NS);
    assert_eq!(DEFAULT_RESOLVER_TIMEOUT_NS, 5_000_000_000);
}

#[test]
fn resolver_plan_reads_upstreams_in_order() {
    let cfg = default_local_config(AppEnvironment::Test);
    let plan = resolver_plan(&cfg).expect("resolver");
    assert_eq!(plan.default_upstreams, vec!["cloudflare".to_string(), "google".to_string()]);
    assert_eq!(plan.upstreams.len(), 2);
    assert_eq!(plan.upstreams[0].endpoint.address, "1.1.1.1:53");
    assert_eq!(plan.upstreams[1].endpoint.scheme, "udp");
    assert!(plan.upstreams[0].uses_bootstrap);
    assert!(!plan.upstreams[0].needs_http);
    assert!(plan.upstreams[0].proxy.is_none());
    assert_eq!(plan.bootstrap.len(), 2);
    assert_eq!(plan.timeout_ns, 5_000_000_000);
}

#[test]
fn resolver_plan_takes_last_proxy_of_a_name() {
    let mut cfg = default_local_config(AppEnvironment::Test);
    cfg.resolver.proxies = vec![
        CoreProxyConfig { name: "p".into(), endpoint: "socks5://10.0.0.1:1081".into() },
        CoreProxyConfig { name: "p".into(), endpoint: "socks5://user:pw@10.0.0.2".into() },
    ];
    cfg.resolver.default_proxy = "p".into();
    cfg.resolver.upstreams[1].endpoint = "https://dns.example/q".into();
    let plan = resolver_plan(&cfg).expect("resolver");
    let proxy = plan.upstreams[0].proxy.as_ref().expect("proxy");
    assert_eq!(proxy.address, "10.0.0.2:1080");
    assert_eq!(proxy.username, "user");
    assert_eq!(proxy.password, "pw");
    assert!(!plan.upstreams[0].uses_bootstrap);
    assert!(plan.upstreams[1].needs_http);
    assert_eq!(plan.upstreams[1].endpoint.url, "https://dns.example:443/q");
}

#[test]
fn resolver_plan_refuses_unknown_proxy_and_bad_timeout() {
    let mut cfg = default_local_config(AppEnvironment::Test);
    cfg.resolver.upstreams[0].proxy = "missing".into();
    let err = resolver_plan(&cfg).expect_err("unknown proxy");
    assert!(matches!(err, PlanError::UnknownProxy(_)));
    assert_eq!(err.message(), "proxy references unknown proxy \"missing\"");

    let mut cfg = default_local_config(AppEnvironment::Test);
    cfg.resolver.timeout = "5 parsecs".into();
    let err = resolver_plan(&cfg).expect_err("bad timeout");
    assert!(matches!(err, PlanError::Timeout(_)));
}

#[test]
fn health_probe_plan_reads_settings_with_fallbacks() {
    let mut cfg = default_local_config(AppEnvironment::Test);
    cfg.healthcheck.interval = "10s".into();
    cfg.healthcheck.timeout = "bogus".into();
    cfg.healthcheck.domain = String::new();
    let plan = health_probe_plan(&cfg).expect("enabled");
    assert_eq!(plan.interval_ns, 10_000_000_000);
    assert_eq!(plan.timeout_ns, 2_000_000_000);
    assert_eq!(plan.domain, ".");

    cfg.healthcheck.interval = String::new();
    cfg.healthcheck.domain = "probe.example".into();
    let plan = health_probe_plan(&cfg).expect("enabled");
    assert_eq!(plan.interval_ns, 30_000_000_000);
    assert_eq!(plan.domain, "probe.example");

    cfg.healthcheck.enabled = false;
    assert!(health_probe_plan(&cfg).is_none());
    assert_eq!(probe_stagger_ms(0), 0);
    assert_eq!(probe_stagger_ms(3), 600);
}

#[test]
fn duration_of_joined_texts_is_the_sum() {
    let a = parse_go_duration("1h").ok().expect("1h");
    let b = parse_go_duration("30m0.5s").ok().expect("30m0.5s");
    let joined = parse_go_duration("1h30m0.5s").ok().expect("joined");
    assert_eq!(joined, a + b);
    assert_eq!(joined, 5_400_500_000_000);
}

#[test]
fn duration_error_quotes_the_unit_as_debug_does() {
    let err = match parse_go_duration("5x\"y") {
        Err(e) => e,
        Ok(_) => panic!("unit accepted"),
    };
    assert_eq!(err.message(), format!("unknown duration unit {:?}", "x\"y"));
    assert_eq!(err.message(), "unknown duration unit \"x\\\"y\"");
}

#[test]
fn desktop_form_round_trip_keeps_settings_and_names() {
    let mut cfg = config_with_listener_and_upstream("127.0.0.1:5353", "udp://1.1.1.1:53");
    cfg.resolver.upstreams.push(CoreUpstreamConfig {
        name: "secure".into(),
        endpoint: "https://dns.example/dns-query".into(),
        server_name: "dns.example".into(),
        proxy: "p".into(),
    });
    cfg.resolver.proxies = vec![CoreProxyConfig { name: "p".into(), endpoint: "socks5://user:pw@127.0.0.1:1080".into() }];
    cfg.resolver.hosts = vec!["a.test=1.2.3.4".into()];
    cfg.resolver.routes = vec!["exact:b.test=test".into()];
    let back = core_config_from_desktop(desktop_config_from_core(&cfg));
    assert_eq!(back.server.listen, cfg.server.listen);
    assert_eq!(back.server.mode, cfg.server.mode);
    assert_eq!(back.resolver.hosts, cfg.resolver.hosts);
    assert_eq!(back.resolver.routes, cfg.resolver.routes);
    assert_eq!(back.resolver.timeout, cfg.resolver.timeout);
    assert_eq!(back.resolver.ipv6_enabled, cfg.resolver.ipv6_enabled);
    assert_eq!(back.cache.max_entries, cfg.cache.max_entries);
    assert_eq!(back.healthcheck.failure_threshold, cfg.healthcheck.failure_threshold);
    assert_eq!(back.log.level, cfg.log.level);
    let names: Vec<&str> = back.resolver.upstreams.iter().map(|u| u.name.as_str()).collect();
    assert_eq!(names, vec!["test", "secure"]);
    assert_eq!(back.resolver.upstreams[1].server_name, "dns.example");
    assert_eq!(back.resolver.upstreams[1].proxy, "p");
    assert_eq!(back.resolver.proxies.len(), 1);
    assert_eq!(back.resolver.proxies[0].name, "p");
}
