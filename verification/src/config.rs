//! The core configuration: its types, the defaults filled into empty fields, the
//! conversions to and from the desktop form, and the checks a configuration must pass
//! before the DNS service runs with it.
use crate::desktop::{
    DesktopCacheConfig, DesktopConfig, DesktopConfigView, DesktopHealthcheckConfig, DesktopLogConfig,
    DesktopProxyConfig, DesktopProxyView, DesktopResolverConfig, DesktopServerConfig, DesktopUpstreamConfig,
    DesktopUpstreamView,
};
use crate::environment::{app_dir_name, default_listen_addr, AppEnvironment};
use crate::text::{chars_of, contains_char, decimal, decimal_string, str_eq, trim, trim_str};
use crate::urls::{parse_url, proxy_endpoint_with_auth, split_auth_spec, split_proxy_endpoint_auth, url_parts, with_auth_spec};
use vstd::prelude::*;

verus! {

/// The whole configuration.
#[derive(Clone, Debug)]
pub struct CoreConfig {
    pub server: CoreServerConfig,
    pub resolver: CoreResolverConfig,
    pub cache: CoreCacheConfig,
    pub healthcheck: CoreHealthcheckConfig,
    pub log: CoreLogConfig,
}

/// The listener: its mode (udp, tcp, doh, dot), address, TLS material and DoH path.
#[derive(Clone, Debug)]
pub struct CoreServerConfig {
    pub mode: String,
    pub listen: String,
    pub tls_source: String,
    pub cert_file: String,
    pub key_file: String,
    pub cert_pem: String,
    pub key_pem: String,
    pub path: String,
}

/// Upstreams, proxies, bootstrap servers, hosts, routes, timeout and IPv6.
#[derive(Clone, Debug)]
pub struct CoreResolverConfig {
    pub upstreams: Vec<CoreUpstreamConfig>,
    pub proxies: Vec<CoreProxyConfig>,
    pub bootstrap_dns: Vec<String>,
    pub default_proxy: String,
    pub hosts: Vec<String>,
    pub routes: Vec<String>,
    pub timeout: String,
    pub ipv6_enabled: bool,
}

/// One upstream: its name, endpoint URL, TLS server name and proxy.
#[derive(Clone, Debug)]
pub struct CoreUpstreamConfig {
    pub name: String,
    pub endpoint: String,
    pub server_name: String,
    pub proxy: String,
}

/// One SOCKS5 proxy.
#[derive(Clone, Debug)]
pub struct CoreProxyConfig {
    pub name: String,
    pub endpoint: String,
}

/// The answer cache.
#[derive(Clone, Debug)]
pub struct CoreCacheConfig {
    pub enabled: bool,
    pub max_entries: usize,
    pub max_entry_size: usize,
    pub min_ttl: u32,
    pub max_ttl: u32,
    pub negative_ttl: u32,
    pub eviction_policy: String,
}

/// The upstream health checks.
#[derive(Clone, Debug)]
pub struct CoreHealthcheckConfig {
    pub enabled: bool,
    pub interval: String,
    pub timeout: String,
    pub domain: String,
    pub failure_threshold: u32,
    pub recovery_threshold: u32,
}

/// The log level.
#[derive(Clone, Debug)]
pub struct CoreLogConfig {
    pub level: String,
}

/// The listener as values.
pub struct ServerView {
    pub mode: Seq<char>,
    pub listen: Seq<char>,
    pub tls_source: Seq<char>,
    pub cert_file: Seq<char>,
    pub key_file: Seq<char>,
    pub cert_pem: Seq<char>,
    pub key_pem: Seq<char>,
    pub path: Seq<char>,
}

/// An upstream as values.
pub struct UpstreamView {
    pub name: Seq<char>,
    pub endpoint: Seq<char>,
    pub server_name: Seq<char>,
    pub proxy: Seq<char>,
}

/// A proxy as values.
pub struct ProxyView {
    pub name: Seq<char>,
    pub endpoint: Seq<char>,
}

/// The resolver settings as values.
pub struct ResolverView {
    pub upstreams: Seq<UpstreamView>,
    pub proxies: Seq<ProxyView>,
    pub bootstrap_dns: Seq<Seq<char>>,
    pub default_proxy: Seq<char>,
    pub hosts: Seq<Seq<char>>,
    pub routes: Seq<Seq<char>>,
    pub timeout: Seq<char>,
    pub ipv6_enabled: bool,
}

/// The cache settings as values.
pub struct CacheView {
    pub enabled: bool,
    pub max_entries: usize,
    pub max_entry_size: usize,
    pub min_ttl: u32,
    pub max_ttl: u32,
    pub negative_ttl: u32,
    pub eviction_policy: Seq<char>,
}

/// The health check settings as values.
pub struct HealthcheckView {
    pub enabled: bool,
    pub interval: Seq<char>,
    pub timeout: Seq<char>,
    pub domain: Seq<char>,
    pub failure_threshold: u32,
    pub recovery_threshold: u32,
}

/// The whole configuration as values.
pub struct ConfigView {
    pub server: ServerView,
    pub resolver: ResolverView,
    pub cache: CacheView,
    pub healthcheck: HealthcheckView,
    pub level: Seq<char>,
}

/// The configuration with every text empty, every list empty, every number zero and
/// every switch off.
pub open spec fn empty_config_spec() -> ConfigView {
    ConfigView {
        server: ServerView {
            mode: Seq::empty(),
            listen: Seq::empty(),
            tls_source: Seq::empty(),
            cert_file: Seq::empty(),
            key_file: Seq::empty(),
            cert_pem: Seq::empty(),
            key_pem: Seq::empty(),
            path: Seq::empty(),
        },
        resolver: ResolverView {
            upstreams: Seq::empty(),
            proxies: Seq::empty(),
            bootstrap_dns: Seq::empty(),
            default_proxy: Seq::empty(),
            hosts: Seq::empty(),
            routes: Seq::empty(),
            timeout: Seq::empty(),
            ipv6_enabled: false,
        },
        cache: CacheView {
            enabled: false,
            max_entries: 0,
            max_entry_size: 0,
            min_ttl: 0,
            max_ttl: 0,
            negative_ttl: 0,
            eviction_policy: Seq::empty(),
        },
        healthcheck: HealthcheckView {
            enabled: false,
            interval: Seq::empty(),
            timeout: Seq::empty(),
            domain: Seq::empty(),
            failure_threshold: 0,
            recovery_threshold: 0,
        },
        level: Seq::empty(),
    }
}

impl Default for CoreConfig {
    fn default() -> (c: CoreConfig)
        ensures
            c@ == empty_config_spec(),
    {
        let c = CoreConfig {
            server: CoreServerConfig {
                mode: String::new(),
                listen: String::new(),
                tls_source: String::new(),
                cert_file: String::new(),
                key_file: String::new(),
                cert_pem: String::new(),
                key_pem: String::new(),
                path: String::new(),
            },
            resolver: CoreResolverConfig {
                upstreams: Vec::new(),
                proxies: Vec::new(),
                bootstrap_dns: Vec::new(),
                default_proxy: String::new(),
                hosts: Vec::new(),
                routes: Vec::new(),
                timeout: String::new(),
                ipv6_enabled: false,
            },
            cache: CoreCacheConfig {
                enabled: false,
                max_entries: 0,
                max_entry_size: 0,
                min_ttl: 0,
                max_ttl: 0,
                negative_ttl: 0,
                eviction_policy: String::new(),
            },
            healthcheck: CoreHealthcheckConfig {
                enabled: false,
                interval: String::new(),
                timeout: String::new(),
                domain: String::new(),
                failure_threshold: 0,
                recovery_threshold: 0,
            },
            log: CoreLogConfig { level: String::new() },
        };
        assert(c@.resolver.upstreams =~= Seq::<UpstreamView>::empty());
        assert(c@.resolver.proxies =~= Seq::<ProxyView>::empty());
        assert(c@.resolver.bootstrap_dns =~= Seq::<Seq<char>>::empty());
        assert(c@.resolver.hosts =~= Seq::<Seq<char>>::empty());
        assert(c@.resolver.routes =~= Seq::<Seq<char>>::empty());
        c
    }
}

/// The texts of a list of strings.
pub open spec fn texts(v: Seq<String>) -> Seq<Seq<char>> {
    v.map_values(|s: String| s@)
}

impl View for CoreServerConfig {
    type V = ServerView;

    open spec fn view(&self) -> ServerView {
        ServerView {
            mode: self.mode@,
            listen: self.listen@,
            tls_source: self.tls_source@,
            cert_file: self.cert_file@,
            key_file: self.key_file@,
            cert_pem: self.cert_pem@,
            key_pem: self.key_pem@,
            path: self.path@,
        }
    }
}

impl View for CoreUpstreamConfig {
    type V = UpstreamView;

    open spec fn view(&self) -> UpstreamView {
        UpstreamView { name: self.name@, endpoint: self.endpoint@, server_name: self.server_name@, proxy: self.proxy@ }
    }
}

impl View for CoreProxyConfig {
    type V = ProxyView;

    open spec fn view(&self) -> ProxyView {
        ProxyView { name: self.name@, endpoint: self.endpoint@ }
    }
}

/// The upstreams as values.
pub open spec fn upstream_views(v: Seq<CoreUpstreamConfig>) -> Seq<UpstreamView> {
    v.map_values(|u: CoreUpstreamConfig| u@)
}

/// The proxies as values.
pub open spec fn proxy_views(v: Seq<CoreProxyConfig>) -> Seq<ProxyView> {
    v.map_values(|p: CoreProxyConfig| p@)
}

impl View for CoreResolverConfig {
    type V = ResolverView;

    open spec fn view(&self) -> ResolverView {
        ResolverView {
            upstreams: upstream_views(self.upstreams@),
            proxies: proxy_views(self.proxies@),
            bootstrap_dns: texts(self.bootstrap_dns@),
            default_proxy: self.default_proxy@,
            hosts: texts(self.hosts@),
            routes: texts(self.routes@),
            timeout: self.timeout@,
            ipv6_enabled: self.ipv6_enabled,
        }
    }
}

impl View for CoreCacheConfig {
    type V = CacheView;

    open spec fn view(&self) -> CacheView {
        CacheView {
            enabled: self.enabled,
            max_entries: self.max_entries,
            max_entry_size: self.max_entry_size,
            min_ttl: self.min_ttl,
            max_ttl: self.max_ttl,
            negative_ttl: self.negative_ttl,
            eviction_policy: self.eviction_policy@,
        }
    }
}

impl View for CoreHealthcheckConfig {
    type V = HealthcheckView;

    open spec fn view(&self) -> HealthcheckView {
        HealthcheckView {
            enabled: self.enabled,
            interval: self.interval@,
            timeout: self.timeout@,
            domain: self.domain@,
            failure_threshold: self.failure_threshold,
            recovery_threshold: self.recovery_threshold,
        }
    }
}

impl View for CoreConfig {
    type V = ConfigView;

    open spec fn view(&self) -> ConfigView {
        ConfigView {
            server: self.server@,
            resolver: self.resolver@,
            cache: self.cache@,
            healthcheck: self.healthcheck@,
            level: self.log.level@,
        }
    }
}

/// A text, or `fallback` when it is empty.
pub open spec fn or_default(s: Seq<char>, fallback: Seq<char>) -> Seq<char> {
    if s.len() == 0 { fallback } else { s }
}

/// The cache settings with defaults: the LRU policy always, and when the cache is on,
/// 10000 entries of at most 4096 bytes, TTLs between 10 s and 600 s, negative answers
/// kept 30 s — each only where the field is zero.
pub open spec fn cache_defaults_spec(c: CacheView) -> CacheView {
    let c = CacheView { eviction_policy: or_default(c.eviction_policy, "lru"@), ..c };
    if !c.enabled {
        c
    } else {
        CacheView {
            max_entries: if c.max_entries == 0 { 10000 } else { c.max_entries },
            max_entry_size: if c.max_entry_size == 0 { 4096 } else { c.max_entry_size },
            min_ttl: if c.min_ttl == 0 { 10 } else { c.min_ttl },
            max_ttl: if c.max_ttl == 0 { 600 } else { c.max_ttl },
            negative_ttl: if c.negative_ttl == 0 { 30 } else { c.negative_ttl },
            ..c
        }
    }
}

/// The configuration with defaults in its empty fields: TLS from files, the DoH path
/// `/dns-query` in DoH mode, a 5 s resolver timeout, the cache defaults, and when health
/// checks are on a 30 s interval, 2 s timeout, the root domain and thresholds 3 and 2;
/// the log level `info`.
pub open spec fn defaults_spec(c: ConfigView) -> ConfigView {
    ConfigView {
        server: ServerView {
            tls_source: or_default(c.server.tls_source, "file"@),
            path: if c.server.mode == "doh"@ && c.server.path.len() == 0 {
                "/dns-query"@
            } else {
                c.server.path
            },
            ..c.server
        },
        resolver: ResolverView { timeout: or_default(c.resolver.timeout, "5s"@), ..c.resolver },
        cache: cache_defaults_spec(c.cache),
        healthcheck: if c.healthcheck.enabled {
            HealthcheckView {
                interval: or_default(c.healthcheck.interval, "30s"@),
                timeout: or_default(c.healthcheck.timeout, "2s"@),
                domain: or_default(c.healthcheck.domain, "."@),
                failure_threshold: if c.healthcheck.failure_threshold == 0 { 3 } else { c.healthcheck.failure_threshold },
                recovery_threshold: if c.healthcheck.recovery_threshold == 0 {
                    2
                } else {
                    c.healthcheck.recovery_threshold
                },
                ..c.healthcheck
            }
        } else {
            c.healthcheck
        },
        level: or_default(c.level, "info"@),
    }
}

fn text(s: &str) -> (r: String)
    ensures
        r@ == s@,
{
    String::from_str(s)
}

fn fill_default(field: &mut String, fallback: &str)
    ensures
        final(field)@ == or_default(old(field)@, fallback@),
{
    if field.as_str().is_empty() {
        *field = text(fallback);
    }
}

impl CoreConfig {
    /// Fills the empty fields with their defaults.
    pub fn apply_defaults(&mut self)
        ensures
            final(self)@ == defaults_spec(old(self)@),
    {
        fill_default(&mut self.server.tls_source, "file");
        if crate::text::str_eq(self.server.mode.as_str(), "doh") && self.server.path.as_str().is_empty() {
            self.server.path = text("/dns-query");
        }
        fill_default(&mut self.resolver.timeout, "5s");
        self.apply_cache_defaults();
        if self.healthcheck.enabled {
            fill_default(&mut self.healthcheck.interval, "30s");
            fill_default(&mut self.healthcheck.timeout, "2s");
            fill_default(&mut self.healthcheck.domain, ".");
            if self.healthcheck.failure_threshold == 0 {
                self.healthcheck.failure_threshold = 3;
            }
            if self.healthcheck.recovery_threshold == 0 {
                self.healthcheck.recovery_threshold = 2;
            }
        }
        fill_default(&mut self.log.level, "info");
    }

    /// Fills the empty cache fields with their defaults.
    pub fn apply_cache_defaults(&mut self)
        ensures
            final(self)@ == (ConfigView { cache: cache_defaults_spec(old(self)@.cache), ..old(self)@ }),
    {
        fill_default(&mut self.cache.eviction_policy, "lru");
        if !self.cache.enabled {
            return ;
        }
        if self.cache.max_entries == 0 {
            self.cache.max_entries = 10000;
        }
        if self.cache.max_entry_size == 0 {
            self.cache.max_entry_size = 4096;
        }
        if self.cache.min_ttl == 0 {
            self.cache.min_ttl = 10;
        }
        if self.cache.max_ttl == 0 {
            self.cache.max_ttl = 600;
        }
        if self.cache.negative_ttl == 0 {
            self.cache.negative_ttl = 30;
        }
    }
}

/// Filling in the defaults twice changes nothing more than filling them in once.
pub proof fn law_defaults_idempotent(c: ConfigView)
    ensures
        defaults_spec(defaults_spec(c)) == defaults_spec(c),
{
    reveal_strlit("file");
    reveal_strlit("/dns-query");
    reveal_strlit("5s");
    reveal_strlit("lru");
    reveal_strlit("30s");
    reveal_strlit("2s");
    reveal_strlit(".");
    reveal_strlit("info");
    reveal_strlit("doh");
}

/// The bootstrap servers of a fresh configuration.
pub fn default_bootstrap_dns() -> (v: Vec<String>)
    ensures
        texts(v@) == seq!["1.1.1.1:53"@, "8.8.8.8:53"@],
{
    let v = vec![text("1.1.1.1:53"), text("8.8.8.8:53")];
    assert(texts(v@) =~= seq!["1.1.1.1:53"@, "8.8.8.8:53"@]);
    v
}

fn upstream(name: &str, endpoint: &str) -> (u: CoreUpstreamConfig)
    ensures
        u@ == (UpstreamView { name: name@, endpoint: endpoint@, server_name: ""@, proxy: ""@ }),
{
    CoreUpstreamConfig { name: text(name), endpoint: text(endpoint), server_name: text(""), proxy: text("") }
}

/// The configuration before any was saved, for the build `env`: a UDP listener on the
/// build's default address, the cloudflare and google upstreams over UDP, the default
/// bootstrap servers, a 5 s timeout, IPv6, cache and health checks on, log level `info`,
/// with every other field at its default.
pub open spec fn default_config_spec(env: AppEnvironment) -> ConfigView {
    defaults_spec(
        ConfigView {
            server: ServerView {
                mode: "udp"@,
                listen: match env {
                    AppEnvironment::Development => "127.0.0.1:15453"@,
                    AppEnvironment::Production => "127.0.0.1:15353"@,
                    AppEnvironment::Test => "127.0.0.1:15453"@,
                },
                tls_source: ""@,
                cert_file: ""@,
                key_file: ""@,
                cert_pem: ""@,
                key_pem: ""@,
                path: ""@,
            },
            resolver: ResolverView {
                upstreams: seq![
                    UpstreamView { name: "cloudflare"@, endpoint: "udp://1.1.1.1"@, server_name: ""@, proxy: ""@ },
                    UpstreamView { name: "google"@, endpoint: "udp://8.8.8.8"@, server_name: ""@, proxy: ""@ },
                ],
                proxies: Seq::empty(),
                bootstrap_dns: seq!["1.1.1.1:53"@, "8.8.8.8:53"@],
                default_proxy: ""@,
                hosts: Seq::empty(),
                routes: Seq::empty(),
                timeout: "5s"@,
                ipv6_enabled: true,
            },
            cache: CacheView {
                enabled: true,
                max_entries: 0,
                max_entry_size: 0,
                min_ttl: 0,
                max_ttl: 0,
                negative_ttl: 0,
                eviction_policy: ""@,
            },
            healthcheck: HealthcheckView {
                enabled: true,
                interval: ""@,
                timeout: ""@,
                domain: ""@,
                failure_threshold: 0,
                recovery_threshold: 0,
            },
            level: "info"@,
        },
    )
}

/// The configuration before any was saved, for the build `env`.
pub fn default_local_config(env: AppEnvironment) -> (c: CoreConfig)
    ensures
        c@ == default_config_spec(env),
{
    let upstreams = vec![upstream("cloudflare", "udp://1.1.1.1"), upstream("google", "udp://8.8.8.8")];
    let mut cfg = CoreConfig {
        server: CoreServerConfig {
            mode: text("udp"),
            listen: text(default_listen_addr(env)),
            tls_source: text(""),
            cert_file: text(""),
            key_file: text(""),
            cert_pem: text(""),
            key_pem: text(""),
            path: text(""),
        },
        resolver: CoreResolverConfig {
            upstreams,
            proxies: Vec::new(),
            bootstrap_dns: default_bootstrap_dns(),
            default_proxy: text(""),
            hosts: Vec::new(),
            routes: Vec::new(),
            timeout: text("5s"),
            ipv6_enabled: true,
        },
        cache: CoreCacheConfig {
            enabled: true,
            max_entries: 0,
            max_entry_size: 0,
            min_ttl: 0,
            max_ttl: 0,
            negative_ttl: 0,
            eviction_policy: text(""),
        },
        healthcheck: CoreHealthcheckConfig {
            enabled: true,
            interval: text(""),
            timeout: text(""),
            domain: text(""),
            failure_threshold: 0,
            recovery_threshold: 0,
        },
        log: CoreLogConfig { level: text("info") },
    };
    proof {
        assert(cfg@.resolver.upstreams =~= seq![
            UpstreamView { name: "cloudflare"@, endpoint: "udp://1.1.1.1"@, server_name: ""@, proxy: ""@ },
            UpstreamView { name: "google"@, endpoint: "udp://8.8.8.8"@, server_name: ""@, proxy: ""@ },
        ]);
        assert(cfg@.resolver.proxies =~= Seq::<ProxyView>::empty());
        assert(cfg@.resolver.hosts =~= Seq::<Seq<char>>::empty());
        assert(cfg@.resolver.routes =~= Seq::<Seq<char>>::empty());
    }
    cfg.apply_defaults();
    cfg
}

/// The path of the database inside the user's configuration directory `config_dir`.
pub fn database_path(config_dir: &str, env: AppEnvironment) -> (p: String)
    ensures
        p@ == config_dir@ + "/"@ + app_dir_name_spec(env) + "/autodns.sqlite3"@,
{
    let mut p = text(config_dir);
    p.append("/");
    p.append(app_dir_name(env));
    p.append("/autodns.sqlite3");
    p
}

/// The name of the configuration directory of the build `env`.
pub open spec fn app_dir_name_spec(env: AppEnvironment) -> Seq<char> {
    match env {
        AppEnvironment::Development => "autodns-dev"@,
        AppEnvironment::Production => "autodns"@,
        AppEnvironment::Test => "autodns-test"@,
    }
}

/// A host and port joined as an address: an IPv6 host (one with `:` not already in
/// brackets) is put in brackets, and an empty port leaves the host alone.
pub open spec fn endpoint_address_spec(host: Seq<char>, port: Seq<char>) -> Seq<char> {
    let h = if host.contains(':') && !(host.len() > 0 && host[0] == '[') {
        "["@ + host + "]"@
    } else {
        host
    };
    if port.len() == 0 { h } else { h + ":"@ + port }
}

/// Joins a host and port.
pub fn endpoint_address(host: &str, port: &str) -> (r: String)
    ensures
        r@ == endpoint_address_spec(host@, port@),
{
    let v = chars_of(host);
    let mut h = if contains_char(&v, ':') && !(v.len() > 0 && v[0] == '[') {
        let mut b = text("[");
        b.append(host);
        b.append("]");
        b
    } else {
        text(host)
    };
    if port.is_empty() {
        h
    } else {
        h.append(":");
        h.append(port);
        h
    }
}

/// A DoH path: trimmed, `/dns-query` when empty or `/`, with a leading `/` added when
/// missing.
pub open spec fn doh_path_spec(path: Seq<char>) -> Seq<char> {
    let v = trim(path);
    if v.len() == 0 || v == "/"@ {
        "/dns-query"@
    } else if v[0] == '/' {
        v
    } else {
        "/"@ + v
    }
}

/// Normalizes a DoH path.
pub fn normalize_doh_path(path: &str) -> (r: String)
    ensures
        r@ == doh_path_spec(path@),
{
    let v = trim_str(path);
    if v.as_str().is_empty() || str_eq(v.as_str(), "/") {
        return text("/dns-query");
    }
    let c = chars_of(v.as_str());
    if c[0] == '/' {
        v
    } else {
        let mut r = text("/");
        r.append(v.as_str());
        r
    }
}

/// The endpoint URL of an upstream given in parts: the protocol (UDP when blank), then
/// `://` and the address, then for HTTP and HTTPS the DoH path.
pub open spec fn upstream_endpoint_spec(u: DesktopUpstreamView) -> Seq<char> {
    let protocol = or_default(trim(u.protocol), "udp"@);
    let address = endpoint_address_spec(trim(u.host), trim(u.port));
    if protocol == "http"@ || protocol == "https"@ {
        protocol + "://"@ + address + doh_path_spec(u.path)
    } else {
        protocol + "://"@ + address
    }
}

/// What follows the address in an endpoint: the DoH path for HTTP and HTTPS, else nothing.
pub open spec fn web_tail(protocol: Seq<char>, path: Seq<char>) -> Seq<char> {
    if protocol == "http"@ || protocol == "https"@ { doh_path_spec(path) } else { Seq::empty() }
}

/// `protocol://host:port` followed by `tail`, with no `:port` for an empty port.
pub open spec fn joined_endpoint(protocol: Seq<char>, host: Seq<char>, port: Seq<char>, tail: Seq<char>) -> Seq<char> {
    protocol + "://"@ + host + (if port.len() > 0 { ":"@ + port } else { Seq::empty() }) + tail
}

/// An upstream given in parts with a port is reached at that port: its endpoint is the
/// protocol (UDP when blank), `://`, the trimmed host (in brackets when it is an IPv6
/// address not yet bracketed), `:` and the trimmed port, then for HTTP and HTTPS the DoH
/// path; without a port the host stands alone.
pub proof fn law_upstream_endpoint_keeps_host_and_port(u: DesktopUpstreamView)
    ensures
        ({
            let protocol = or_default(trim(u.protocol), "udp"@);
            let host = trim(u.host);
            let port = trim(u.port);
            let tail = web_tail(protocol, u.path);
            exists|h: Seq<char>|
                (h == host || h == "["@ + host + "]"@) && upstream_endpoint_spec(u) == #[trigger] joined_endpoint(
                    protocol,
                    h,
                    port,
                    tail,
                )
        }),
{
    let protocol = or_default(trim(u.protocol), "udp"@);
    let host = trim(u.host);
    let port = trim(u.port);
    let h = if host.contains(':') && !(host.len() > 0 && host[0] == '[') {
        "["@ + host + "]"@
    } else {
        host
    };
    assert(endpoint_address_spec(host, port) == h + (if port.len() > 0 { ":"@ + port } else { Seq::empty() })) by {
        if port.len() == 0 {
            assert(h + Seq::<char>::empty() =~= h);
        }
    }
    let tail = web_tail(protocol, u.path);
    if protocol == "http"@ || protocol == "https"@ {
        assert(upstream_endpoint_spec(u) =~= joined_endpoint(protocol, h, port, tail));
    } else {
        assert(upstream_endpoint_spec(u) =~= joined_endpoint(protocol, h, port, tail));
    }
    assert((h == host || h == "["@ + host + "]"@) && upstream_endpoint_spec(u) == joined_endpoint(protocol, h, port, tail));
}

/// Builds an upstream's endpoint URL from its parts.
pub fn upstream_endpoint_from_desktop(item: &DesktopUpstreamConfig) -> (r: String)
    ensures
        r@ == upstream_endpoint_spec(item@),
{
    let p = trim_str(item.protocol.as_str());
    let protocol = if p.as_str().is_empty() { text("udp") } else { p };
    let host = trim_str(item.host.as_str());
    let port = trim_str(item.port.as_str());
    let address = endpoint_address(host.as_str(), port.as_str());
    let mut r = protocol.clone();
    r.append("://");
    r.append(address.as_str());
    if str_eq(protocol.as_str(), "http") || str_eq(protocol.as_str(), "https") {
        let path = normalize_doh_path(item.path.as_str());
        r.append(path.as_str());
    }
    r
}

/// The endpoint URL of a proxy given in parts, without credentials: the protocol (SOCKS5
/// when blank), `://` and the address.
pub open spec fn proxy_base_spec(p: DesktopProxyView) -> Seq<char> {
    or_default(trim(p.protocol), "socks5"@) + "://"@ + endpoint_address_spec(trim(p.host), trim(p.port))
}

/// Builds a proxy's endpoint URL from its parts, without credentials.
pub fn proxy_endpoint_base_from_desktop(item: &DesktopProxyConfig) -> (r: String)
    ensures
        r@ == proxy_base_spec(item@),
{
    let p = trim_str(item.protocol.as_str());
    let mut r = if p.as_str().is_empty() { text("socks5") } else { p };
    let host = trim_str(item.host.as_str());
    let port = trim_str(item.port.as_str());
    let address = endpoint_address(host.as_str(), port.as_str());
    r.append("://");
    r.append(address.as_str());
    r
}

/// Builds a proxy's endpoint URL from its parts, with its credentials.
pub fn proxy_endpoint_from_desktop(item: &DesktopProxyConfig) -> (r: String)
    ensures
        r@ == with_auth_spec(proxy_base_spec(item@), item@.username, item@.password),
{
    let base = proxy_endpoint_base_from_desktop(item);
    proxy_endpoint_with_auth(base.as_str(), item.username.as_str(), item.password.as_str())
}

/// The parts the front end shows of an endpoint URL: its scheme, host, port and path (an
/// empty path for `/`); a URL that does not parse is shown whole as the host.
pub open spec fn endpoint_parts_spec(raw: Seq<char>) -> (Seq<char>, Seq<char>, Seq<char>, Seq<char>) {
    match url_parts(raw) {
        None => (""@, raw, ""@, ""@),
        Some(u) => (
            u.scheme,
            match u.host {
                Some(h) => h,
                None => ""@,
            },
            match u.port {
                Some(p) => decimal(p as nat),
                None => ""@,
            },
            if u.path == "/"@ { ""@ } else { u.path },
        ),
    }
}

/// Splits an endpoint URL into the parts the front end shows.
pub fn endpoint_parts_from_raw(raw: &str) -> (r: (String, String, String, String))
    ensures
        (r.0@, r.1@, r.2@, r.3@) == endpoint_parts_spec(raw@),
{
    match parse_url(raw) {
        None => (text(""), text(raw), text(""), text("")),
        Some(u) => {
            let host = match u.host {
                Some(h) => h,
                None => text(""),
            };
            let port = match u.port {
                Some(p) => decimal_string(p as u64),
                None => text(""),
            };
            let path = if str_eq(u.path.as_str(), "/") { text("") } else { u.path };
            (u.scheme, host, port, path)
        },
    }
}

/// An upstream as the front end shows it.
pub open spec fn desktop_upstream_spec(u: UpstreamView) -> DesktopUpstreamView {
    let (protocol, host, port, path) = endpoint_parts_spec(u.endpoint);
    DesktopUpstreamView { name: u.name, protocol, host, port, path, server_name: u.server_name, proxy: u.proxy }
}

/// A proxy as the front end shows it, credentials split off.
pub open spec fn desktop_proxy_spec(p: ProxyView) -> DesktopProxyView {
    let (endpoint, username, password) = split_auth_spec(p.endpoint);
    let (protocol, host, port, _) = endpoint_parts_spec(endpoint);
    DesktopProxyView { name: p.name, protocol, host, port, username, password }
}

/// Shows an upstream in parts.
pub fn desktop_upstream_from_core(item: &CoreUpstreamConfig) -> (r: DesktopUpstreamConfig)
    ensures
        r@ == desktop_upstream_spec(item@),
{
    let (protocol, host, port, path) = endpoint_parts_from_raw(item.endpoint.as_str());
    DesktopUpstreamConfig {
        name: item.name.clone(),
        protocol,
        host,
        port,
        path,
        server_name: item.server_name.clone(),
        proxy: item.proxy.clone(),
    }
}

/// Shows a proxy in parts.
pub fn desktop_proxy_from_core(item: &CoreProxyConfig) -> (r: DesktopProxyConfig)
    ensures
        r@ == desktop_proxy_spec(item@),
{
    let (endpoint, username, password) = split_proxy_endpoint_auth(item.endpoint.as_str());
    let (protocol, host, port, _) = endpoint_parts_from_raw(endpoint.as_str());
    DesktopProxyConfig { name: item.name.clone(), protocol, host, port, username, password }
}

fn clone_texts(v: &Vec<String>) -> (r: Vec<String>)
    ensures
        texts(r@) == texts(v@),
{
    let mut r: Vec<String> = Vec::new();
    let mut i: usize = 0;
    while i < v.len()
        invariant
            i <= v@.len(),
            texts(r@) == texts(v@).take(i as int),
        decreases v@.len() - i,
    {
        let ghost before = texts(r@);
        r.push(v[i].clone());
        proof {
            assert(texts(r@) =~= before.push(v@[i as int]@));
            assert(texts(v@).take(i + 1) =~= texts(v@).take(i as int).push(v@[i as int]@));
        }
        i = i + 1;
    }
    assert(texts(v@).take(v@.len() as int) =~= texts(v@));
    r
}

/// The configuration as the front end shows it: everything copied, upstreams and proxies
/// split into parts, no per-line statuses.
pub open spec fn desktop_config_spec(c: ConfigView) -> DesktopConfigView {
    DesktopConfigView {
        server: crate::desktop::DesktopServerView {
            mode: c.server.mode,
            listen: c.server.listen,
            tls_source: c.server.tls_source,
            cert_file: c.server.cert_file,
            key_file: c.server.key_file,
            cert_pem: c.server.cert_pem,
            key_pem: c.server.key_pem,
            path: c.server.path,
        },
        resolver: crate::desktop::DesktopResolverView {
            upstreams: c.resolver.upstreams.map_values(|u: UpstreamView| desktop_upstream_spec(u)),
            proxies: c.resolver.proxies.map_values(|p: ProxyView| desktop_proxy_spec(p)),
            bootstrap_dns: c.resolver.bootstrap_dns,
            default_proxy: c.resolver.default_proxy,
            hosts: c.resolver.hosts,
            host_statuses_len: 0,
            routes: c.resolver.routes,
            route_statuses_len: 0,
            timeout: c.resolver.timeout,
            ipv6_enabled: c.resolver.ipv6_enabled,
        },
        cache: crate::desktop::DesktopCacheView {
            enabled: c.cache.enabled,
            max_entries: c.cache.max_entries,
            max_entry_size: c.cache.max_entry_size,
            min_ttl: c.cache.min_ttl,
            max_ttl: c.cache.max_ttl,
            negative_ttl: c.cache.negative_ttl,
            eviction_policy: c.cache.eviction_policy,
        },
        healthcheck: crate::desktop::DesktopHealthcheckView {
            enabled: c.healthcheck.enabled,
            interval: c.healthcheck.interval,
            timeout: c.healthcheck.timeout,
            domain: c.healthcheck.domain,
            failure_threshold: c.healthcheck.failure_threshold,
            recovery_threshold: c.healthcheck.recovery_threshold,
        },
        level: c.level,
    }
}

/// The configuration in the desktop form.
pub fn desktop_config_from_core(cfg: &CoreConfig) -> (r: DesktopConfig)
    ensures
        r@ == desktop_config_spec(cfg@),
{
    let mut upstreams: Vec<DesktopUpstreamConfig> = Vec::new();
    let mut i: usize = 0;
    while i < cfg.resolver.upstreams.len()
        invariant
            i <= cfg.resolver.upstreams@.len(),
            upstreams@.len() == i,
            forall|k: int| 0 <= k < i ==> (#[trigger] upstreams@[k])@ == desktop_upstream_spec(cfg.resolver.upstreams@[k]@),
        decreases cfg.resolver.upstreams@.len() - i,
    {
        upstreams.push(desktop_upstream_from_core(&cfg.resolver.upstreams[i]));
        i = i + 1;
    }
    let mut proxies: Vec<DesktopProxyConfig> = Vec::new();
    let mut j: usize = 0;
    while j < cfg.resolver.proxies.len()
        invariant
            j <= cfg.resolver.proxies@.len(),
            proxies@.len() == j,
            forall|k: int| 0 <= k < j ==> (#[trigger] proxies@[k])@ == desktop_proxy_spec(cfg.resolver.proxies@[k]@),
        decreases cfg.resolver.proxies@.len() - j,
    {
        proxies.push(desktop_proxy_from_core(&cfg.resolver.proxies[j]));
        j = j + 1;
    }
    let r = DesktopConfig {
        server: DesktopServerConfig {
            mode: cfg.server.mode.clone(),
            listen: cfg.server.listen.clone(),
            tls_source: cfg.server.tls_source.clone(),
            cert_file: cfg.server.cert_file.clone(),
            key_file: cfg.server.key_file.clone(),
            cert_pem: cfg.server.cert_pem.clone(),
            key_pem: cfg.server.key_pem.clone(),
            path: cfg.server.path.clone(),
        },
        resolver: DesktopResolverConfig {
            upstreams,
            proxies,
            bootstrap_dns: clone_texts(&cfg.resolver.bootstrap_dns),
            default_proxy: cfg.resolver.default_proxy.clone(),
            hosts: clone_texts(&cfg.resolver.hosts),
            host_statuses: Vec::new(),
            routes: clone_texts(&cfg.resolver.routes),
            route_statuses: Vec::new(),
            timeout: cfg.resolver.timeout.clone(),
            ipv6_enabled: cfg.resolver.ipv6_enabled,
        },
        cache: DesktopCacheConfig {
            enabled: cfg.cache.enabled,
            max_entries: cfg.cache.max_entries,
            max_entry_size: cfg.cache.max_entry_size,
            min_ttl: cfg.cache.min_ttl,
            max_ttl: cfg.cache.max_ttl,
            negative_ttl: cfg.cache.negative_ttl,
            eviction_policy: cfg.cache.eviction_policy.clone(),
        },
        healthcheck: DesktopHealthcheckConfig {
            enabled: cfg.healthcheck.enabled,
            interval: cfg.healthcheck.interval.clone(),
            timeout: cfg.healthcheck.timeout.clone(),
            domain: cfg.healthcheck.domain.clone(),
            failure_threshold: cfg.healthcheck.failure_threshold,
            recovery_threshold: cfg.healthcheck.recovery_threshold,
        },
        log: DesktopLogConfig { level: cfg.log.level.clone() },
    };
    proof {
        assert(r@.resolver.upstreams =~= cfg@.resolver.upstreams.map_values(|u: UpstreamView| desktop_upstream_spec(u)));
        assert(r@.resolver.proxies =~= cfg@.resolver.proxies.map_values(|p: ProxyView| desktop_proxy_spec(p)));
    }
    r
}

/// The configuration the desktop form stands for: everything copied, upstreams and
/// proxies joined back into endpoint URLs.
pub open spec fn core_config_spec(d: DesktopConfigView) -> ConfigView {
    ConfigView {
        server: ServerView {
            mode: d.server.mode,
            listen: d.server.listen,
            tls_source: d.server.tls_source,
            cert_file: d.server.cert_file,
            key_file: d.server.key_file,
            cert_pem: d.server.cert_pem,
            key_pem: d.server.key_pem,
            path: d.server.path,
        },
        resolver: ResolverView {
            upstreams: d.resolver.upstreams.map_values(
                |u: DesktopUpstreamView|
                    UpstreamView { name: u.name, endpoint: upstream_endpoint_spec(u), server_name: u.server_name, proxy: u.proxy },
            ),
            proxies: d.resolver.proxies.map_values(
                |p: DesktopProxyView| ProxyView { name: p.name, endpoint: with_auth_spec(proxy_base_spec(p), p.username, p.password) },
            ),
            bootstrap_dns: d.resolver.bootstrap_dns,
            default_proxy: d.resolver.default_proxy,
            hosts: d.resolver.hosts,
            routes: d.resolver.routes,
            timeout: d.resolver.timeout,
            ipv6_enabled: d.resolver.ipv6_enabled,
        },
        cache: CacheView {
            enabled: d.cache.enabled,
            max_entries: d.cache.max_entries,
            max_entry_size: d.cache.max_entry_size,
            min_ttl: d.cache.min_ttl,
            max_ttl: d.cache.max_ttl,
            negative_ttl: d.cache.negative_ttl,
            eviction_policy: d.cache.eviction_policy,
        },
        healthcheck: HealthcheckView {
            enabled: d.healthcheck.enabled,
            interval: d.healthcheck.interval,
            timeout: d.healthcheck.timeout,
            domain: d.healthcheck.domain,
            failure_threshold: d.healthcheck.failure_threshold,
            recovery_threshold: d.healthcheck.recovery_threshold,
        },
        level: d.level,
    }
}

/// Showing the configuration in the desktop form and reading it back keeps everything
/// but the endpoint texts, which are split into parts and joined again: the server,
/// cache, health check and log settings, the resolver's lists and settings, and the
/// upstreams and proxies in their order, each with its name (and an upstream with its
/// server name and proxy).
pub proof fn law_desktop_round_trip(c: ConfigView)
    ensures
        ({
            let r = core_config_spec(desktop_config_spec(c));
            &&& r.server == c.server
            &&& r.cache == c.cache
            &&& r.healthcheck == c.healthcheck
            &&& r.level == c.level
            &&& r.resolver.bootstrap_dns == c.resolver.bootstrap_dns
            &&& r.resolver.default_proxy == c.resolver.default_proxy
            &&& r.resolver.hosts == c.resolver.hosts
            &&& r.resolver.routes == c.resolver.routes
            &&& r.resolver.timeout == c.resolver.timeout
            &&& r.resolver.ipv6_enabled == c.resolver.ipv6_enabled
            &&& r.resolver.upstreams.len() == c.resolver.upstreams.len()
            &&& forall|k: int| 0 <= k < c.resolver.upstreams.len() ==> {
                let (a, b) = (#[trigger] r.resolver.upstreams[k], c.resolver.upstreams[k]);
                a.name == b.name && a.server_name == b.server_name && a.proxy == b.proxy
            }
            &&& r.resolver.proxies.len() == c.resolver.proxies.len()
            &&& forall|k: int| 0 <= k < c.resolver.proxies.len() ==> (#[trigger] r.resolver.proxies[k]).name
                == c.resolver.proxies[k].name
        }),
{
}

/// The configuration in the core form.
pub fn core_config_from_desktop(cfg: DesktopConfig) -> (r: CoreConfig)
    ensures
        r@ == core_config_spec(cfg@),
{
    let mut upstreams: Vec<CoreUpstreamConfig> = Vec::new();
    let mut i: usize = 0;
    while i < cfg.resolver.upstreams.len()
        invariant
            i <= cfg.resolver.upstreams@.len(),
            upstreams@.len() == i,
            forall|k: int| 0 <= k < i ==> (#[trigger] upstreams@[k])@ == ({
                let u = cfg.resolver.upstreams@[k]@;
                UpstreamView { name: u.name, endpoint: upstream_endpoint_spec(u), server_name: u.server_name, proxy: u.proxy }
            }),
        decreases cfg.resolver.upstreams@.len() - i,
    {
        let item = &cfg.resolver.upstreams[i];
        let endpoint = upstream_endpoint_from_desktop(item);
        upstreams.push(CoreUpstreamConfig {
            name: item.name.clone(),
            endpoint,
            server_name: item.server_name.clone(),
            proxy: item.proxy.clone(),
        });
        i = i + 1;
    }
    let mut proxies: Vec<CoreProxyConfig> = Vec::new();
    let mut j: usize = 0;
    while j < cfg.resolver.proxies.len()
        invariant
            j <= cfg.resolver.proxies@.len(),
            proxies@.len() == j,
            forall|k: int| 0 <= k < j ==> (#[trigger] proxies@[k])@ == ({
                let p = cfg.resolver.proxies@[k]@;
                ProxyView { name: p.name, endpoint: with_auth_spec(proxy_base_spec(p), p.username, p.password) }
            }),
        decreases cfg.resolver.proxies@.len() - j,
    {
        let item = &cfg.resolver.proxies[j];
        let endpoint = proxy_endpoint_from_desktop(item);
        proxies.push(CoreProxyConfig { name: item.name.clone(), endpoint });
        j = j + 1;
    }
    let ghost d = cfg@;
    let r = CoreConfig {
        server: CoreServerConfig {
            mode: cfg.server.mode,
            listen: cfg.server.listen,
            tls_source: cfg.server.tls_source,
            cert_file: cfg.server.cert_file,
            key_file: cfg.server.key_file,
            cert_pem: cfg.server.cert_pem,
            key_pem: cfg.server.key_pem,
            path: cfg.server.path,
        },
        resolver: CoreResolverConfig {
            upstreams,
            proxies,
            bootstrap_dns: cfg.resolver.bootstrap_dns,
            default_proxy: cfg.resolver.default_proxy,
            hosts: cfg.resolver.hosts,
            routes: cfg.resolver.routes,
            timeout: cfg.resolver.timeout,
            ipv6_enabled: cfg.resolver.ipv6_enabled,
        },
        cache: CoreCacheConfig {
            enabled: cfg.cache.enabled,
            max_entries: cfg.cache.max_entries,
            max_entry_size: cfg.cache.max_entry_size,
            min_ttl: cfg.cache.min_ttl,
            max_ttl: cfg.cache.max_ttl,
            negative_ttl: cfg.cache.negative_ttl,
            eviction_policy: cfg.cache.eviction_policy,
        },
        healthcheck: CoreHealthcheckConfig {
            enabled: cfg.healthcheck.enabled,
            interval: cfg.healthcheck.interval,
            timeout: cfg.healthcheck.timeout,
            domain: cfg.healthcheck.domain,
            failure_threshold: cfg.healthcheck.failure_threshold,
            recovery_threshold: cfg.healthcheck.recovery_threshold,
        },
        log: CoreLogConfig { level: cfg.log.level },
    };
    proof {
        assert(r@.resolver.upstreams =~= core_config_spec(d).resolver.upstreams);
        assert(r@.resolver.proxies =~= core_config_spec(d).resolver.proxies);
    }
    r
}

} // verus!
