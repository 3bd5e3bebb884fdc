//! The values the desktop front end exchanges with the core: its form of the
//! configuration, the status and health it shows, lookup and history rows, preferences
//! and the system DNS settings.
use vstd::prelude::*;

verus! {

/// The configuration as the desktop front end edits it.
#[derive(Clone, Debug)]
pub struct DesktopConfig {
    pub server: DesktopServerConfig,
    pub resolver: DesktopResolverConfig,
    pub cache: DesktopCacheConfig,
    pub healthcheck: DesktopHealthcheckConfig,
    pub log: DesktopLogConfig,
}

/// The listener settings.
#[derive(Clone, Debug)]
pub struct DesktopServerConfig {
    pub mode: String,
    pub listen: String,
    pub tls_source: String,
    pub cert_file: String,
    pub key_file: String,
    pub cert_pem: String,
    pub key_pem: String,
    pub path: String,
}

/// The resolver settings, with upstreams and proxies split into their parts.
#[derive(Clone, Debug)]
pub struct DesktopResolverConfig {
    pub upstreams: Vec<DesktopUpstreamConfig>,
    pub proxies: Vec<DesktopProxyConfig>,
    pub bootstrap_dns: Vec<String>,
    pub default_proxy: String,
    pub hosts: Vec<String>,
    pub host_statuses: Vec<DesktopHostStatus>,
    pub routes: Vec<String>,
    pub route_statuses: Vec<DesktopRouteStatus>,
    pub timeout: String,
    pub ipv6_enabled: bool,
}

/// Whether a hosts line is on, with the user's note.
#[derive(Clone, Debug)]
pub struct DesktopHostStatus {
    pub index: usize,
    pub enabled: bool,
    pub note: String,
}

/// Whether a route line is on, why it is invalid, and the user's note.
#[derive(Clone, Debug)]
pub struct DesktopRouteStatus {
    pub index: usize,
    pub enabled: bool,
    pub invalid_reason: String,
    pub note: String,
}

/// An upstream split into protocol, host, port and path.
#[derive(Clone, Debug)]
pub struct DesktopUpstreamConfig {
    pub name: String,
    pub protocol: String,
    pub host: String,
    pub port: String,
    pub path: String,
    pub server_name: String,
    pub proxy: String,
}

/// A proxy split into protocol, host, port and credentials.
#[derive(Clone, Debug)]
pub struct DesktopProxyConfig {
    pub name: String,
    pub protocol: String,
    pub host: String,
    pub port: String,
    pub username: String,
    pub password: String,
}

/// The cache settings.
#[derive(Clone, Debug)]
pub struct DesktopCacheConfig {
    pub enabled: bool,
    pub max_entries: usize,
    pub max_entry_size: usize,
    pub min_ttl: u32,
    pub max_ttl: u32,
    pub negative_ttl: u32,
    pub eviction_policy: String,
}

/// The health check settings.
#[derive(Clone, Debug)]
pub struct DesktopHealthcheckConfig {
    pub enabled: bool,
    pub interval: String,
    pub timeout: String,
    pub domain: String,
    pub failure_threshold: u32,
    pub recovery_threshold: u32,
}

/// The log settings.
#[derive(Clone, Debug)]
pub struct DesktopLogConfig {
    pub level: String,
}

/// A stored configuration and where it is stored.
#[derive(Clone, Debug)]
pub struct ConfigDocument {
    pub path: String,
    pub config: DesktopConfig,
}

/// What applying a configuration did.
#[derive(Clone, Copy, Debug, PartialEq, Eq, Structural)]
pub enum ApplyConfigAction {
    Saved,
    HotReloaded,
    Restarted,
}

/// The result of applying a configuration.
#[derive(Clone, Debug)]
pub struct ApplyConfigResult {
    pub action: ApplyConfigAction,
    pub status: DesktopStatus,
}

/// The result of a lookup made from the front end.
#[derive(Clone, Debug)]
pub struct DnsLookupResult {
    pub domain: String,
    pub record_type: String,
    pub response_code: String,
    pub answer_count: usize,
    pub duration_ms: u128,
    pub records: Vec<DnsLookupRecord>,
}

/// One answer record of a lookup.
#[derive(Clone, Debug)]
pub struct DnsLookupRecord {
    pub name: String,
    pub record_type: String,
    pub ttl: u32,
    pub value: String,
}

/// A page of query history.
#[derive(Clone, Debug)]
pub struct DnsHistoryList {
    pub items: Vec<DnsHistoryEntry>,
    pub total: usize,
}

/// One query in the history.
#[derive(Clone, Debug)]
pub struct DnsHistoryEntry {
    pub id: i64,
    pub started_at: String,
    pub domain: String,
    pub record_type: String,
    pub source: String,
    pub route_id: i32,
    pub upstream_name: String,
    pub upstream_protocol: String,
    pub duration_ms: u128,
    pub attempt_count: usize,
    pub response_code: String,
    pub min_ttl: Option<u32>,
    pub error: String,
}

/// The state of the DNS service as the front end shows it.
#[derive(Clone, Debug)]
pub struct DesktopStatus {
    pub running: bool,
    pub config_path: String,
    pub mode: String,
    pub listen: String,
    pub upstreams: usize,
    pub routes: usize,
    pub default_upstreams: usize,
    pub started_at: Option<String>,
    pub last_error: Option<String>,
    pub upstream_health: Vec<UpstreamHealth>,
    pub proxy_health: Vec<ProxyHealth>,
}

impl Default for DesktopStatus {
    /// The status of a service that has not run: stopped, every text empty, every count
    /// zero, no start time, no error and no health rows.
    fn default() -> (s: DesktopStatus)
        ensures
            !s.running,
            s.config_path@.len() == 0,
            s.mode@.len() == 0,
            s.listen@.len() == 0,
            s.upstreams == 0,
            s.routes == 0,
            s.default_upstreams == 0,
            s.started_at is None,
            s.last_error is None,
            s.upstream_health@.len() == 0,
            s.proxy_health@.len() == 0,
    {
        DesktopStatus {
            running: false,
            config_path: String::new(),
            mode: String::new(),
            listen: String::new(),
            upstreams: 0,
            routes: 0,
            default_upstreams: 0,
            started_at: None,
            last_error: None,
            upstream_health: Vec::new(),
            proxy_health: Vec::new(),
        }
    }
}

/// How an upstream or proxy is shown.
#[derive(Clone, Copy, Debug, PartialEq, Eq, Structural)]
pub enum HealthState {
    Unknown,
    Healthy,
    Unhealthy,
    Unused,
}

/// The health shown for one upstream.
#[derive(Clone, Debug)]
pub struct UpstreamHealth {
    pub name: String,
    pub endpoint: String,
    pub protocol: String,
    pub proxy: String,
    pub order: usize,
    pub health: HealthState,
    pub failure_count: u64,
    pub last_error: Option<String>,
    pub last_success_at: Option<String>,
    pub latency_ms: Option<u128>,
}

/// The health shown for one proxy, with the upstreams that use it.
#[derive(Clone, Debug)]
pub struct ProxyHealth {
    pub name: String,
    pub endpoint: String,
    pub health: HealthState,
    pub upstreams: Vec<String>,
}

/// Desktop preferences.
#[derive(Clone, Debug)]
pub struct DesktopPreferences {
    pub close_behavior: String,
    pub language: String,
    pub start_at_login: bool,
    pub start_at_login_supported: bool,
    pub tray_supported: bool,
    pub tray_message: String,
    pub window: Option<DesktopWindowState>,
}

/// The size, position and state of the main window.
#[derive(Clone, Copy, Debug, PartialEq, Eq, Structural)]
pub struct DesktopWindowState {
    pub width: u32,
    pub height: u32,
    pub x: Option<i32>,
    pub y: Option<i32>,
    pub maximized: bool,
}

/// The system DNS takeover settings.
#[derive(Clone, Debug)]
pub struct SystemDnsSettings {
    pub enabled: bool,
    pub target_servers: Vec<String>,
    pub selected_adapter_ids: Vec<String>,
}

/// The system DNS takeover as the front end shows it.
#[derive(Clone, Debug)]
pub struct SystemDnsStatus {
    pub platform: String,
    pub supported: bool,
    pub can_apply: bool,
    pub settings: SystemDnsSettings,
    pub local_servers: Vec<String>,
    pub adapters: Vec<SystemDnsAdapter>,
    pub warnings: Vec<String>,
    pub warning_messages: Vec<LocalizedMessage>,
    pub last_error: Option<String>,
}

/// A message the front end can translate: a code, the English text with `{key}`
/// placeholders, and the values of the placeholders.
#[derive(Clone, Debug)]
pub struct LocalizedMessage {
    pub code: String,
    pub message: String,
    pub values: Vec<(String, String)>,
}

/// A localized message as values.
pub struct LocalizedMessageView {
    pub code: Seq<char>,
    pub message: Seq<char>,
    pub values: Seq<(Seq<char>, Seq<char>)>,
}

/// The texts of a list of key and value pairs.
pub open spec fn pair_texts(v: Seq<(String, String)>) -> Seq<(Seq<char>, Seq<char>)> {
    v.map_values(|p: (String, String)| (p.0@, p.1@))
}

impl View for LocalizedMessage {
    type V = LocalizedMessageView;

    open spec fn view(&self) -> LocalizedMessageView {
        LocalizedMessageView { code: self.code@, message: self.message@, values: pair_texts(self.values@) }
    }
}

/// One network adapter whose DNS servers can be taken over.
#[derive(Clone, Debug)]
pub struct SystemDnsAdapter {
    pub id: String,
    pub name: String,
    pub description: String,
    pub status: String,
    pub kind: String,
    pub dns_servers: Vec<String>,
    pub selected: bool,
    pub managed: bool,
    pub virtual_adapter: bool,
    pub interface_index: Option<u32>,
    pub original_dns: Option<Vec<String>>,
    pub last_applied_at: Option<String>,
    pub last_restored_at: Option<String>,
    pub last_error: Option<String>,
}

/// The texts of a list of strings.
pub open spec fn texts_of(v: Seq<String>) -> Seq<Seq<char>> {
    v.map_values(|s: String| s@)
}

/// The listener settings as values.
pub struct DesktopServerView {
    pub mode: Seq<char>,
    pub listen: Seq<char>,
    pub tls_source: Seq<char>,
    pub cert_file: Seq<char>,
    pub key_file: Seq<char>,
    pub cert_pem: Seq<char>,
    pub key_pem: Seq<char>,
    pub path: Seq<char>,
}

impl View for DesktopServerConfig {
    type V = DesktopServerView;

    open spec fn view(&self) -> DesktopServerView {
        DesktopServerView {
            mode: self.mode@,
            listen: self.listen@,
            tls_source: self.tls_source@,
            cert_file: self.cert_file@,
            key_file: self.key_file@,
            cert_pem: self.cert_pem@,
            key_pem: self.key_pem@,
            path: self.path@,
        }
    }
}

/// An upstream in parts, as values.
pub struct DesktopUpstreamView {
    pub name: Seq<char>,
    pub protocol: Seq<char>,
    pub host: Seq<char>,
    pub port: Seq<char>,
    pub path: Seq<char>,
    pub server_name: Seq<char>,
    pub proxy: Seq<char>,
}

impl View for DesktopUpstreamConfig {
    type V = DesktopUpstreamView;

    open spec fn view(&self) -> DesktopUpstreamView {
        DesktopUpstreamView {
            name: self.name@,
            protocol: self.protocol@,
            host: self.host@,
            port: self.port@,
            path: self.path@,
            server_name: self.server_name@,
            proxy: self.proxy@,
        }
    }
}

/// A proxy in parts, as values.
pub struct DesktopProxyView {
    pub name: Seq<char>,
    pub protocol: Seq<char>,
    pub host: Seq<char>,
    pub port: Seq<char>,
    pub username: Seq<char>,
    pub password: Seq<char>,
}

impl View for DesktopProxyConfig {
    type V = DesktopProxyView;

    open spec fn view(&self) -> DesktopProxyView {
        DesktopProxyView {
            name: self.name@,
            protocol: self.protocol@,
            host: self.host@,
            port: self.port@,
            username: self.username@,
            password: self.password@,
        }
    }
}

/// The desktop resolver settings as values (the per-line statuses are the front end's own
/// and are left out).
pub struct DesktopResolverView {
    pub upstreams: Seq<DesktopUpstreamView>,
    pub proxies: Seq<DesktopProxyView>,
    pub bootstrap_dns: Seq<Seq<char>>,
    pub default_proxy: Seq<char>,
    pub hosts: Seq<Seq<char>>,
    pub host_statuses_len: nat,
    pub routes: Seq<Seq<char>>,
    pub route_statuses_len: nat,
    pub timeout: Seq<char>,
    pub ipv6_enabled: bool,
}

impl View for DesktopResolverConfig {
    type V = DesktopResolverView;

    open spec fn view(&self) -> DesktopResolverView {
        DesktopResolverView {
            upstreams: self.upstreams@.map_values(|u: DesktopUpstreamConfig| u@),
            proxies: self.proxies@.map_values(|p: DesktopProxyConfig| p@),
            bootstrap_dns: texts_of(self.bootstrap_dns@),
            default_proxy: self.default_proxy@,
            hosts: texts_of(self.hosts@),
            host_statuses_len: self.host_statuses@.len(),
            routes: texts_of(self.routes@),
            route_statuses_len: self.route_statuses@.len(),
            timeout: self.timeout@,
            ipv6_enabled: self.ipv6_enabled,
        }
    }
}

/// The desktop cache settings as values.
pub struct DesktopCacheView {
    pub enabled: bool,
    pub max_entries: usize,
    pub max_entry_size: usize,
    pub min_ttl: u32,
    pub max_ttl: u32,
    pub negative_ttl: u32,
    pub eviction_policy: Seq<char>,
}

impl View for DesktopCacheConfig {
    type V = DesktopCacheView;

    open spec fn view(&self) -> DesktopCacheView {
        DesktopCacheView {
            enabled: self.enabled,
            max_entries: self.max_entries,
            max_entry_size: self.max_entry_size,
            min_ttl: self.min_ttl,
            max_ttl: self.max_ttl,
            negative_ttl: self.negative_ttl,
            eviction_policy: self.eviction_policy@,
        }
    }
}

/// The desktop health check settings as values.
pub struct DesktopHealthcheckView {
    pub enabled: bool,
    pub interval: Seq<char>,
    pub timeout: Seq<char>,
    pub domain: Seq<char>,
    pub failure_threshold: u32,
    pub recovery_threshold: u32,
}

impl View for DesktopHealthcheckConfig {
    type V = DesktopHealthcheckView;

    open spec fn view(&self) -> DesktopHealthcheckView {
        DesktopHealthcheckView {
            enabled: self.enabled,
            interval: self.interval@,
            timeout: self.timeout@,
            domain: self.domain@,
            failure_threshold: self.failure_threshold,
            recovery_threshold: self.recovery_threshold,
        }
    }
}

/// The desktop configuration as values.
pub struct DesktopConfigView {
    pub server: DesktopServerView,
    pub resolver: DesktopResolverView,
    pub cache: DesktopCacheView,
    pub healthcheck: DesktopHealthcheckView,
    pub level: Seq<char>,
}

impl View for DesktopConfig {
    type V = DesktopConfigView;

    open spec fn view(&self) -> DesktopConfigView {
        DesktopConfigView {
            server: self.server@,
            resolver: self.resolver@,
            cache: self.cache@,
            healthcheck: self.healthcheck@,
            level: self.log.level@,
        }
    }
}

/// The health shown for one upstream, as values.
pub struct UpstreamHealthView {
    pub name: Seq<char>,
    pub endpoint: Seq<char>,
    pub protocol: Seq<char>,
    pub proxy: Seq<char>,
    pub order: usize,
    pub health: HealthState,
    pub failure_count: u64,
    pub last_error: Option<Seq<char>>,
    pub last_success_at: Option<Seq<char>>,
    pub latency_ms: Option<u128>,
}

/// The text inside an optional string.
pub open spec fn opt_text(s: Option<String>) -> Option<Seq<char>> {
    match s {
        Some(t) => Some(t@),
        None => None,
    }
}

impl View for UpstreamHealth {
    type V = UpstreamHealthView;

    open spec fn view(&self) -> UpstreamHealthView {
        UpstreamHealthView {
            name: self.name@,
            endpoint: self.endpoint@,
            protocol: self.protocol@,
            proxy: self.proxy@,
            order: self.order,
            health: self.health,
            failure_count: self.failure_count,
            last_error: opt_text(self.last_error),
            last_success_at: opt_text(self.last_success_at),
            latency_ms: self.latency_ms,
        }
    }
}

/// The health shown for one proxy, as values.
pub struct ProxyHealthView {
    pub name: Seq<char>,
    pub endpoint: Seq<char>,
    pub health: HealthState,
    pub upstreams: Seq<Seq<char>>,
}

impl View for ProxyHealth {
    type V = ProxyHealthView;

    open spec fn view(&self) -> ProxyHealthView {
        ProxyHealthView {
            name: self.name@,
            endpoint: self.endpoint@,
            health: self.health,
            upstreams: texts_of(self.upstreams@),
        }
    }
}

} // verus!
