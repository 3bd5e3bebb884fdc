//! The checks a configuration must pass: the listener and its TLS material, the bootstrap
//! servers, proxies, upstreams (none may point back at the listener), routes, hosts,
//! durations, cache, health checks and log level, in that order; the first failure is
//! reported.
use crate::config::{
    core_config_from_desktop, core_config_spec, defaults_spec, CacheView, ConfigView, CoreConfig, CoreProxyConfig, CoreUpstreamConfig, HealthcheckView, ProxyView,
    ServerView, UpstreamView, texts,
};
use crate::duration::{duration_fits, go_duration_spec, parse_go_duration, DurationError, DurationErrorView};
use crate::hosts::{compile_hosts, compile_hosts_spec, HostsError, HostsErrorView};
use crate::net::{
    is_loopback, is_unspecified, parse_ip, parse_ip_spec, parse_socket_addr, parse_socket_spec, same_family,
    IpAddress, SocketAddress,
};
use crate::routes::{compile_routes, compile_routes_spec, names_view, select_spec, RouteError, RouteErrorView, RouteTable, Routes};
use crate::text::{chars_of, lower, lower_seq, lower_str, str_eq, trim, trim_end_char, trim_str};
use crate::urls::{parse_url, url_parts, ParsedUrl, UrlView};
use crate::wire::{domain_to_ascii, idna_ascii};
use crate::duration::duration_error_text;
use crate::hosts::hosts_error_text;
use crate::routes::route_error_text;
use crate::text::{decimal, decimal_string};
use crate::desktop::{DesktopConfig, DesktopConfigView};
use crate::text::{debug_quoted, debug_text};
use vstd::prelude::*;

verus! {

/// Why a configuration was refused.
#[derive(Clone, Debug)]
pub enum ConfigError {
    ModeInvalid,
    ListenRequired,
    TlsFilesRequired(String),
    TlsPemRequired(String),
    TlsSourceInvalid,
    DohPathRequired,
    TlsFieldsNotAllowed,
    UpstreamsEmpty,
    BootstrapInvalid(usize),
    BootstrapPointsToListener,
    ProxyNameRequired(usize),
    DuplicateProxy(String),
    ProxyEndpointRequired(usize),
    ProxyEndpointInvalid(usize),
    ProxySchemeUnsupported(usize, String),
    ProxyMissingHost(usize),
    ProxyHasPath(usize),
    ProxyHasQuery(usize),
    DefaultProxyUnknown(String),
    UpstreamNameRequired(usize),
    DuplicateUpstream(String),
    UpstreamEndpointRequired(usize),
    EndpointInvalid(String),
    EndpointSchemeUnsupported(String),
    EndpointMissingHost(String),
    EndpointHasPath(String, String),
    EndpointHasQuery(String, String),
    UpstreamPointsToListener(usize),
    UpstreamProxyUnknown(usize, String),
    Route(RouteError),
    DomainEmpty,
    InvalidIdna,
    BootstrapRequired(String, String),
    Hosts(HostsError),
    Timeout(DurationError),
    TimeoutZero,
    CacheMaxEntriesZero,
    CacheMaxEntrySizeZero,
    CacheEvictionPolicy,
    CacheTtlOrder,
    HealthcheckInterval(DurationError),
    HealthcheckTimeout(DurationError),
    HealthcheckDomainEmpty,
    FailureThresholdZero,
    RecoveryThresholdZero,
    LogLevelInvalid,
}

/// A refused configuration, as values.
pub enum ConfigErrorView {
    ModeInvalid,
    ListenRequired,
    TlsFilesRequired(Seq<char>),
    TlsPemRequired(Seq<char>),
    TlsSourceInvalid,
    DohPathRequired,
    TlsFieldsNotAllowed,
    UpstreamsEmpty,
    BootstrapInvalid(usize),
    BootstrapPointsToListener,
    ProxyNameRequired(usize),
    DuplicateProxy(Seq<char>),
    ProxyEndpointRequired(usize),
    ProxyEndpointInvalid(usize),
    ProxySchemeUnsupported(usize, Seq<char>),
    ProxyMissingHost(usize),
    ProxyHasPath(usize),
    ProxyHasQuery(usize),
    DefaultProxyUnknown(Seq<char>),
    UpstreamNameRequired(usize),
    DuplicateUpstream(Seq<char>),
    UpstreamEndpointRequired(usize),
    EndpointInvalid(Seq<char>),
    EndpointSchemeUnsupported(Seq<char>),
    EndpointMissingHost(Seq<char>),
    EndpointHasPath(Seq<char>, Seq<char>),
    EndpointHasQuery(Seq<char>, Seq<char>),
    UpstreamPointsToListener(usize),
    UpstreamProxyUnknown(usize, Seq<char>),
    Route(RouteErrorView),
    DomainEmpty,
    InvalidIdna,
    BootstrapRequired(Seq<char>, Seq<char>),
    Hosts(HostsErrorView),
    Timeout(DurationErrorView),
    TimeoutZero,
    CacheMaxEntriesZero,
    CacheMaxEntrySizeZero,
    CacheEvictionPolicy,
    CacheTtlOrder,
    HealthcheckInterval(DurationErrorView),
    HealthcheckTimeout(DurationErrorView),
    HealthcheckDomainEmpty,
    FailureThresholdZero,
    RecoveryThresholdZero,
    LogLevelInvalid,
}

impl View for ConfigError {
    type V = ConfigErrorView;

    open spec fn view(&self) -> ConfigErrorView {
        match self {
            ConfigError::ModeInvalid => ConfigErrorView::ModeInvalid,
            ConfigError::ListenRequired => ConfigErrorView::ListenRequired,
            ConfigError::TlsFilesRequired(m) => ConfigErrorView::TlsFilesRequired(m@),
            ConfigError::TlsPemRequired(m) => ConfigErrorView::TlsPemRequired(m@),
            ConfigError::TlsSourceInvalid => ConfigErrorView::TlsSourceInvalid,
            ConfigError::DohPathRequired => ConfigErrorView::DohPathRequired,
            ConfigError::TlsFieldsNotAllowed => ConfigErrorView::TlsFieldsNotAllowed,
            ConfigError::UpstreamsEmpty => ConfigErrorView::UpstreamsEmpty,
            ConfigError::BootstrapInvalid(i) => ConfigErrorView::BootstrapInvalid(*i),
            ConfigError::BootstrapPointsToListener => ConfigErrorView::BootstrapPointsToListener,
            ConfigError::ProxyNameRequired(i) => ConfigErrorView::ProxyNameRequired(*i),
            ConfigError::DuplicateProxy(n) => ConfigErrorView::DuplicateProxy(n@),
            ConfigError::ProxyEndpointRequired(i) => ConfigErrorView::ProxyEndpointRequired(*i),
            ConfigError::ProxyEndpointInvalid(i) => ConfigErrorView::ProxyEndpointInvalid(*i),
            ConfigError::ProxySchemeUnsupported(i, s) => ConfigErrorView::ProxySchemeUnsupported(*i, s@),
            ConfigError::ProxyMissingHost(i) => ConfigErrorView::ProxyMissingHost(*i),
            ConfigError::ProxyHasPath(i) => ConfigErrorView::ProxyHasPath(*i),
            ConfigError::ProxyHasQuery(i) => ConfigErrorView::ProxyHasQuery(*i),
            ConfigError::DefaultProxyUnknown(n) => ConfigErrorView::DefaultProxyUnknown(n@),
            ConfigError::UpstreamNameRequired(i) => ConfigErrorView::UpstreamNameRequired(*i),
            ConfigError::DuplicateUpstream(n) => ConfigErrorView::DuplicateUpstream(n@),
            ConfigError::UpstreamEndpointRequired(i) => ConfigErrorView::UpstreamEndpointRequired(*i),
            ConfigError::EndpointInvalid(r) => ConfigErrorView::EndpointInvalid(r@),
            ConfigError::EndpointSchemeUnsupported(s) => ConfigErrorView::EndpointSchemeUnsupported(s@),
            ConfigError::EndpointMissingHost(r) => ConfigErrorView::EndpointMissingHost(r@),
            ConfigError::EndpointHasPath(r, s) => ConfigErrorView::EndpointHasPath(r@, s@),
            ConfigError::EndpointHasQuery(r, s) => ConfigErrorView::EndpointHasQuery(r@, s@),
            ConfigError::UpstreamPointsToListener(i) => ConfigErrorView::UpstreamPointsToListener(*i),
            ConfigError::UpstreamProxyUnknown(i, n) => ConfigErrorView::UpstreamProxyUnknown(*i, n@),
            ConfigError::Route(e) => ConfigErrorView::Route(e@),
            ConfigError::DomainEmpty => ConfigErrorView::DomainEmpty,
            ConfigError::InvalidIdna => ConfigErrorView::InvalidIdna,
            ConfigError::BootstrapRequired(n, h) => ConfigErrorView::BootstrapRequired(n@, h@),
            ConfigError::Hosts(e) => ConfigErrorView::Hosts(e@),
            ConfigError::Timeout(e) => ConfigErrorView::Timeout(e@),
            ConfigError::TimeoutZero => ConfigErrorView::TimeoutZero,
            ConfigError::CacheMaxEntriesZero => ConfigErrorView::CacheMaxEntriesZero,
            ConfigError::CacheMaxEntrySizeZero => ConfigErrorView::CacheMaxEntrySizeZero,
            ConfigError::CacheEvictionPolicy => ConfigErrorView::CacheEvictionPolicy,
            ConfigError::CacheTtlOrder => ConfigErrorView::CacheTtlOrder,
            ConfigError::HealthcheckInterval(e) => ConfigErrorView::HealthcheckInterval(e@),
            ConfigError::HealthcheckTimeout(e) => ConfigErrorView::HealthcheckTimeout(e@),
            ConfigError::HealthcheckDomainEmpty => ConfigErrorView::HealthcheckDomainEmpty,
            ConfigError::FailureThresholdZero => ConfigErrorView::FailureThresholdZero,
            ConfigError::RecoveryThresholdZero => ConfigErrorView::RecoveryThresholdZero,
            ConfigError::LogLevelInvalid => ConfigErrorView::LogLevelInvalid,
        }
    }
}

/// The listener modes.
pub open spec fn mode_ok(m: Seq<char>) -> bool {
    m == "udp"@ || m == "tcp"@ || m == "doh"@ || m == "dot"@
}

/// The TLS material a DoH or DoT listener needs: both files when read from files, both
/// PEM texts (not blank) when inline.
pub open spec fn tls_spec(s: ServerView, mode: Seq<char>) -> Result<(), ConfigErrorView> {
    if s.tls_source == "file"@ {
        if s.cert_file.len() == 0 || s.key_file.len() == 0 {
            Err(ConfigErrorView::TlsFilesRequired(mode))
        } else {
            Ok(())
        }
    } else if s.tls_source == "inline"@ {
        if trim(s.cert_pem).len() == 0 || trim(s.key_pem).len() == 0 {
            Err(ConfigErrorView::TlsPemRequired(mode))
        } else {
            Ok(())
        }
    } else {
        Err(ConfigErrorView::TlsSourceInvalid)
    }
}

/// The checks of the listener.
pub open spec fn server_spec(s: ServerView) -> Result<(), ConfigErrorView> {
    if !mode_ok(s.mode) {
        Err(ConfigErrorView::ModeInvalid)
    } else if trim(s.listen).len() == 0 {
        Err(ConfigErrorView::ListenRequired)
    } else if s.mode == "doh"@ {
        match tls_spec(s, "doh"@) {
            Err(e) => Err(e),
            Ok(()) => if s.path.len() == 0 { Err(ConfigErrorView::DohPathRequired) } else { Ok(()) },
        }
    } else if s.mode == "dot"@ {
        tls_spec(s, "dot"@)
    } else if s.cert_file.len() != 0 || s.key_file.len() != 0 || s.cert_pem.len() != 0 || s.key_pem.len() != 0 {
        Err(ConfigErrorView::TlsFieldsNotAllowed)
    } else {
        Ok(())
    }
}

fn text(s: &str) -> (r: String)
    ensures
        r@ == s@,
{
    String::from_str(s)
}

fn tls_check(s: &crate::config::CoreServerConfig, mode: &str) -> (r: Result<(), ConfigError>)
    ensures
        match r {
            Ok(()) => tls_spec(s@, mode@) == Ok::<(), ConfigErrorView>(()),
            Err(e) => tls_spec(s@, mode@) == Err::<(), ConfigErrorView>(e@),
        },
{
    if str_eq(s.tls_source.as_str(), "file") {
        if s.cert_file.as_str().is_empty() || s.key_file.as_str().is_empty() {
            return Err(ConfigError::TlsFilesRequired(text(mode)));
        }
        Ok(())
    } else if str_eq(s.tls_source.as_str(), "inline") {
        if trim_str(s.cert_pem.as_str()).as_str().is_empty() || trim_str(s.key_pem.as_str()).as_str().is_empty() {
            return Err(ConfigError::TlsPemRequired(text(mode)));
        }
        Ok(())
    } else {
        Err(ConfigError::TlsSourceInvalid)
    }
}

fn server_check(s: &crate::config::CoreServerConfig) -> (r: Result<(), ConfigError>)
    ensures
        match r {
            Ok(()) => server_spec(s@) == Ok::<(), ConfigErrorView>(()),
            Err(e) => server_spec(s@) == Err::<(), ConfigErrorView>(e@),
        },
{
    let m = s.mode.as_str();
    if !(str_eq(m, "udp") || str_eq(m, "tcp") || str_eq(m, "doh") || str_eq(m, "dot")) {
        return Err(ConfigError::ModeInvalid);
    }
    if trim_str(s.listen.as_str()).as_str().is_empty() {
        return Err(ConfigError::ListenRequired);
    }
    if str_eq(m, "doh") {
        tls_check(s, "doh")?;
        if s.path.as_str().is_empty() {
            return Err(ConfigError::DohPathRequired);
        }
        Ok(())
    } else if str_eq(m, "dot") {
        tls_check(s, "dot")
    } else if !s.cert_file.as_str().is_empty() || !s.key_file.as_str().is_empty() || !s.cert_pem.as_str().is_empty()
        || !s.key_pem.as_str().is_empty() {
        Err(ConfigError::TlsFieldsNotAllowed)
    } else {
        Ok(())
    }
}

/// Whether an upstream or bootstrap address would reach the listener: the same address, or
/// any loopback or unspecified address of the family when the listener is unspecified.
pub open spec fn overlap(listener: IpAddress, other: IpAddress) -> bool {
    listener == other || (is_unspecified(listener) && same_family(listener, other) && (is_unspecified(other)
        || is_loopback(other)))
}

fn overlaps(listener: IpAddress, other: IpAddress) -> (b: bool)
    ensures
        b == overlap(listener, other),
{
    if listener == other {
        return true;
    }
    crate::net::unspecified(listener) && crate::net::family_matches(listener, other) && (crate::net::unspecified(other)
        || crate::net::loopback(other))
}

/// A bootstrap server: a socket address, or an IP address with port 53.
pub open spec fn bootstrap_server_spec(v: Seq<char>) -> Option<SocketAddress> {
    match parse_socket_spec(v) {
        Some(a) => Some(a),
        None => match parse_ip_spec(v) {
            Some(ip) => Some(SocketAddress { ip, port: 53, scope_id: 0 }),
            None => None,
        },
    }
}

/// The bootstrap servers of the first `n` entries (blank entries skipped), or the first
/// entry that is not a server.
pub open spec fn bootstrap_spec(items: Seq<Seq<char>>, n: nat) -> Result<Seq<SocketAddress>, ConfigErrorView>
    decreases n,
{
    if n == 0 {
        Ok(Seq::empty())
    } else {
        match bootstrap_spec(items, (n - 1) as nat) {
            Err(e) => Err(e),
            Ok(v) => {
                let t = trim(items[n - 1]);
                if t.len() == 0 {
                    Ok(v)
                } else {
                    match bootstrap_server_spec(t) {
                        Some(a) => Ok(v.push(a)),
                        None => Err(ConfigErrorView::BootstrapInvalid((n - 1) as usize)),
                    }
                }
            },
        }
    }
}

fn bootstrap_server(t: &str) -> (r: Option<SocketAddress>)
    ensures
        r == bootstrap_server_spec(t@),
{
    match parse_socket_addr(t) {
        Some(a) => Some(a),
        None => match parse_ip(t) {
            Some(ip) => Some(SocketAddress { ip, port: 53, scope_id: 0 }),
            None => None,
        },
    }
}

/// Reads the bootstrap servers.
pub fn parse_bootstrap_dns_servers(items: &Vec<String>) -> (r: Result<Vec<SocketAddress>, ConfigError>)
    ensures
        match r {
            Ok(v) => bootstrap_spec(texts(items@), items@.len()) == Ok::<Seq<SocketAddress>, ConfigErrorView>(v@),
            Err(e) => bootstrap_spec(texts(items@), items@.len()) == Err::<Seq<SocketAddress>, ConfigErrorView>(e@),
        },
{
    let ghost tv = texts(items@);
    let mut out: Vec<SocketAddress> = Vec::new();
    let mut i: usize = 0;
    while i < items.len()
        invariant
            tv == texts(items@),
            i <= items@.len(),
            bootstrap_spec(tv, i as nat) == Ok::<Seq<SocketAddress>, ConfigErrorView>(out@),
        decreases items@.len() - i,
    {
        let t = trim_str(items[i].as_str());
        if !t.as_str().is_empty() {
            let a = match bootstrap_server(t.as_str()) {
                Some(a) => a,
                None => {
                    proof {
                        lemma_bootstrap_err(tv, i as nat + 1, items@.len());
                    }
                    return Err(ConfigError::BootstrapInvalid(i));
                },
            };
            out.push(a);
        }
        i = i + 1;
    }
    Ok(out)
}

proof fn lemma_bootstrap_err(items: Seq<Seq<char>>, k: nat, n: nat)
    requires
        k <= n,
        bootstrap_spec(items, k) is Err,
    ensures
        bootstrap_spec(items, n) == bootstrap_spec(items, k),
    decreases n - k,
{
    if k < n {
        lemma_bootstrap_err(items, k, (n - 1) as nat);
    }
}

/// Whether a socket address reaches the listener `listen`: same port and overlapping
/// addresses (a listener that does not parse is reached by nothing).
pub open spec fn socket_points_to_listener_spec(listen: Seq<char>, s: SocketAddress) -> bool {
    match parse_socket_spec(trim(listen)) {
        None => false,
        Some(l) => s.port == l.port && overlap(l.ip, s.ip),
    }
}

fn socket_points_to_listener(listen: &str, s: SocketAddress) -> (b: bool)
    ensures
        b == socket_points_to_listener_spec(listen@, s),
{
    let t = trim_str(listen);
    match parse_socket_addr(t.as_str()) {
        None => false,
        Some(l) => s.port == l.port && overlaps(l.ip, s.ip),
    }
}

/// The port an endpoint is reached on: its own, else the scheme's default (none for an
/// unknown scheme).
pub open spec fn endpoint_port_spec(u: UrlView) -> Option<u16> {
    match u.port {
        Some(p) => Some(p),
        None => if u.scheme == "udp"@ || u.scheme == "tcp"@ {
            Some(53)
        } else if u.scheme == "dot"@ || u.scheme == "doq"@ || u.scheme == "quic"@ {
            Some(853)
        } else if u.scheme == "http"@ {
            Some(80)
        } else if u.scheme == "https"@ {
            Some(443)
        } else {
            None
        },
    }
}

/// The addresses an endpoint host stands for: both loopbacks for `localhost` (any case),
/// else the host read as an IP address; none for a domain.
pub open spec fn endpoint_ips_spec(u: UrlView) -> Option<Seq<IpAddress>> {
    match u.host {
        None => None,
        Some(h) => if lower_seq(h) == "localhost"@ {
            Some(seq![IpAddress::V4(127, 0, 0, 1), IpAddress::V6(0, 0, 0, 0, 0, 0, 0, 1)])
        } else {
            match parse_ip_spec(h) {
                Some(ip) => Some(seq![ip]),
                None => None,
            }
        },
    }
}

/// Whether some address of a list reaches the listener address `l`.
pub open spec fn reaches_any(l: IpAddress, ips: Seq<IpAddress>) -> bool {
    exists|k: int| 0 <= k < ips.len() && overlap(l, #[trigger] ips[k])
}

/// Whether an upstream endpoint reaches the listener: same port and some overlapping
/// address.
pub open spec fn upstream_points_to_listener_spec(listen: Seq<char>, u: UrlView) -> bool {
    match parse_socket_spec(trim(listen)) {
        None => false,
        Some(l) => match endpoint_port_spec(u) {
            None => false,
            Some(p) => p == l.port && match endpoint_ips_spec(u) {
                None => false,
                Some(ips) => reaches_any(l.ip, ips),
            },
        },
    }
}

fn endpoint_port(u: &ParsedUrl) -> (r: Option<u16>)
    ensures
        r == endpoint_port_spec(u@),
{
    match u.port {
        Some(p) => Some(p),
        None => {
            let s = u.scheme.as_str();
            if str_eq(s, "udp") || str_eq(s, "tcp") {
                Some(53)
            } else if str_eq(s, "dot") || str_eq(s, "doq") || str_eq(s, "quic") {
                Some(853)
            } else if str_eq(s, "http") {
                Some(80)
            } else if str_eq(s, "https") {
                Some(443)
            } else {
                None
            }
        },
    }
}

fn upstream_points_to_listener(listen: &str, u: &ParsedUrl) -> (b: bool)
    ensures
        b == upstream_points_to_listener_spec(listen@, u@),
{
    let t = trim_str(listen);
    let l = match parse_socket_addr(t.as_str()) {
        None => return false,
        Some(l) => l,
    };
    let p = match endpoint_port(u) {
        None => return false,
        Some(p) => p,
    };
    if p != l.port {
        return false;
    }
    let h = match &u.host {
        None => return false,
        Some(h) => h,
    };
    if str_eq(lower_str(h.as_str()).as_str(), "localhost") {
        let a = IpAddress::V4(127, 0, 0, 1);
        let b = IpAddress::V6(0, 0, 0, 0, 0, 0, 0, 1);
        let r = overlaps(l.ip, a) || overlaps(l.ip, b);
        proof {
            let ips = seq![a, b];
            assert(parse_socket_spec(trim(listen@)) == Some(l));
            assert(endpoint_port_spec(u@) == Some(p));
            assert(endpoint_ips_spec(u@) == Some(ips));
            if r {
                if overlap(l.ip, a) {
                    assert(overlap(l.ip, ips[0]));
                } else {
                    assert(overlap(l.ip, ips[1]));
                }
            } else {
                assert forall|k: int| 0 <= k < ips.len() implies !overlap(l.ip, #[trigger] ips[k]) by {}
            }
            assert(r == reaches_any(l.ip, ips));
        }
        return r;
    }
    match parse_ip(h.as_str()) {
        None => false,
        Some(ip) => {
            let r = overlaps(l.ip, ip);
            proof {
                let ips = seq![ip];
                assert(endpoint_ips_spec(u@) == Some(ips));
                if r {
                    assert(overlap(l.ip, ips[0]));
                }
                assert(r == reaches_any(l.ip, ips));
            }
            r
        },
    }
}

/// The checks of proxy `i`, given the names of the proxies before it.
pub open spec fn proxy_check_spec(i: usize, p: ProxyView, names: Seq<Seq<char>>) -> Result<(), ConfigErrorView> {
    if p.name.len() == 0 {
        Err(ConfigErrorView::ProxyNameRequired(i))
    } else if names.contains(p.name) {
        Err(ConfigErrorView::DuplicateProxy(p.name))
    } else if p.endpoint.len() == 0 {
        Err(ConfigErrorView::ProxyEndpointRequired(i))
    } else {
        match url_parts(p.endpoint) {
            None => Err(ConfigErrorView::ProxyEndpointInvalid(i)),
            Some(u) => if u.scheme != "socks5"@ {
                Err(ConfigErrorView::ProxySchemeUnsupported(i, u.scheme))
            } else if u.host is None || u.host->Some_0.len() == 0 {
                Err(ConfigErrorView::ProxyMissingHost(i))
            } else if u.path.len() != 0 && u.path != "/"@ {
                Err(ConfigErrorView::ProxyHasPath(i))
            } else if u.query is Some {
                Err(ConfigErrorView::ProxyHasQuery(i))
            } else {
                Ok(())
            },
        }
    }
}

/// The names of the first `n` proxies, or the first failed check.
pub open spec fn proxies_spec(items: Seq<ProxyView>, n: nat) -> Result<Seq<Seq<char>>, ConfigErrorView>
    decreases n,
{
    if n == 0 {
        Ok(Seq::empty())
    } else {
        match proxies_spec(items, (n - 1) as nat) {
            Err(e) => Err(e),
            Ok(names) => match proxy_check_spec((n - 1) as usize, items[n - 1], names) {
                Err(e) => Err(e),
                Ok(()) => Ok(names.push(items[n - 1].name)),
            },
        }
    }
}

fn contains_text(v: &Vec<String>, t: &str) -> (b: bool)
    ensures
        b == texts(v@).contains(t@),
{
    let mut i: usize = 0;
    while i < v.len()
        invariant
            i <= v@.len(),
            forall|j: int| 0 <= j < i ==> texts(v@)[j] != t@,
        decreases v@.len() - i,
    {
        if str_eq(v[i].as_str(), t) {
            assert(texts(v@)[i as int] == t@);
            return true;
        }
        i = i + 1;
    }
    false
}

fn proxy_check(i: usize, p: &CoreProxyConfig, names: &Vec<String>) -> (r: Result<(), ConfigError>)
    ensures
        match r {
            Ok(()) => proxy_check_spec(i, p@, texts(names@)) == Ok::<(), ConfigErrorView>(()),
            Err(e) => proxy_check_spec(i, p@, texts(names@)) == Err::<(), ConfigErrorView>(e@),
        },
{
    if p.name.as_str().is_empty() {
        return Err(ConfigError::ProxyNameRequired(i));
    }
    if contains_text(names, p.name.as_str()) {
        return Err(ConfigError::DuplicateProxy(p.name.clone()));
    }
    if p.endpoint.as_str().is_empty() {
        return Err(ConfigError::ProxyEndpointRequired(i));
    }
    let u = match parse_url(p.endpoint.as_str()) {
        None => return Err(ConfigError::ProxyEndpointInvalid(i)),
        Some(u) => u,
    };
    if !str_eq(u.scheme.as_str(), "socks5") {
        return Err(ConfigError::ProxySchemeUnsupported(i, u.scheme));
    }
    let missing = match &u.host {
        None => true,
        Some(h) => h.as_str().is_empty(),
    };
    if missing {
        return Err(ConfigError::ProxyMissingHost(i));
    }
    if !u.path.as_str().is_empty() && !str_eq(u.path.as_str(), "/") {
        return Err(ConfigError::ProxyHasPath(i));
    }
    if u.query.is_some() {
        return Err(ConfigError::ProxyHasQuery(i));
    }
    Ok(())
}

/// Checks the proxies and returns their names.
pub fn compile_proxy_definitions(items: &Vec<CoreProxyConfig>) -> (r: Result<Vec<String>, ConfigError>)
    ensures
        match r {
            Ok(v) => proxies_spec(crate::config::proxy_views(items@), items@.len()) == Ok::<Seq<Seq<char>>, ConfigErrorView>(texts(v@)),
            Err(e) => proxies_spec(crate::config::proxy_views(items@), items@.len()) == Err::<Seq<Seq<char>>, ConfigErrorView>(e@),
        },
{
    let ghost pv = crate::config::proxy_views(items@);
    let mut names: Vec<String> = Vec::new();
    let mut i: usize = 0;
    assert(texts(names@) =~= Seq::<Seq<char>>::empty());
    while i < items.len()
        invariant
            pv == crate::config::proxy_views(items@),
            i <= items@.len(),
            proxies_spec(pv, i as nat) == Ok::<Seq<Seq<char>>, ConfigErrorView>(texts(names@)),
        decreases items@.len() - i,
    {
        match proxy_check(i, &items[i], &names) {
            Err(e) => {
                proof {
                    lemma_proxies_err(pv, i as nat + 1, items@.len());
                }
                return Err(e);
            },
            Ok(()) => {},
        }
        let ghost before = texts(names@);
        names.push(items[i].name.clone());
        assert(texts(names@) =~= before.push(pv[i as int].name));
        i = i + 1;
    }
    Ok(names)
}

proof fn lemma_proxies_err(items: Seq<ProxyView>, k: nat, n: nat)
    requires
        k <= n,
        proxies_spec(items, k) is Err,
    ensures
        proxies_spec(items, n) == proxies_spec(items, k),
    decreases n - k,
{
    if k < n {
        lemma_proxies_err(items, k, (n - 1) as nat);
    }
}

/// The schemes an upstream endpoint may use.
pub open spec fn upstream_scheme_ok(s: Seq<char>) -> bool {
    s == "udp"@ || s == "tcp"@ || s == "dot"@ || s == "doq"@ || s == "quic"@ || s == "http"@ || s == "https"@
}

/// An upstream endpoint read as a URL: a known scheme and a host, and no path or query
/// except for DoH.
pub open spec fn endpoint_spec(raw: Seq<char>) -> Result<UrlView, ConfigErrorView> {
    match url_parts(raw) {
        None => Err(ConfigErrorView::EndpointInvalid(raw)),
        Some(u) => if !upstream_scheme_ok(u.scheme) {
            Err(ConfigErrorView::EndpointSchemeUnsupported(u.scheme))
        } else if u.host is None || u.host->Some_0.len() == 0 {
            Err(ConfigErrorView::EndpointMissingHost(raw))
        } else if u.scheme != "http"@ && u.scheme != "https"@ && u.path.len() != 0 && u.path != "/"@ {
            Err(ConfigErrorView::EndpointHasPath(raw, u.scheme))
        } else if u.scheme != "http"@ && u.scheme != "https"@ && u.query is Some {
            Err(ConfigErrorView::EndpointHasQuery(raw, u.scheme))
        } else {
            Ok(u)
        },
    }
}

/// Reads an upstream endpoint.
pub fn parse_upstream_endpoint(raw: &str) -> (r: Result<ParsedUrl, ConfigError>)
    ensures
        match r {
            Ok(u) => endpoint_spec(raw@) == Ok::<UrlView, ConfigErrorView>(u@),
            Err(e) => endpoint_spec(raw@) == Err::<UrlView, ConfigErrorView>(e@),
        },
{
    let u = match parse_url(raw) {
        None => return Err(ConfigError::EndpointInvalid(text(raw))),
        Some(u) => u,
    };
    let s = u.scheme.as_str();
    if !(str_eq(s, "udp") || str_eq(s, "tcp") || str_eq(s, "dot") || str_eq(s, "doq") || str_eq(s, "quic")
        || str_eq(s, "http") || str_eq(s, "https")) {
        return Err(ConfigError::EndpointSchemeUnsupported(u.scheme.clone()));
    }
    let missing = match &u.host {
        None => true,
        Some(h) => h.as_str().is_empty(),
    };
    if missing {
        return Err(ConfigError::EndpointMissingHost(text(raw)));
    }
    let web = str_eq(s, "http") || str_eq(s, "https");
    if !web && !u.path.as_str().is_empty() && !str_eq(u.path.as_str(), "/") {
        return Err(ConfigError::EndpointHasPath(text(raw), u.scheme.clone()));
    }
    if !web && u.query.is_some() {
        return Err(ConfigError::EndpointHasQuery(text(raw), u.scheme.clone()));
    }
    Ok(u)
}

/// The proxy an upstream goes through: its own, else the default.
pub open spec fn proxy_name_spec(u: UpstreamView, default_proxy: Seq<char>) -> Seq<char> {
    if u.proxy.len() == 0 { default_proxy } else { u.proxy }
}

/// The checks of upstream `i`, given the names of the upstreams before it.
pub open spec fn upstream_check_spec(
    i: usize,
    u: UpstreamView,
    names: Seq<Seq<char>>,
    proxies: Seq<Seq<char>>,
    default_proxy: Seq<char>,
    listen: Seq<char>,
) -> Result<(), ConfigErrorView> {
    if u.name.len() == 0 {
        Err(ConfigErrorView::UpstreamNameRequired(i))
    } else if names.contains(u.name) {
        Err(ConfigErrorView::DuplicateUpstream(u.name))
    } else if u.endpoint.len() == 0 {
        Err(ConfigErrorView::UpstreamEndpointRequired(i))
    } else {
        match endpoint_spec(u.endpoint) {
            Err(e) => Err(e),
            Ok(url) => if upstream_points_to_listener_spec(listen, url) {
                Err(ConfigErrorView::UpstreamPointsToListener(i))
            } else {
                let p = proxy_name_spec(u, default_proxy);
                if p.len() != 0 && !proxies.contains(p) {
                    Err(ConfigErrorView::UpstreamProxyUnknown(i, p))
                } else {
                    Ok(())
                }
            },
        }
    }
}

/// The names of the first `n` upstreams, or the first failed check.
pub open spec fn upstreams_spec(
    items: Seq<UpstreamView>,
    n: nat,
    proxies: Seq<Seq<char>>,
    default_proxy: Seq<char>,
    listen: Seq<char>,
) -> Result<Seq<Seq<char>>, ConfigErrorView>
    decreases n,
{
    if n == 0 {
        Ok(Seq::empty())
    } else {
        match upstreams_spec(items, (n - 1) as nat, proxies, default_proxy, listen) {
            Err(e) => Err(e),
            Ok(names) => match upstream_check_spec((n - 1) as usize, items[n - 1], names, proxies, default_proxy, listen) {
                Err(e) => Err(e),
                Ok(()) => Ok(names.push(items[n - 1].name)),
            },
        }
    }
}

fn upstream_check(
    i: usize,
    u: &CoreUpstreamConfig,
    names: &Vec<String>,
    proxies: &Vec<String>,
    default_proxy: &String,
    listen: &String,
) -> (r: Result<(), ConfigError>)
    ensures
        match r {
            Ok(()) => upstream_check_spec(i, u@, texts(names@), texts(proxies@), default_proxy@, listen@) == Ok::<(), ConfigErrorView>(()),
            Err(e) => upstream_check_spec(i, u@, texts(names@), texts(proxies@), default_proxy@, listen@) == Err::<(), ConfigErrorView>(e@),
        },
{
    if u.name.as_str().is_empty() {
        return Err(ConfigError::UpstreamNameRequired(i));
    }
    if contains_text(names, u.name.as_str()) {
        return Err(ConfigError::DuplicateUpstream(u.name.clone()));
    }
    if u.endpoint.as_str().is_empty() {
        return Err(ConfigError::UpstreamEndpointRequired(i));
    }
    let url = parse_upstream_endpoint(u.endpoint.as_str())?;
    if upstream_points_to_listener(listen.as_str(), &url) {
        return Err(ConfigError::UpstreamPointsToListener(i));
    }
    let p = if u.proxy.as_str().is_empty() { default_proxy } else { &u.proxy };
    if !p.as_str().is_empty() && !contains_text(proxies, p.as_str()) {
        return Err(ConfigError::UpstreamProxyUnknown(i, p.clone()));
    }
    Ok(())
}

fn check_upstreams(items: &Vec<CoreUpstreamConfig>, proxies: &Vec<String>, default_proxy: &String, listen: &String) -> (r: Result<Vec<String>, ConfigError>)
    ensures
        match r {
            Ok(v) => upstreams_spec(crate::config::upstream_views(items@), items@.len(), texts(proxies@), default_proxy@, listen@)
                == Ok::<Seq<Seq<char>>, ConfigErrorView>(texts(v@)),
            Err(e) => upstreams_spec(crate::config::upstream_views(items@), items@.len(), texts(proxies@), default_proxy@, listen@)
                == Err::<Seq<Seq<char>>, ConfigErrorView>(e@),
        },
{
    let ghost uv = crate::config::upstream_views(items@);
    let mut names: Vec<String> = Vec::new();
    let mut i: usize = 0;
    assert(texts(names@) =~= Seq::<Seq<char>>::empty());
    while i < items.len()
        invariant
            uv == crate::config::upstream_views(items@),
            i <= items@.len(),
            upstreams_spec(uv, i as nat, texts(proxies@), default_proxy@, listen@) == Ok::<Seq<Seq<char>>, ConfigErrorView>(texts(names@)),
        decreases items@.len() - i,
    {
        match upstream_check(i, &items[i], &names, proxies, default_proxy, listen) {
            Err(e) => {
                proof {
                    lemma_upstreams_err(uv, i as nat + 1, items@.len(), texts(proxies@), default_proxy@, listen@);
                }
                return Err(e);
            },
            Ok(()) => {},
        }
        let ghost before = texts(names@);
        names.push(items[i].name.clone());
        assert(texts(names@) =~= before.push(uv[i as int].name));
        i = i + 1;
    }
    Ok(names)
}

proof fn lemma_upstreams_err(items: Seq<UpstreamView>, k: nat, n: nat, proxies: Seq<Seq<char>>, default_proxy: Seq<char>, listen: Seq<char>)
    requires
        k <= n,
        upstreams_spec(items, k, proxies, default_proxy, listen) is Err,
    ensures
        upstreams_spec(items, n, proxies, default_proxy, listen) == upstreams_spec(items, k, proxies, default_proxy, listen),
    decreases n - k,
{
    if k < n {
        lemma_upstreams_err(items, k, (n - 1) as nat, proxies, default_proxy, listen);
    }
}

proof fn lemma_upstream_names(
    items: Seq<UpstreamView>,
    n: nat,
    proxies: Seq<Seq<char>>,
    default_proxy: Seq<char>,
    listen: Seq<char>,
)
    requires
        n <= items.len(),
        upstreams_spec(items, n, proxies, default_proxy, listen) is Ok,
    ensures
        ({
            let names = upstreams_spec(items, n, proxies, default_proxy, listen)->Ok_0;
            &&& names.len() == n
            &&& forall|k: int| 0 <= k < n ==> #[trigger] names[k] == items[k].name
            &&& forall|a: int, b: int| 0 <= a < b < n ==> items[a].name != items[b].name
        }),
    decreases n,
{
    if n > 0 {
        lemma_upstream_names(items, (n - 1) as nat, proxies, default_proxy, listen);
        let prev = upstreams_spec(items, (n - 1) as nat, proxies, default_proxy, listen)->Ok_0;
        assert forall|a: int| 0 <= a < n - 1 implies #[trigger] items[a].name != items[n - 1].name by {
            if items[a].name == items[n - 1].name {
                assert(prev[a] == items[a].name);
                assert(prev.contains(items[n - 1].name));
            }
        }
    }
}

/// A configuration that passes the checks names each upstream once: no two upstreams
/// share a name.
pub proof fn law_valid_config_has_distinct_upstream_names(c: ConfigView)
    requires
        validate_spec(c) == Ok::<(), ConfigErrorView>(()),
    ensures
        forall|a: int, b: int|
            0 <= a < b < c.resolver.upstreams.len() ==> #[trigger] c.resolver.upstreams[a].name
                != #[trigger] c.resolver.upstreams[b].name,
{
    let servers = bootstrap_spec(c.resolver.bootstrap_dns, c.resolver.bootstrap_dns.len())->Ok_0;
    let pnames = proxies_spec(c.resolver.proxies, c.resolver.proxies.len())->Ok_0;
    let items = c.resolver.upstreams;
    assert(upstreams_spec(items, items.len(), pnames, c.resolver.default_proxy, c.server.listen) is Ok);
    lemma_upstream_names(items, items.len(), pnames, c.resolver.default_proxy, c.server.listen);
}

/// The proxy an upstream really uses: its own (trimmed), else the default (trimmed); none
/// when that is blank.
pub open spec fn effective_proxy_spec(u: UpstreamView, default_proxy: Seq<char>) -> Option<Seq<char>> {
    let v = if trim(u.proxy).len() == 0 { trim(default_proxy) } else { trim(u.proxy) };
    if v.len() == 0 { None } else { Some(v) }
}

/// The proxy an upstream really uses.
pub fn effective_proxy(upstream: &CoreUpstreamConfig, default_proxy: &str) -> (r: Option<String>)
    ensures
        match r {
            Some(p) => effective_proxy_spec(upstream@, default_proxy@) == Some(p@),
            None => effective_proxy_spec(upstream@, default_proxy@) is None,
        },
{
    let own = trim_str(upstream.proxy.as_str());
    let v = if own.as_str().is_empty() { trim_str(default_proxy) } else { own };
    if v.as_str().is_empty() { None } else { Some(v) }
}

/// The domain a host name is looked up as for routing: trimmed, trailing dots dropped,
/// IDNA ASCII form, lower-cased.
pub open spec fn route_domain_spec(host: Seq<char>) -> Result<Seq<char>, ConfigErrorView> {
    let t = trim_end_char(trim(host), '.');
    if t.len() == 0 {
        Err(ConfigErrorView::DomainEmpty)
    } else {
        match idna_ascii(t) {
            None => Err(ConfigErrorView::InvalidIdna),
            Some(a) => Ok(lower_seq(a)),
        }
    }
}

fn normalize_route_domain(host: &str) -> (r: Result<String, ConfigError>)
    ensures
        match r {
            Ok(d) => route_domain_spec(host@) == Ok::<Seq<char>, ConfigErrorView>(d@),
            Err(e) => route_domain_spec(host@) == Err::<Seq<char>, ConfigErrorView>(e@),
        },
{
    let v = crate::text::trim_end_char_chars(&crate::text::trim_chars(&chars_of(host)), '.');
    if v.len() == 0 {
        return Err(ConfigError::DomainEmpty);
    }
    let t = crate::text::string_from_chars(v.as_slice());
    match domain_to_ascii(t.as_str()) {
        None => Err(ConfigError::InvalidIdna),
        Some(a) => Ok(lower_str(a.as_str())),
    }
}

/// The check that upstream `u` does not need itself to be resolved: one without a proxy,
/// whose host is a domain, must not be among the upstreams its own domain is routed to.
pub open spec fn self_resolve_check_spec(u: UpstreamView, default_proxy: Seq<char>, table: RouteTable, defaults: Seq<Seq<char>>) -> Result<(), ConfigErrorView> {
    if effective_proxy_spec(u, default_proxy) is Some {
        Ok(())
    } else {
        match endpoint_spec(u.endpoint) {
            Err(e) => Err(e),
            Ok(url) => match url.host {
                None => Ok(()),
                Some(h) => if parse_ip_spec(h) is Some {
                    Ok(())
                } else {
                    match route_domain_spec(h) {
                        Err(e) => Err(e),
                        Ok(d) => if select_spec(table, d, defaults).1.contains(u.name) {
                            Err(ConfigErrorView::BootstrapRequired(u.name, h))
                        } else {
                            Ok(())
                        },
                    }
                },
            },
        }
    }
}

/// The self-resolution checks of the first `n` upstreams.
pub open spec fn self_resolve_spec(items: Seq<UpstreamView>, n: nat, default_proxy: Seq<char>, table: RouteTable, defaults: Seq<Seq<char>>) -> Result<(), ConfigErrorView>
    decreases n,
{
    if n == 0 {
        Ok(())
    } else {
        match self_resolve_spec(items, (n - 1) as nat, default_proxy, table, defaults) {
            Err(e) => Err(e),
            Ok(()) => self_resolve_check_spec(items[n - 1], default_proxy, table, defaults),
        }
    }
}

fn self_resolve_check(u: &CoreUpstreamConfig, default_proxy: &String, routes: &Routes, defaults: &Vec<String>) -> (r: Result<(), ConfigError>)
    ensures
        match r {
            Ok(()) => self_resolve_check_spec(u@, default_proxy@, routes@, texts(defaults@)) == Ok::<(), ConfigErrorView>(()),
            Err(e) => self_resolve_check_spec(u@, default_proxy@, routes@, texts(defaults@)) == Err::<(), ConfigErrorView>(e@),
        },
{
    if effective_proxy(u, default_proxy.as_str()).is_some() {
        return Ok(());
    }
    let url = parse_upstream_endpoint(u.endpoint.as_str())?;
    let h = match &url.host {
        None => return Ok(()),
        Some(h) => h,
    };
    if parse_ip(h.as_str()).is_some() {
        return Ok(());
    }
    let d = normalize_route_domain(h.as_str())?;
    let ds = defaults.as_slice();
    assert(names_view(ds@) == texts(defaults@));
    let (_, selected) = routes.select(d.as_str(), ds);
    if contains_text_slice(selected, u.name.as_str()) {
        return Err(ConfigError::BootstrapRequired(u.name.clone(), h.clone()));
    }
    Ok(())
}

fn contains_text_slice(v: &[String], t: &str) -> (b: bool)
    ensures
        b == names_view(v@).contains(t@),
{
    let mut i: usize = 0;
    while i < v.len()
        invariant
            i <= v@.len(),
            forall|j: int| 0 <= j < i ==> names_view(v@)[j] != t@,
        decreases v@.len() - i,
    {
        if str_eq(v[i].as_str(), t) {
            assert(names_view(v@)[i as int] == t@);
            return true;
        }
        i = i + 1;
    }
    false
}

fn check_self_resolution(items: &Vec<CoreUpstreamConfig>, default_proxy: &String, routes: &Routes, defaults: &Vec<String>) -> (r: Result<(), ConfigError>)
    ensures
        match r {
            Ok(()) => self_resolve_spec(crate::config::upstream_views(items@), items@.len(), default_proxy@, routes@, texts(defaults@))
                == Ok::<(), ConfigErrorView>(()),
            Err(e) => self_resolve_spec(crate::config::upstream_views(items@), items@.len(), default_proxy@, routes@, texts(defaults@))
                == Err::<(), ConfigErrorView>(e@),
        },
{
    let ghost uv = crate::config::upstream_views(items@);
    let mut i: usize = 0;
    while i < items.len()
        invariant
            uv == crate::config::upstream_views(items@),
            i <= items@.len(),
            self_resolve_spec(uv, i as nat, default_proxy@, routes@, texts(defaults@)) == Ok::<(), ConfigErrorView>(()),
        decreases items@.len() - i,
    {
        match self_resolve_check(&items[i], default_proxy, routes, defaults) {
            Err(e) => {
                proof {
                    lemma_self_resolve_err(uv, i as nat + 1, items@.len(), default_proxy@, routes@, texts(defaults@));
                }
                return Err(e);
            },
            Ok(()) => {},
        }
        i = i + 1;
    }
    Ok(())
}

proof fn lemma_self_resolve_err(items: Seq<UpstreamView>, k: nat, n: nat, default_proxy: Seq<char>, table: RouteTable, defaults: Seq<Seq<char>>)
    requires
        k <= n,
        self_resolve_spec(items, k, default_proxy, table, defaults) is Err,
    ensures
        self_resolve_spec(items, n, default_proxy, table, defaults) == self_resolve_spec(items, k, default_proxy, table, defaults),
    decreases n - k,
{
    if k < n {
        lemma_self_resolve_err(items, k, (n - 1) as nat, default_proxy, table, defaults);
    }
}

/// The checks of the cache, when it is on.
pub open spec fn cache_spec(c: CacheView) -> Result<(), ConfigErrorView> {
    if !c.enabled {
        Ok(())
    } else if c.max_entries == 0 {
        Err(ConfigErrorView::CacheMaxEntriesZero)
    } else if c.max_entry_size == 0 {
        Err(ConfigErrorView::CacheMaxEntrySizeZero)
    } else if c.eviction_policy != "lru"@ {
        Err(ConfigErrorView::CacheEvictionPolicy)
    } else if c.max_ttl > 0 && c.min_ttl > c.max_ttl {
        Err(ConfigErrorView::CacheTtlOrder)
    } else {
        Ok(())
    }
}

/// The checks of the health check settings: readable durations where set, and when on a
/// domain and both thresholds.
pub open spec fn healthcheck_spec(h: HealthcheckView) -> Result<(), ConfigErrorView> {
    if h.interval.len() != 0 && go_duration_spec(h.interval) is Err {
        Err(ConfigErrorView::HealthcheckInterval(go_duration_spec(h.interval)->Err_0))
    } else if h.timeout.len() != 0 && go_duration_spec(h.timeout) is Err {
        Err(ConfigErrorView::HealthcheckTimeout(go_duration_spec(h.timeout)->Err_0))
    } else if h.enabled && h.domain.len() == 0 {
        Err(ConfigErrorView::HealthcheckDomainEmpty)
    } else if h.enabled && h.failure_threshold == 0 {
        Err(ConfigErrorView::FailureThresholdZero)
    } else if h.enabled && h.recovery_threshold == 0 {
        Err(ConfigErrorView::RecoveryThresholdZero)
    } else {
        Ok(())
    }
}

/// The log levels (compared lower-cased).
pub open spec fn level_ok(level: Seq<char>) -> bool {
    let l = lower_seq(level);
    l == "debug"@ || l == "info"@ || l == "warn"@ || l == "error"@
}

/// The checks after hosts: the resolver timeout, the cache, the health checks, the level.
pub open spec fn tail_spec(c: ConfigView) -> Result<(), ConfigErrorView> {
    if c.resolver.timeout.len() != 0 && go_duration_spec(c.resolver.timeout) is Err {
        Err(ConfigErrorView::Timeout(go_duration_spec(c.resolver.timeout)->Err_0))
    } else if c.resolver.timeout.len() != 0 && go_duration_spec(c.resolver.timeout) == Ok::<nat, DurationErrorView>(0) {
        Err(ConfigErrorView::TimeoutZero)
    } else {
        match cache_spec(c.cache) {
            Err(e) => Err(e),
            Ok(()) => match healthcheck_spec(c.healthcheck) {
                Err(e) => Err(e),
                Ok(()) => if level_ok(c.level) { Ok(()) } else { Err(ConfigErrorView::LogLevelInvalid) },
            },
        }
    }
}

/// Whether some bootstrap server reaches the listener.
pub open spec fn bootstrap_reaches_listener(listen: Seq<char>, servers: Seq<SocketAddress>) -> bool {
    exists|k: int| 0 <= k < servers.len() && socket_points_to_listener_spec(listen, #[trigger] servers[k])
}

/// The checks after the listener and the upstream list: bootstrap servers, proxies,
/// upstreams, routes, self-resolution without bootstrap servers, hosts, then the tail.
pub open spec fn resolver_spec(c: ConfigView) -> Result<(), ConfigErrorView> {
    match bootstrap_spec(c.resolver.bootstrap_dns, c.resolver.bootstrap_dns.len()) {
        Err(e) => Err(e),
        Ok(servers) => if bootstrap_reaches_listener(c.server.listen, servers) {
            Err(ConfigErrorView::BootstrapPointsToListener)
        } else {
            match proxies_spec(c.resolver.proxies, c.resolver.proxies.len()) {
                Err(e) => Err(e),
                Ok(pnames) => if c.resolver.default_proxy.len() != 0 && !pnames.contains(c.resolver.default_proxy) {
                    Err(ConfigErrorView::DefaultProxyUnknown(c.resolver.default_proxy))
                } else {
                    match upstreams_spec(c.resolver.upstreams, c.resolver.upstreams.len(), pnames, c.resolver.default_proxy, c.server.listen) {
                        Err(e) => Err(e),
                        Ok(unames) => match compile_routes_spec(c.resolver.routes, unames) {
                            Err(e) => Err(ConfigErrorView::Route(e)),
                            Ok(table) => {
                                let selfcheck = if servers.len() == 0 {
                                    self_resolve_spec(c.resolver.upstreams, c.resolver.upstreams.len(), c.resolver.default_proxy, table, unames)
                                } else {
                                    Ok(())
                                };
                                match selfcheck {
                                    Err(e) => Err(e),
                                    Ok(()) => match compile_hosts_spec(c.resolver.hosts) {
                                        Err(e) => Err(ConfigErrorView::Hosts(e)),
                                        Ok(_) => tail_spec(c),
                                    },
                                }
                            },
                        },
                    }
                },
            }
        },
    }
}

/// All the checks of a configuration, in order.
pub open spec fn validate_spec(c: ConfigView) -> Result<(), ConfigErrorView> {
    match server_spec(c.server) {
        Err(e) => Err(e),
        Ok(()) => if c.resolver.upstreams.len() == 0 {
            Err(ConfigErrorView::UpstreamsEmpty)
        } else {
            resolver_spec(c)
        },
    }
}

/// Whether the durations of a configuration can be read without overflow.
pub open spec fn durations_fit(c: ConfigView) -> bool {
    duration_fits(c.resolver.timeout) && duration_fits(c.healthcheck.interval) && duration_fits(c.healthcheck.timeout)
}

fn check_tail(c: &CoreConfig) -> (r: Result<(), ConfigError>)
    requires
        durations_fit(c@),
    ensures
        match r {
            Ok(()) => tail_spec(c@) == Ok::<(), ConfigErrorView>(()),
            Err(e) => tail_spec(c@) == Err::<(), ConfigErrorView>(e@),
        },
{
    if !c.resolver.timeout.as_str().is_empty() {
        match parse_go_duration(c.resolver.timeout.as_str()) {
            Err(e) => return Err(ConfigError::Timeout(e)),
            Ok(n) => if n == 0 {
                return Err(ConfigError::TimeoutZero);
            },
        }
    }
    if c.cache.enabled {
        if c.cache.max_entries == 0 {
            return Err(ConfigError::CacheMaxEntriesZero);
        }
        if c.cache.max_entry_size == 0 {
            return Err(ConfigError::CacheMaxEntrySizeZero);
        }
        if !str_eq(c.cache.eviction_policy.as_str(), "lru") {
            return Err(ConfigError::CacheEvictionPolicy);
        }
        if c.cache.max_ttl > 0 && c.cache.min_ttl > c.cache.max_ttl {
            return Err(ConfigError::CacheTtlOrder);
        }
    }
    if !c.healthcheck.interval.as_str().is_empty() {
        match parse_go_duration(c.healthcheck.interval.as_str()) {
            Err(e) => return Err(ConfigError::HealthcheckInterval(e)),
            Ok(_) => {},
        }
    }
    if !c.healthcheck.timeout.as_str().is_empty() {
        match parse_go_duration(c.healthcheck.timeout.as_str()) {
            Err(e) => return Err(ConfigError::HealthcheckTimeout(e)),
            Ok(_) => {},
        }
    }
    if c.healthcheck.enabled {
        if c.healthcheck.domain.as_str().is_empty() {
            return Err(ConfigError::HealthcheckDomainEmpty);
        }
        if c.healthcheck.failure_threshold == 0 {
            return Err(ConfigError::FailureThresholdZero);
        }
        if c.healthcheck.recovery_threshold == 0 {
            return Err(ConfigError::RecoveryThresholdZero);
        }
    }
    let l = lower_str(c.log.level.as_str());
    if str_eq(l.as_str(), "debug") || str_eq(l.as_str(), "info") || str_eq(l.as_str(), "warn") || str_eq(l.as_str(), "error") {
        Ok(())
    } else {
        Err(ConfigError::LogLevelInvalid)
    }
}

fn any_reaches_listener(listen: &String, servers: &Vec<SocketAddress>) -> (b: bool)
    ensures
        b == bootstrap_reaches_listener(listen@, servers@),
{
    let mut i: usize = 0;
    while i < servers.len()
        invariant
            i <= servers@.len(),
            forall|j: int| 0 <= j < i ==> !socket_points_to_listener_spec(listen@, #[trigger] servers@[j]),
        decreases servers@.len() - i,
    {
        if socket_points_to_listener(listen.as_str(), servers[i]) {
            return true;
        }
        i = i + 1;
    }
    false
}

fn check_resolver(c: &CoreConfig) -> (r: Result<(), ConfigError>)
    requires
        durations_fit(c@),
    ensures
        match r {
            Ok(()) => resolver_spec(c@) == Ok::<(), ConfigErrorView>(()),
            Err(e) => resolver_spec(c@) == Err::<(), ConfigErrorView>(e@),
        },
{
    let servers = parse_bootstrap_dns_servers(&c.resolver.bootstrap_dns)?;
    if any_reaches_listener(&c.server.listen, &servers) {
        return Err(ConfigError::BootstrapPointsToListener);
    }
    let pnames = compile_proxy_definitions(&c.resolver.proxies)?;
    if !c.resolver.default_proxy.as_str().is_empty() && !contains_text(&pnames, c.resolver.default_proxy.as_str()) {
        return Err(ConfigError::DefaultProxyUnknown(c.resolver.default_proxy.clone()));
    }
    let unames = check_upstreams(&c.resolver.upstreams, &pnames, &c.resolver.default_proxy, &c.server.listen)?;
    let rs = c.resolver.routes.as_slice();
    let us = unames.as_slice();
    assert(names_view(rs@) == texts(c.resolver.routes@));
    assert(names_view(us@) == texts(unames@));
    let routes = match compile_routes(rs, us) {
        Err(e) => return Err(ConfigError::Route(e)),
        Ok(r) => r,
    };
    if servers.len() == 0 {
        check_self_resolution(&c.resolver.upstreams, &c.resolver.default_proxy, &routes, &unames)?;
    }
    let hs = c.resolver.hosts.as_slice();
    assert(crate::hosts::texts(hs@) == texts(c.resolver.hosts@));
    match compile_hosts(hs) {
        Err(e) => return Err(ConfigError::Hosts(e)),
        Ok(_) => {},
    }
    check_tail(c)
}

impl CoreConfig {
    /// Checks the configuration; the first failed check is the error.
    pub fn validate(&self) -> (r: Result<(), ConfigError>)
        requires
            durations_fit(self@),
        ensures
            match r {
                Ok(()) => validate_spec(self@) == Ok::<(), ConfigErrorView>(()),
                Err(e) => validate_spec(self@) == Err::<(), ConfigErrorView>(e@),
            },
    {
        server_check(&self.server)?;
        if self.resolver.upstreams.len() == 0 {
            return Err(ConfigError::UpstreamsEmpty);
        }
        check_resolver(self)
    }
}

/// The core form of a desktop configuration with its defaults filled in, the form in
/// which it is checked.
pub open spec fn desktop_checked_form(cfg: DesktopConfigView) -> ConfigView {
    defaults_spec(core_config_spec(cfg))
}

/// Checks a configuration as the desktop front end edits it: converted to the core
/// form, its defaults filled in, then validated.
pub fn validate_desktop_config(cfg: DesktopConfig) -> (r: Result<(), ConfigError>)
    requires
        durations_fit(desktop_checked_form(cfg@)),
    ensures
        match r {
            Ok(()) => validate_spec(desktop_checked_form(cfg@)) == Ok::<(), ConfigErrorView>(()),
            Err(e) => validate_spec(desktop_checked_form(cfg@)) == Err::<(), ConfigErrorView>(e@),
        },
{
    let mut core = core_config_from_desktop(cfg);
    core.apply_defaults();
    core.validate()
}

/// The text of a refused configuration.
pub open spec fn config_error_text(e: ConfigErrorView) -> Seq<char> {
    match e {
        ConfigErrorView::ModeInvalid => "server.mode must be one of udp,tcp,doh,dot"@,
        ConfigErrorView::ListenRequired => "server.listen is required"@,
        ConfigErrorView::TlsFilesRequired(m) => "server.cert_file and server.key_file are required for "@ + m + " mode"@,
        ConfigErrorView::TlsPemRequired(m) => "server.cert_pem and server.key_pem are required for "@ + m + " mode"@,
        ConfigErrorView::TlsSourceInvalid => "server.tls_source must be one of file,inline"@,
        ConfigErrorView::DohPathRequired => "server.path is required for doh mode"@,
        ConfigErrorView::TlsFieldsNotAllowed => "TLS fields are only valid for doh or dot mode"@,
        ConfigErrorView::UpstreamsEmpty => "resolver.upstreams must not be empty"@,
        ConfigErrorView::BootstrapInvalid(i) => "resolver.bootstrap_dns["@ + decimal(i as nat) + "] must be an IP address with optional port"@,
        ConfigErrorView::BootstrapPointsToListener => "resolver.bootstrap_dns must not point to server.listen"@,
        ConfigErrorView::ProxyNameRequired(i) => "resolver.proxies["@ + decimal(i as nat) + "].name is required"@,
        ConfigErrorView::DuplicateProxy(n) => "duplicate proxy name "@ + debug_quoted(n),
        ConfigErrorView::ProxyEndpointRequired(i) => "resolver.proxies["@ + decimal(i as nat) + "].endpoint is required"@,
        ConfigErrorView::ProxyEndpointInvalid(i) => "resolver.proxies["@ + decimal(i as nat) + "]"@,
        ConfigErrorView::ProxySchemeUnsupported(i, s) => "resolver.proxies["@ + decimal(i as nat) + "]: unsupported proxy scheme "@ + debug_quoted(s) + "; only socks5 is supported"@,
        ConfigErrorView::ProxyMissingHost(i) => "resolver.proxies["@ + decimal(i as nat) + "]: proxy endpoint is missing host"@,
        ConfigErrorView::ProxyHasPath(i) => "resolver.proxies["@ + decimal(i as nat) + "]: proxy endpoint must not include path"@,
        ConfigErrorView::ProxyHasQuery(i) => "resolver.proxies["@ + decimal(i as nat) + "]: proxy endpoint must not include query"@,
        ConfigErrorView::DefaultProxyUnknown(n) => "resolver.default_proxy references unknown proxy "@ + debug_quoted(n),
        ConfigErrorView::UpstreamNameRequired(i) => "resolver.upstreams["@ + decimal(i as nat) + "].name is required"@,
        ConfigErrorView::DuplicateUpstream(n) => "duplicate upstream name "@ + debug_quoted(n),
        ConfigErrorView::UpstreamEndpointRequired(i) => "resolver.upstreams["@ + decimal(i as nat) + "].endpoint is required"@,
        ConfigErrorView::EndpointInvalid(r) => "invalid endpoint "@ + debug_quoted(r),
        ConfigErrorView::EndpointSchemeUnsupported(s) => "unsupported endpoint scheme "@ + debug_quoted(s),
        ConfigErrorView::EndpointMissingHost(r) => "endpoint "@ + debug_quoted(r) + " is missing host"@,
        ConfigErrorView::EndpointHasPath(r, s) => "endpoint "@ + debug_quoted(r) + " must not include path for "@ + s,
        ConfigErrorView::EndpointHasQuery(r, s) => "endpoint "@ + debug_quoted(r) + " must not include query for "@ + s,
        ConfigErrorView::UpstreamPointsToListener(i) => "resolver.upstreams["@ + decimal(i as nat) + "].endpoint must not point to server.listen"@,
        ConfigErrorView::UpstreamProxyUnknown(i, n) => "resolver.upstreams["@ + decimal(i as nat) + "]: proxy references unknown proxy "@ + debug_quoted(n),
        ConfigErrorView::Route(e) => route_error_text(e),
        ConfigErrorView::DomainEmpty => "domain must not be empty"@,
        ConfigErrorView::InvalidIdna => "invalid IDNA domain"@,
        ConfigErrorView::BootstrapRequired(n, h) => "resolver.bootstrap_dns is required because upstream "@ + debug_quoted(n) + " uses domain host "@ + debug_quoted(h) + " that would be resolved through itself"@,
        ConfigErrorView::Hosts(e) => hosts_error_text(e),
        ConfigErrorView::Timeout(e) => duration_error_text(e),
        ConfigErrorView::TimeoutZero => "resolver.timeout must be > 0 when set"@,
        ConfigErrorView::CacheMaxEntriesZero => "cache.max_entries must be > 0 when cache is enabled"@,
        ConfigErrorView::CacheMaxEntrySizeZero => "cache.max_entry_size must be > 0 when cache is enabled"@,
        ConfigErrorView::CacheEvictionPolicy => "cache.eviction_policy must be one of: lru"@,
        ConfigErrorView::CacheTtlOrder => "cache.min_ttl must be <= cache.max_ttl when cache.max_ttl is set"@,
        ConfigErrorView::HealthcheckInterval(e) => "healthcheck.interval"@,
        ConfigErrorView::HealthcheckTimeout(e) => "healthcheck.timeout"@,
        ConfigErrorView::HealthcheckDomainEmpty => "healthcheck.domain must not be empty when healthcheck is enabled"@,
        ConfigErrorView::FailureThresholdZero => "healthcheck.failure_threshold must be > 0 when healthcheck is enabled"@,
        ConfigErrorView::RecoveryThresholdZero => "healthcheck.recovery_threshold must be > 0 when healthcheck is enabled"@,
        ConfigErrorView::LogLevelInvalid => "log.level must be one of debug,info,warn,error"@,
    }
}

impl ConfigError {
    /// The text of the error.
    pub fn message(&self) -> (m: String)
        ensures
            m@ == config_error_text(self@),
    {
        match self {
            ConfigError::ModeInvalid => {
                let mut out = String::new();
                out.append("server.mode must be one of udp,tcp,doh,dot");
                out
            },
            ConfigError::ListenRequired => {
                let mut out = String::new();
                out.append("server.listen is required");
                out
            },
            ConfigError::TlsFilesRequired(m) => {
                let mut out = String::new();
                out.append("server.cert_file and server.key_file are required for ");
                out.append(m.as_str());
                out.append(" mode");
                out
            },
            ConfigError::TlsPemRequired(m) => {
                let mut out = String::new();
                out.append("server.cert_pem and server.key_pem are required for ");
                out.append(m.as_str());
                out.append(" mode");
                out
            },
            ConfigError::TlsSourceInvalid => {
                let mut out = String::new();
                out.append("server.tls_source must be one of file,inline");
                out
            },
            ConfigError::DohPathRequired => {
                let mut out = String::new();
                out.append("server.path is required for doh mode");
                out
            },
            ConfigError::TlsFieldsNotAllowed => {
                let mut out = String::new();
                out.append("TLS fields are only valid for doh or dot mode");
                out
            },
            ConfigError::UpstreamsEmpty => {
                let mut out = String::new();
                out.append("resolver.upstreams must not be empty");
                out
            },
            ConfigError::BootstrapInvalid(i) => {
                let mut out = String::new();
                out.append("resolver.bootstrap_dns[");
                out.append(decimal_string(*i as u64).as_str());
                out.append("] must be an IP address with optional port");
                out
            },
            ConfigError::BootstrapPointsToListener => {
                let mut out = String::new();
                out.append("resolver.bootstrap_dns must not point to server.listen");
                out
            },
            ConfigError::ProxyNameRequired(i) => {
                let mut out = String::new();
                out.append("resolver.proxies[");
                out.append(decimal_string(*i as u64).as_str());
                out.append("].name is required");
                out
            },
            ConfigError::DuplicateProxy(n) => {
                let mut out = String::new();
                out.append("duplicate proxy name ");
                out.append(debug_text(n.as_str()).as_str());
                out
            },
            ConfigError::ProxyEndpointRequired(i) => {
                let mut out = String::new();
                out.append("resolver.proxies[");
                out.append(decimal_string(*i as u64).as_str());
                out.append("].endpoint is required");
                out
            },
            ConfigError::ProxyEndpointInvalid(i) => {
                let mut out = String::new();
                out.append("resolver.proxies[");
                out.append(decimal_string(*i as u64).as_str());
                out.append("]");
                out
            },
            ConfigError::ProxySchemeUnsupported(i, s) => {
                let mut out = String::new();
                out.append("resolver.proxies[");
                out.append(decimal_string(*i as u64).as_str());
                out.append("]: unsupported proxy scheme ");
                out.append(debug_text(s.as_str()).as_str());
                out.append("; only socks5 is supported");
                out
            },
            ConfigError::ProxyMissingHost(i) => {
                let mut out = String::new();
                out.append("resolver.proxies[");
                out.append(decimal_string(*i as u64).as_str());
                out.append("]: proxy endpoint is missing host");
                out
            },
            ConfigError::ProxyHasPath(i) => {
                let mut out = String::new();
                out.append("resolver.proxies[");
                out.append(decimal_string(*i as u64).as_str());
                out.append("]: proxy endpoint must not include path");
                out
            },
            ConfigError::ProxyHasQuery(i) => {
                let mut out = String::new();
                out.append("resolver.proxies[");
                out.append(decimal_string(*i as u64).as_str());
                out.append("]: proxy endpoint must not include query");
                out
            },
            ConfigError::DefaultProxyUnknown(n) => {
                let mut out = String::new();
                out.append("resolver.default_proxy references unknown proxy ");
                out.append(debug_text(n.as_str()).as_str());
                out
            },
            ConfigError::UpstreamNameRequired(i) => {
                let mut out = String::new();
                out.append("resolver.upstreams[");
                out.append(decimal_string(*i as u64).as_str());
                out.append("].name is required");
                out
            },
            ConfigError::DuplicateUpstream(n) => {
                let mut out = String::new();
                out.append("duplicate upstream name ");
                out.append(debug_text(n.as_str()).as_str());
                out
            },
            ConfigError::UpstreamEndpointRequired(i) => {
                let mut out = String::new();
                out.append("resolver.upstreams[");
                out.append(decimal_string(*i as u64).as_str());
                out.append("].endpoint is required");
                out
            },
            ConfigError::EndpointInvalid(r) => {
                let mut out = String::new();
                out.append("invalid endpoint ");
                out.append(debug_text(r.as_str()).as_str());
                out
            },
            ConfigError::EndpointSchemeUnsupported(s) => {
                let mut out = String::new();
                out.append("unsupported endpoint scheme ");
                out.append(debug_text(s.as_str()).as_str());
                out
            },
            ConfigError::EndpointMissingHost(r) => {
                let mut out = String::new();
                out.append("endpoint ");
                out.append(debug_text(r.as_str()).as_str());
                out.append(" is missing host");
                out
            },
            ConfigError::EndpointHasPath(r, s) => {
                let mut out = String::new();
                out.append("endpoint ");
                out.append(debug_text(r.as_str()).as_str());
                out.append(" must not include path for ");
                out.append(s.as_str());
                out
            },
            ConfigError::EndpointHasQuery(r, s) => {
                let mut out = String::new();
                out.append("endpoint ");
                out.append(debug_text(r.as_str()).as_str());
                out.append(" must not include query for ");
                out.append(s.as_str());
                out
            },
            ConfigError::UpstreamPointsToListener(i) => {
                let mut out = String::new();
                out.append("resolver.upstreams[");
                out.append(decimal_string(*i as u64).as_str());
                out.append("].endpoint must not point to server.listen");
                out
            },
            ConfigError::UpstreamProxyUnknown(i, n) => {
                let mut out = String::new();
                out.append("resolver.upstreams[");
                out.append(decimal_string(*i as u64).as_str());
                out.append("]: proxy references unknown proxy ");
                out.append(debug_text(n.as_str()).as_str());
                out
            },
            ConfigError::Route(e) => {
                let mut out = String::new();
                out.append(e.message().as_str());
                out
            },
            ConfigError::DomainEmpty => {
                let mut out = String::new();
                out.append("domain must not be empty");
                out
            },
            ConfigError::InvalidIdna => {
                let mut out = String::new();
                out.append("invalid IDNA domain");
                out
            },
            ConfigError::BootstrapRequired(n, h) => {
                let mut out = String::new();
                out.append("resolver.bootstrap_dns is required because upstream ");
                out.append(debug_text(n.as_str()).as_str());
                out.append(" uses domain host ");
                out.append(debug_text(h.as_str()).as_str());
                out.append(" that would be resolved through itself");
                out
            },
            ConfigError::Hosts(e) => {
                let mut out = String::new();
                out.append(e.message().as_str());
                out
            },
            ConfigError::Timeout(e) => {
                let mut out = String::new();
                out.append(e.message().as_str());
                out
            },
            ConfigError::TimeoutZero => {
                let mut out = String::new();
                out.append("resolver.timeout must be > 0 when set");
                out
            },
            ConfigError::CacheMaxEntriesZero => {
                let mut out = String::new();
                out.append("cache.max_entries must be > 0 when cache is enabled");
                out
            },
            ConfigError::CacheMaxEntrySizeZero => {
                let mut out = String::new();
                out.append("cache.max_entry_size must be > 0 when cache is enabled");
                out
            },
            ConfigError::CacheEvictionPolicy => {
                let mut out = String::new();
                out.append("cache.eviction_policy must be one of: lru");
                out
            },
            ConfigError::CacheTtlOrder => {
                let mut out = String::new();
                out.append("cache.min_ttl must be <= cache.max_ttl when cache.max_ttl is set");
                out
            },
            ConfigError::HealthcheckInterval(e) => {
                let mut out = String::new();
                out.append("healthcheck.interval");
                out
            },
            ConfigError::HealthcheckTimeout(e) => {
                let mut out = String::new();
                out.append("healthcheck.timeout");
                out
            },
            ConfigError::HealthcheckDomainEmpty => {
                let mut out = String::new();
                out.append("healthcheck.domain must not be empty when healthcheck is enabled");
                out
            },
            ConfigError::FailureThresholdZero => {
                let mut out = String::new();
                out.append("healthcheck.failure_threshold must be > 0 when healthcheck is enabled");
                out
            },
            ConfigError::RecoveryThresholdZero => {
                let mut out = String::new();
                out.append("healthcheck.recovery_threshold must be > 0 when healthcheck is enabled");
                out
            },
            ConfigError::LogLevelInvalid => {
                let mut out = String::new();
                out.append("log.level must be one of debug,info,warn,error");
                out
            },
        }
    }
}


} // verus!
