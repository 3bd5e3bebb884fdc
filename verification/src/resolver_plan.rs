//! What a resolver is built from, read out of a configuration in the order it is
//! checked: the bootstrap servers, the proxies, each upstream's endpoint and proxy, the
//! hosts table, the routes and the timeout. The clients, sockets and tasks are then made
//! from this plan.
use crate::config::{texts, CoreConfig, CoreProxyConfig, CoreUpstreamConfig, ConfigView, ProxyView, UpstreamView};
use crate::duration::{duration_error_text, duration_fits, go_duration_spec, parse_go_duration, DurationError, DurationErrorView};
use crate::endpoint::{
    endpoint_from_config, endpoint_of, is_http, proxy_endpoint_error_text, proxy_endpoint_from_raw,
    proxy_endpoint_spec, Endpoint, EndpointView, ProxyEndpoint, ProxyEndpointError, ProxyEndpointErrorView,
};
use crate::hosts::{compile_hosts, compile_hosts_spec, hosts_error_text, HostView, Hosts, HostsError, HostsErrorView};
use crate::net::SocketAddress;
use crate::routes::{compile_routes, compile_routes_spec, names_view, route_error_text, RouteError, RouteErrorView, RouteTable, Routes};
use crate::text::{append_str, str_eq, string_from_chars};
use crate::validate::{
    bootstrap_spec, config_error_text, endpoint_spec, parse_bootstrap_dns_servers, ConfigError, ConfigErrorView,
};
use crate::text::{debug_quoted, debug_text};
use vstd::prelude::*;

verus! {

/// The query timeout when the configuration gives none: five seconds.
pub const DEFAULT_RESOLVER_TIMEOUT_NS: u128 = 5_000_000_000;

/// How one upstream is reached.
#[derive(Debug)]
pub struct UpstreamPlan {
    pub name: String,
    pub endpoint: Endpoint,
    /// The SOCKS5 proxy that the upstream goes through, if any.
    pub proxy: Option<ProxyEndpoint>,
    /// Whether the upstream's host is looked up with the bootstrap servers.
    pub uses_bootstrap: bool,
    /// Whether the upstream is asked over HTTP(S).
    pub needs_http: bool,
}

/// A proxy as values: its address, user name and password.
pub open spec fn proxy_triple(p: ProxyEndpoint) -> (Seq<char>, Seq<char>, Seq<char>) {
    (p.address@, p.username@, p.password@)
}

/// An upstream plan as values.
pub struct UpstreamPlanView {
    pub name: Seq<char>,
    pub endpoint: EndpointView,
    pub proxy: Option<(Seq<char>, Seq<char>, Seq<char>)>,
    pub uses_bootstrap: bool,
    pub needs_http: bool,
}

impl View for UpstreamPlan {
    type V = UpstreamPlanView;

    open spec fn view(&self) -> UpstreamPlanView {
        UpstreamPlanView {
            name: self.name@,
            endpoint: self.endpoint@,
            proxy: match self.proxy {
                Some(p) => Some(proxy_triple(p)),
                None => None,
            },
            uses_bootstrap: self.uses_bootstrap,
            needs_http: self.needs_http,
        }
    }
}

/// Everything a resolver is built from.
#[derive(Debug)]
pub struct ResolverPlan {
    pub bootstrap: Vec<SocketAddress>,
    /// One plan per configured upstream, in the configured order.
    pub upstreams: Vec<UpstreamPlan>,
    /// The names of all upstreams, in the configured order: the upstreams of a query that
    /// no route matches.
    pub default_upstreams: Vec<String>,
    pub hosts: Hosts,
    pub routes: Routes,
    pub timeout_ns: u128,
    pub ipv6_enabled: bool,
}

/// The plans as values.
pub open spec fn plan_views(v: Seq<UpstreamPlan>) -> Seq<UpstreamPlanView> {
    v.map_values(|p: UpstreamPlan| p@)
}

/// A resolver plan as values.
pub struct ResolverPlanView {
    pub bootstrap: Seq<SocketAddress>,
    pub upstreams: Seq<UpstreamPlanView>,
    pub default_upstreams: Seq<Seq<char>>,
    pub hosts: Seq<HostView>,
    pub routes: RouteTable,
    pub timeout_ns: nat,
    pub ipv6_enabled: bool,
}

impl View for ResolverPlan {
    type V = ResolverPlanView;

    open spec fn view(&self) -> ResolverPlanView {
        ResolverPlanView {
            bootstrap: self.bootstrap@,
            upstreams: plan_views(self.upstreams@),
            default_upstreams: texts(self.default_upstreams@),
            hosts: self.hosts@,
            routes: self.routes@,
            timeout_ns: self.timeout_ns as nat,
            ipv6_enabled: self.ipv6_enabled,
        }
    }
}

/// Why no resolver can be built from a configuration.
#[derive(Debug)]
pub enum PlanError {
    Bootstrap(ConfigError),
    Proxy(ProxyEndpointError),
    Endpoint(ConfigError),
    /// An upstream names a proxy that no proxy definition has; holds the name.
    UnknownProxy(String),
    Hosts(HostsError),
    Routes(RouteError),
    Timeout(DurationError),
}

/// A refusal as values.
pub enum PlanErrorView {
    Bootstrap(ConfigErrorView),
    Proxy(ProxyEndpointErrorView),
    Endpoint(ConfigErrorView),
    UnknownProxy(Seq<char>),
    Hosts(HostsErrorView),
    Routes(RouteErrorView),
    Timeout(DurationErrorView),
}

impl View for PlanError {
    type V = PlanErrorView;

    open spec fn view(&self) -> PlanErrorView {
        match self {
            PlanError::Bootstrap(e) => PlanErrorView::Bootstrap(e@),
            PlanError::Proxy(e) => PlanErrorView::Proxy(e@),
            PlanError::Endpoint(e) => PlanErrorView::Endpoint(e@),
            PlanError::UnknownProxy(n) => PlanErrorView::UnknownProxy(n@),
            PlanError::Hosts(e) => PlanErrorView::Hosts(e@),
            PlanError::Routes(e) => PlanErrorView::Routes(e@),
            PlanError::Timeout(e) => PlanErrorView::Timeout(e@),
        }
    }
}

/// The text of a refusal: that of the error underneath, or, for an unknown proxy, its
/// name in double quotes.
pub open spec fn plan_error_text(e: PlanErrorView) -> Seq<char> {
    match e {
        PlanErrorView::Bootstrap(c) => config_error_text(c),
        PlanErrorView::Proxy(p) => proxy_endpoint_error_text(p),
        PlanErrorView::Endpoint(c) => config_error_text(c),
        PlanErrorView::UnknownProxy(n) => "proxy references unknown proxy "@ + debug_quoted(n),
        PlanErrorView::Hosts(h) => hosts_error_text(h),
        PlanErrorView::Routes(r) => route_error_text(r),
        PlanErrorView::Timeout(d) => duration_error_text(d),
    }
}

impl PlanError {
    /// The text of the refusal.
    pub fn message(&self) -> (m: String)
        ensures
            m@ == plan_error_text(self@),
    {
        match self {
            PlanError::Bootstrap(e) => e.message(),
            PlanError::Proxy(e) => e.message(),
            PlanError::Endpoint(e) => e.message(),
            PlanError::UnknownProxy(n) => {
                let mut out: Vec<char> = Vec::new();
                append_str(&mut out, "proxy references unknown proxy ");
                append_str(&mut out, debug_text(n.as_str()).as_str());
                string_from_chars(out.as_slice())
            },
            PlanError::Hosts(e) => e.message(),
            PlanError::Routes(e) => e.message(),
            PlanError::Timeout(e) => e.message(),
        }
    }
}

/// The first `n` proxies read, each with its name, or the first refusal among them.
pub open spec fn proxy_list_spec(ps: Seq<ProxyView>, n: nat) -> Result<
    Seq<(Seq<char>, (Seq<char>, Seq<char>, Seq<char>))>,
    ProxyEndpointErrorView,
>
    decreases n,
{
    if n == 0 {
        Ok(Seq::empty())
    } else {
        match proxy_list_spec(ps, (n - 1) as nat) {
            Err(e) => Err(e),
            Ok(l) => match proxy_endpoint_spec(ps[n - 1].endpoint) {
                Err(e) => Err(e),
                Ok(p) => Ok(l.push((ps[n - 1].name, p))),
            },
        }
    }
}

/// The proxies read, with their names, as values.
pub open spec fn proxy_pairs(v: Seq<(String, ProxyEndpoint)>) -> Seq<(Seq<char>, (Seq<char>, Seq<char>, Seq<char>))> {
    v.map_values(|x: (String, ProxyEndpoint)| (x.0@, proxy_triple(x.1)))
}

/// The last proxy of a name: a later definition of a name replaces an earlier one.
pub open spec fn last_proxy(l: Seq<(Seq<char>, (Seq<char>, Seq<char>, Seq<char>))>, name: Seq<char>) -> Option<
    (Seq<char>, Seq<char>, Seq<char>),
>
    decreases l.len(),
{
    if l.len() == 0 {
        None
    } else if l.last().0 == name {
        Some(l.last().1)
    } else {
        last_proxy(l.drop_last(), name)
    }
}

/// How one upstream is reached: its endpoint read from its URL; its proxy, named by the
/// upstream or else by the default, looked up among the proxies read; the bootstrap
/// servers used only without a proxy; HTTP(S) for the `http` and `https` schemes.
pub open spec fn upstream_plan_spec(
    u: UpstreamView,
    default_proxy: Seq<char>,
    proxies: Seq<(Seq<char>, (Seq<char>, Seq<char>, Seq<char>))>,
    has_bootstrap: bool,
) -> Result<UpstreamPlanView, PlanErrorView> {
    let proxy_name = if u.proxy.len() == 0 { default_proxy } else { u.proxy };
    match endpoint_spec(u.endpoint) {
        Err(e) => Err(PlanErrorView::Endpoint(e)),
        Ok(url) => {
            let ep = endpoint_of(url, u.server_name);
            if proxy_name.len() == 0 {
                Ok(UpstreamPlanView {
                    name: u.name,
                    endpoint: ep,
                    proxy: None,
                    uses_bootstrap: has_bootstrap,
                    needs_http: is_http(ep.scheme),
                })
            } else {
                match last_proxy(proxies, proxy_name) {
                    None => Err(PlanErrorView::UnknownProxy(proxy_name)),
                    Some(p) => Ok(UpstreamPlanView {
                        name: u.name,
                        endpoint: ep,
                        proxy: Some(p),
                        uses_bootstrap: false,
                        needs_http: is_http(ep.scheme),
                    }),
                }
            }
        },
    }
}

/// The plans of the first `n` upstreams, or the first refusal among them.
pub open spec fn upstream_plans_spec(
    ups: Seq<UpstreamView>,
    n: nat,
    default_proxy: Seq<char>,
    proxies: Seq<(Seq<char>, (Seq<char>, Seq<char>, Seq<char>))>,
    has_bootstrap: bool,
) -> Result<Seq<UpstreamPlanView>, PlanErrorView>
    decreases n,
{
    if n == 0 {
        Ok(Seq::empty())
    } else {
        match upstream_plans_spec(ups, (n - 1) as nat, default_proxy, proxies, has_bootstrap) {
            Err(e) => Err(e),
            Ok(l) => match upstream_plan_spec(ups[n - 1], default_proxy, proxies, has_bootstrap) {
                Err(e) => Err(e),
                Ok(p) => Ok(l.push(p)),
            },
        }
    }
}

/// The names of the upstreams.
pub open spec fn upstream_names_spec(ups: Seq<UpstreamView>) -> Seq<Seq<char>> {
    ups.map_values(|u: UpstreamView| u.name)
}

/// The query timeout: the default when the text is empty, else the text read.
pub open spec fn timeout_spec(t: Seq<char>) -> Result<nat, DurationErrorView> {
    if t.len() == 0 {
        Ok(DEFAULT_RESOLVER_TIMEOUT_NS as nat)
    } else {
        go_duration_spec(t)
    }
}

/// The plan of a configuration, or the first refusal: bootstrap servers, then proxies,
/// then upstreams in order, then hosts, routes and timeout.
pub open spec fn plan_spec(c: ConfigView) -> Result<ResolverPlanView, PlanErrorView> {
    let r = c.resolver;
    match bootstrap_spec(r.bootstrap_dns, r.bootstrap_dns.len()) {
        Err(e) => Err(PlanErrorView::Bootstrap(e)),
        Ok(boot) => match proxy_list_spec(r.proxies, r.proxies.len()) {
            Err(e) => Err(PlanErrorView::Proxy(e)),
            Ok(pl) => match upstream_plans_spec(r.upstreams, r.upstreams.len(), r.default_proxy, pl, boot.len() > 0) {
                Err(e) => Err(e),
                Ok(ups) => match compile_hosts_spec(r.hosts) {
                    Err(e) => Err(PlanErrorView::Hosts(e)),
                    Ok(h) => match compile_routes_spec(r.routes, upstream_names_spec(r.upstreams)) {
                        Err(e) => Err(PlanErrorView::Routes(e)),
                        Ok(t) => match timeout_spec(r.timeout) {
                            Err(e) => Err(PlanErrorView::Timeout(e)),
                            Ok(ns) => Ok(
                                ResolverPlanView {
                                    bootstrap: boot,
                                    upstreams: ups,
                                    default_upstreams: upstream_names_spec(r.upstreams),
                                    hosts: h,
                                    routes: t,
                                    timeout_ns: ns,
                                    ipv6_enabled: r.ipv6_enabled,
                                },
                            ),
                        },
                    },
                },
            },
        },
    }
}

proof fn lemma_proxy_list_err(ps: Seq<ProxyView>, k: nat, n: nat)
    requires
        k <= n,
        proxy_list_spec(ps, k) is Err,
    ensures
        proxy_list_spec(ps, n) == proxy_list_spec(ps, k),
    decreases n,
{
    if n > k {
        lemma_proxy_list_err(ps, k, (n - 1) as nat);
    }
}

proof fn lemma_upstream_plans_err(
    ups: Seq<UpstreamView>,
    k: nat,
    n: nat,
    default_proxy: Seq<char>,
    proxies: Seq<(Seq<char>, (Seq<char>, Seq<char>, Seq<char>))>,
    has_bootstrap: bool,
)
    requires
        k <= n,
        upstream_plans_spec(ups, k, default_proxy, proxies, has_bootstrap) is Err,
    ensures
        upstream_plans_spec(ups, n, default_proxy, proxies, has_bootstrap)
            == upstream_plans_spec(ups, k, default_proxy, proxies, has_bootstrap),
    decreases n,
{
    if n > k {
        lemma_upstream_plans_err(ups, k, (n - 1) as nat, default_proxy, proxies, has_bootstrap);
    }
}

fn proxy_list(items: &Vec<CoreProxyConfig>) -> (r: Result<Vec<(String, ProxyEndpoint)>, ProxyEndpointError>)
    ensures
        match r {
            Ok(v) => proxy_list_spec(crate::config::proxy_views(items@), items@.len()) == Ok::<_, ProxyEndpointErrorView>(
                proxy_pairs(v@),
            ),
            Err(e) => proxy_list_spec(crate::config::proxy_views(items@), items@.len()) == Err::<
                Seq<(Seq<char>, (Seq<char>, Seq<char>, Seq<char>))>,
                _,
            >(e@),
        },
{
    let ghost views = crate::config::proxy_views(items@);
    let mut out: Vec<(String, ProxyEndpoint)> = Vec::new();
    assert(proxy_pairs(out@) =~= Seq::empty());
    let mut i: usize = 0;
    while i < items.len()
        invariant
            i <= items@.len(),
            views == crate::config::proxy_views(items@),
            proxy_list_spec(views, i as nat) == Ok::<_, ProxyEndpointErrorView>(proxy_pairs(out@)),
        decreases items@.len() - i,
    {
        assert(views[i as int] == items@[i as int]@);
        let p = match proxy_endpoint_from_raw(items[i].endpoint.as_str()) {
            Err(e) => {
                proof {
                    lemma_proxy_list_err(views, (i + 1) as nat, items@.len());
                }
                return Err(e);
            },
            Ok(p) => p,
        };
        let ghost before = out@;
        out.push((items[i].name.clone(), p));
        assert(proxy_pairs(out@) =~= proxy_pairs(before).push((views[i as int].name, proxy_triple(p))));
        i = i + 1;
    }
    Ok(out)
}

fn find_last_proxy(l: &Vec<(String, ProxyEndpoint)>, name: &str) -> (r: Option<ProxyEndpoint>)
    ensures
        match r {
            Some(p) => last_proxy(proxy_pairs(l@), name@) == Some(proxy_triple(p)),
            None => last_proxy(proxy_pairs(l@), name@) is None,
        },
{
    let ghost all = proxy_pairs(l@);
    assert(all.take(l@.len() as int) =~= all);
    let mut i = l.len();
    while i > 0
        invariant
            i <= l@.len(),
            all == proxy_pairs(l@),
            last_proxy(all, name@) == last_proxy(all.take(i as int), name@),
        decreases i,
    {
        assert(all.take(i as int).drop_last() =~= all.take(i - 1));
        if str_eq(l[i - 1].0.as_str(), name) {
            let found = &l[i - 1].1;
            return Some(
                ProxyEndpoint {
                    address: found.address.clone(),
                    username: found.username.clone(),
                    password: found.password.clone(),
                },
            );
        }
        i = i - 1;
    }
    None
}

fn upstream_plan(
    item: &CoreUpstreamConfig,
    default_proxy: &str,
    proxies: &Vec<(String, ProxyEndpoint)>,
    has_bootstrap: bool,
) -> (r: Result<UpstreamPlan, PlanError>)
    ensures
        match r {
            Ok(p) => upstream_plan_spec(item@, default_proxy@, proxy_pairs(proxies@), has_bootstrap) == Ok::<
                _,
                PlanErrorView,
            >(p@),
            Err(e) => upstream_plan_spec(item@, default_proxy@, proxy_pairs(proxies@), has_bootstrap) == Err::<
                UpstreamPlanView,
                _,
            >(e@),
        },
{
    let proxy_name: &str = if item.proxy.as_str().is_empty() {
        default_proxy
    } else {
        item.proxy.as_str()
    };
    let endpoint = match endpoint_from_config(item) {
        Err(e) => return Err(PlanError::Endpoint(e)),
        Ok(e) => e,
    };
    let needs_http = str_eq(endpoint.scheme.as_str(), "http") || str_eq(endpoint.scheme.as_str(), "https");
    proof {
        reveal_strlit("http");
        reveal_strlit("https");
    }
    if proxy_name.is_empty() {
        return Ok(
            UpstreamPlan { name: item.name.clone(), endpoint, proxy: None, uses_bootstrap: has_bootstrap, needs_http },
        );
    }
    match find_last_proxy(proxies, proxy_name) {
        None => Err(PlanError::UnknownProxy(String::from_str(proxy_name))),
        Some(p) => Ok(UpstreamPlan { name: item.name.clone(), endpoint, proxy: Some(p), uses_bootstrap: false, needs_http }),
    }
}

fn upstream_names(items: &Vec<CoreUpstreamConfig>) -> (r: Vec<String>)
    ensures
        texts(r@) == upstream_names_spec(crate::config::upstream_views(items@)),
{
    let mut out: Vec<String> = Vec::new();
    let mut i: usize = 0;
    while i < items.len()
        invariant
            i <= items@.len(),
            texts(out@) == upstream_names_spec(crate::config::upstream_views(items@)).take(i as int),
        decreases items@.len() - i,
    {
        let ghost before = out@;
        out.push(items[i].name.clone());
        assert(texts(out@) =~= texts(before).push(items@[i as int].name@));
        assert(crate::config::upstream_views(items@)[i as int] == items@[i as int]@);
        assert(upstream_names_spec(crate::config::upstream_views(items@)).take(i + 1)
            =~= upstream_names_spec(crate::config::upstream_views(items@)).take(i as int).push(items@[i as int].name@));
        i = i + 1;
    }
    assert(upstream_names_spec(crate::config::upstream_views(items@)).take(items@.len() as int)
        =~= upstream_names_spec(crate::config::upstream_views(items@)));
    out
}

/// Reads the plan of a resolver out of a configuration, or the first reason none can be
/// built. A timeout too large to read is left out by `requires`.
pub fn resolver_plan(cfg: &CoreConfig) -> (r: Result<ResolverPlan, PlanError>)
    requires
        duration_fits(cfg@.resolver.timeout),
    ensures
        match r {
            Ok(p) => plan_spec(cfg@) == Ok::<_, PlanErrorView>(p@),
            Err(e) => plan_spec(cfg@) == Err::<ResolverPlanView, _>(e@),
        },
{
    let ghost c = cfg@;
    let bootstrap = match parse_bootstrap_dns_servers(&cfg.resolver.bootstrap_dns) {
        Err(e) => return Err(PlanError::Bootstrap(e)),
        Ok(b) => b,
    };
    let proxies = match proxy_list(&cfg.resolver.proxies) {
        Err(e) => return Err(PlanError::Proxy(e)),
        Ok(p) => p,
    };
    let has_bootstrap = bootstrap.len() > 0;
    let ghost ups = c.resolver.upstreams;
    let mut upstreams: Vec<UpstreamPlan> = Vec::new();
    assert(plan_views(upstreams@) =~= Seq::empty());
    let mut i: usize = 0;
    while i < cfg.resolver.upstreams.len()
        invariant
            i <= cfg.resolver.upstreams@.len(),
            c == cfg@,
            ups == c.resolver.upstreams,
            bootstrap_spec(c.resolver.bootstrap_dns, c.resolver.bootstrap_dns.len()) == Ok::<_, ConfigErrorView>(bootstrap@),
            proxy_list_spec(c.resolver.proxies, c.resolver.proxies.len()) == Ok::<_, ProxyEndpointErrorView>(
                proxy_pairs(proxies@),
            ),
            has_bootstrap == (bootstrap@.len() > 0),
            upstream_plans_spec(ups, i as nat, c.resolver.default_proxy, proxy_pairs(proxies@), has_bootstrap)
                == Ok::<_, PlanErrorView>(plan_views(upstreams@)),
        decreases cfg.resolver.upstreams@.len() - i,
    {
        assert(ups[i as int] == cfg.resolver.upstreams@[i as int]@);
        let p = match upstream_plan(&cfg.resolver.upstreams[i], cfg.resolver.default_proxy.as_str(), &proxies, has_bootstrap) {
            Err(e) => {
                proof {
                    lemma_upstream_plans_err(
                        ups,
                        (i + 1) as nat,
                        ups.len(),
                        c.resolver.default_proxy,
                        proxy_pairs(proxies@),
                        has_bootstrap,
                    );
                }
                return Err(e);
            },
            Ok(p) => p,
        };
        let ghost before = upstreams@;
        upstreams.push(p);
        assert(plan_views(upstreams@) =~= plan_views(before).push(p@));
        i = i + 1;
    }
    let hs = cfg.resolver.hosts.as_slice();
    assert(crate::hosts::texts(hs@) == texts(cfg.resolver.hosts@));
    let hosts = match compile_hosts(hs) {
        Err(e) => return Err(PlanError::Hosts(e)),
        Ok(h) => h,
    };
    let names = upstream_names(&cfg.resolver.upstreams);
    let rs = cfg.resolver.routes.as_slice();
    assert(names_view(rs@) == texts(cfg.resolver.routes@));
    assert(names_view(names@) == texts(names@));
    let routes = match compile_routes(rs, names.as_slice()) {
        Err(e) => return Err(PlanError::Routes(e)),
        Ok(r) => r,
    };
    let timeout_ns = if cfg.resolver.timeout.as_str().is_empty() {
        DEFAULT_RESOLVER_TIMEOUT_NS
    } else {
        match parse_go_duration(cfg.resolver.timeout.as_str()) {
            Err(e) => return Err(PlanError::Timeout(e)),
            Ok(n) => n,
        }
    };
    Ok(
        ResolverPlan {
            bootstrap,
            upstreams,
            default_upstreams: names,
            hosts,
            routes,
            timeout_ns,
            ipv6_enabled: cfg.resolver.ipv6_enabled,
        },
    )
}


/// The probe interval when the configuration gives none that can be read: 30 seconds.
pub const DEFAULT_HEALTHCHECK_INTERVAL_NS: u128 = 30_000_000_000;

/// The probe timeout when the configuration gives none that can be read: 2 seconds.
pub const DEFAULT_HEALTHCHECK_TIMEOUT_NS: u128 = 2_000_000_000;

/// How far apart the first probes of successive upstreams start, in milliseconds.
pub const HEALTHCHECK_STAGGER_STEP_MS: u64 = 200;

/// How the upstreams are probed.
#[derive(Clone, Debug)]
pub struct HealthProbePlan {
    pub interval_ns: u128,
    pub timeout_ns: u128,
    /// The name asked for in each probe.
    pub domain: String,
}

/// A duration text read, or `fallback` when it cannot be read.
pub open spec fn duration_or(t: Seq<char>, fallback: nat) -> nat {
    match go_duration_spec(t) {
        Ok(n) => n,
        Err(_) => fallback,
    }
}

fn read_duration_or(t: &str, fallback: u128) -> (n: u128)
    requires
        duration_fits(t@),
    ensures
        n as nat == duration_or(t@, fallback as nat),
{
    match parse_go_duration(t) {
        Ok(n) => n,
        Err(_) => fallback,
    }
}

/// The probing of a configuration: none when health checks are off; else the interval
/// and timeout read (30 s and 2 s when they cannot be read) and the probe domain (the
/// root, `.`, when none is given).
pub fn health_probe_plan(cfg: &CoreConfig) -> (r: Option<HealthProbePlan>)
    requires
        duration_fits(cfg@.healthcheck.interval),
        duration_fits(cfg@.healthcheck.timeout),
    ensures
        r is None <==> !cfg.healthcheck.enabled,
        r matches Some(p) ==> {
            &&& p.interval_ns as nat == duration_or(cfg@.healthcheck.interval, DEFAULT_HEALTHCHECK_INTERVAL_NS as nat)
            &&& p.timeout_ns as nat == duration_or(cfg@.healthcheck.timeout, DEFAULT_HEALTHCHECK_TIMEOUT_NS as nat)
            &&& p.domain@ == if cfg@.healthcheck.domain.len() == 0 {
                seq!['.']
            } else {
                cfg@.healthcheck.domain
            }
        },
{
    if !cfg.healthcheck.enabled {
        return None;
    }
    let interval_ns = read_duration_or(cfg.healthcheck.interval.as_str(), DEFAULT_HEALTHCHECK_INTERVAL_NS);
    let timeout_ns = read_duration_or(cfg.healthcheck.timeout.as_str(), DEFAULT_HEALTHCHECK_TIMEOUT_NS);
    let domain = if cfg.healthcheck.domain.as_str().is_empty() {
        string_from_chars(&['.'])
    } else {
        cfg.healthcheck.domain.clone()
    };
    Some(HealthProbePlan { interval_ns, timeout_ns, domain })
}

/// How long after the start the probes of the upstream at position `index` begin: one
/// stagger step per position.
pub fn probe_stagger_ms(index: u32) -> (ms: u64)
    ensures
        ms == HEALTHCHECK_STAGGER_STEP_MS * index,
{
    HEALTHCHECK_STAGGER_STEP_MS * (index as u64)
}

} // verus!
