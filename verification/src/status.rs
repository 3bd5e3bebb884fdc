//! The health the front end shows for each configured upstream and proxy, read from a
//! snapshot of the health monitor (or unknown while the service is not running).
use crate::config::{texts, CoreConfig, UpstreamView};
use crate::desktop::{
    ApplyConfigAction, DesktopStatus,
    opt_text, texts_of, HealthState, ProxyHealth, ProxyHealthView, UpstreamHealth, UpstreamHealthView,
};
use crate::health::{record_of, HealthSnapshot, MonitorView};
use crate::text::{chars_of, find_char, first_index, slice_chars, string_from_chars, str_eq};
use vstd::prelude::*;

verus! {

/// The protocol shown for an endpoint: the text before its first `:` (all of it without one).
pub open spec fn protocol_of(endpoint: Seq<char>) -> Seq<char> {
    match first_index(endpoint, ':') {
        Some(i) => endpoint.take(i),
        None => endpoint,
    }
}

/// How an upstream is shown: healthy or unhealthy by the snapshot, unknown without one.
pub open spec fn shown_health(snapshot: Option<MonitorView>, name: Seq<char>) -> HealthState {
    match snapshot {
        None => HealthState::Unknown,
        Some(v) => if !v.enabled || (record_of(v, name) matches Some(r) && r.healthy) {
            HealthState::Healthy
        } else {
            HealthState::Unhealthy
        },
    }
}

/// The health shown for upstream `i` of the configuration.
pub open spec fn upstream_health_spec(u: UpstreamView, i: int, default_proxy: Seq<char>, snapshot: Option<MonitorView>) -> UpstreamHealthView {
    let rec = match snapshot {
        Some(v) => record_of(v, u.name),
        None => None,
    };
    UpstreamHealthView {
        name: u.name,
        endpoint: u.endpoint,
        protocol: protocol_of(u.endpoint),
        proxy: if u.proxy.len() == 0 { default_proxy } else { u.proxy },
        order: (i + 1) as usize,
        health: shown_health(snapshot, u.name),
        failure_count: match rec {
            Some(r) => r.failure_count,
            None => 0,
        },
        last_error: match rec {
            Some(r) => r.last_error,
            None => None,
        },
        last_success_at: match rec {
            Some(r) => r.last_success_at,
            None => None,
        },
        latency_ms: match rec {
            Some(r) => r.latency_ms,
            None => None,
        },
    }
}

fn protocol_text(endpoint: &str) -> (r: String)
    ensures
        r@ == protocol_of(endpoint@),
{
    let v = chars_of(endpoint);
    match find_char(&v, ':') {
        Some(i) => {
            let p = slice_chars(&v, 0, i);
            assert(p@ =~= v@.take(i as int));
            string_from_chars(p.as_slice())
        },
        None => String::from_str(endpoint),
    }
}

/// The health shown for each configured upstream, in order.
pub fn build_upstream_health(cfg: &CoreConfig, health: Option<&HealthSnapshot>) -> (r: Vec<UpstreamHealth>)
    requires
        health matches Some(h) ==> h.wf(),
    ensures
        r@.len() == cfg@.resolver.upstreams.len(),
        forall|i: int| 0 <= i < r@.len() ==> (#[trigger] r@[i])@ == upstream_health_spec(
            cfg@.resolver.upstreams[i],
            i,
            cfg@.resolver.default_proxy,
            match health {
                Some(h) => Some(h@),
                None => None,
            },
        ),
{
    let ghost snap = match health {
        Some(h) => Some(h@),
        None => None::<MonitorView>,
    };
    let mut out: Vec<UpstreamHealth> = Vec::new();
    let mut i: usize = 0;
    while i < cfg.resolver.upstreams.len()
        invariant
            i <= cfg.resolver.upstreams@.len(),
            out@.len() == i,
            health matches Some(h) ==> h.wf(),
            snap == match health {
                Some(h) => Some(h@),
                None => None::<MonitorView>,
            },
            forall|k: int| 0 <= k < i ==> (#[trigger] out@[k])@ == upstream_health_spec(
                cfg@.resolver.upstreams[k],
                k,
                cfg@.resolver.default_proxy,
                snap,
            ),
        decreases cfg.resolver.upstreams@.len() - i,
    {
        let item = &cfg.resolver.upstreams[i];
        let proxy = if item.proxy.as_str().is_empty() { cfg.resolver.default_proxy.clone() } else { item.proxy.clone() };
        let (state, failure_count, last_error, last_success_at, latency_ms) = match health {
            Some(h) => {
                let d = h.diagnostics(item.name.as_str());
                let state = if h.healthy(item.name.as_str()) { HealthState::Healthy } else { HealthState::Unhealthy };
                (state, d.failure_count, d.last_error, d.last_success_at, d.latency_ms)
            },
            None => (HealthState::Unknown, 0, None, None, None),
        };
        let entry = UpstreamHealth {
            name: item.name.clone(),
            endpoint: item.endpoint.clone(),
            protocol: protocol_text(item.endpoint.as_str()),
            proxy,
            order: i + 1,
            health: state,
            failure_count,
            last_error,
            last_success_at,
            latency_ms,
        };
        assert(entry@ == upstream_health_spec(cfg@.resolver.upstreams[i as int], i as int, cfg@.resolver.default_proxy, snap));
        out.push(entry);
        i = i + 1;
    }
    out
}

/// The names of the upstreams that go through proxy `name`, in order (an upstream without
/// its own proxy goes through the default one).
pub open spec fn users_of(ups: Seq<UpstreamView>, default_proxy: Seq<char>, name: Seq<char>, n: nat) -> Seq<Seq<char>>
    decreases n,
{
    if n == 0 {
        Seq::empty()
    } else {
        let prev = users_of(ups, default_proxy, name, (n - 1) as nat);
        let u = ups[n - 1];
        let p = if u.proxy.len() == 0 { default_proxy } else { u.proxy };
        if p.len() != 0 && p == name { prev.push(u.name) } else { prev }
    }
}

/// How a proxy is shown: unused without upstreams, unknown without a snapshot, healthy when
/// one of its upstreams is, else unhealthy.
pub open spec fn proxy_state(users: Seq<Seq<char>>, snapshot: Option<MonitorView>) -> HealthState {
    if users.len() == 0 {
        HealthState::Unused
    } else {
        match snapshot {
            None => HealthState::Unknown,
            Some(v) => if exists|k: int| 0 <= k < users.len() && shown_health(snapshot, #[trigger] users[k]) == HealthState::Healthy {
                HealthState::Healthy
            } else {
                HealthState::Unhealthy
            },
        }
    }
}

fn users(cfg: &CoreConfig, name: &str) -> (r: Vec<String>)
    ensures
        texts(r@) == users_of(cfg@.resolver.upstreams, cfg@.resolver.default_proxy, name@, cfg@.resolver.upstreams.len()),
{
    let mut out: Vec<String> = Vec::new();
    let mut i: usize = 0;
    assert(texts(out@) =~= Seq::<Seq<char>>::empty());
    while i < cfg.resolver.upstreams.len()
        invariant
            i <= cfg.resolver.upstreams@.len(),
            texts(out@) == users_of(cfg@.resolver.upstreams, cfg@.resolver.default_proxy, name@, i as nat),
        decreases cfg.resolver.upstreams@.len() - i,
    {
        let item = &cfg.resolver.upstreams[i];
        let p = if item.proxy.as_str().is_empty() { &cfg.resolver.default_proxy } else { &item.proxy };
        if !p.as_str().is_empty() && str_eq(p.as_str(), name) {
            let ghost before = texts(out@);
            out.push(item.name.clone());
            assert(texts(out@) =~= before.push(item.name@));
        }
        i = i + 1;
    }
    out
}

/// The health shown for each configured proxy, in order.
pub fn build_proxy_health(cfg: &CoreConfig, health: Option<&HealthSnapshot>) -> (r: Vec<ProxyHealth>)
    requires
        health matches Some(h) ==> h.wf(),
    ensures
        r@.len() == cfg@.resolver.proxies.len(),
        forall|i: int| 0 <= i < r@.len() ==> {
            let p = cfg@.resolver.proxies[i];
            let u = users_of(cfg@.resolver.upstreams, cfg@.resolver.default_proxy, p.name, cfg@.resolver.upstreams.len());
            (#[trigger] r@[i])@ == (ProxyHealthView {
                name: p.name,
                endpoint: p.endpoint,
                health: proxy_state(u, match health {
                    Some(h) => Some(h@),
                    None => None,
                }),
                upstreams: u,
            })
        },
{
    let ghost snap = match health {
        Some(h) => Some(h@),
        None => None::<MonitorView>,
    };
    let mut out: Vec<ProxyHealth> = Vec::new();
    let mut i: usize = 0;
    while i < cfg.resolver.proxies.len()
        invariant
            i <= cfg.resolver.proxies@.len(),
            out@.len() == i,
            health matches Some(h) ==> h.wf(),
            snap == match health {
                Some(h) => Some(h@),
                None => None::<MonitorView>,
            },
            forall|k: int| 0 <= k < i ==> {
                let p = cfg@.resolver.proxies[k];
                let u = users_of(cfg@.resolver.upstreams, cfg@.resolver.default_proxy, p.name, cfg@.resolver.upstreams.len());
                (#[trigger] out@[k])@ == (ProxyHealthView { name: p.name, endpoint: p.endpoint, health: proxy_state(u, snap), upstreams: u })
            },
        decreases cfg.resolver.proxies@.len() - i,
    {
        let proxy = &cfg.resolver.proxies[i];
        let names = users(cfg, proxy.name.as_str());
        let ghost u = texts(names@);
        let state = if names.len() == 0 {
            HealthState::Unused
        } else {
            match health {
                None => HealthState::Unknown,
                Some(h) => {
                    let mut any = false;
                    let mut k: usize = 0;
                    while k < names.len()
                        invariant
                            k <= names@.len(),
                            u == texts(names@),
                            h.wf(),
                            snap == Some(h@),
                            any == exists|j: int| 0 <= j < k && shown_health(snap, #[trigger] u[j]) == HealthState::Healthy,
                        decreases names@.len() - k,
                    {
                        if h.healthy(names[k].as_str()) {
                            any = true;
                            assert(shown_health(snap, u[k as int]) == HealthState::Healthy);
                        }
                        k = k + 1;
                    }
                    if any { HealthState::Healthy } else { HealthState::Unhealthy }
                },
            }
        };
        let entry = ProxyHealth { name: proxy.name.clone(), endpoint: proxy.endpoint.clone(), health: state, upstreams: names };
        out.push(entry);
        i = i + 1;
    }
    out
}

fn copy_text(s: &Option<String>) -> (r: Option<String>)
    ensures
        opt_text(r) == opt_text(*s),
{
    match s {
        Some(t) => Some(t.clone()),
        None => None,
    }
}

fn copy_texts(v: &Vec<String>) -> (r: Vec<String>)
    ensures
        texts_of(r@) == texts_of(v@),
{
    let mut r: Vec<String> = Vec::new();
    let mut i: usize = 0;
    assert(texts_of(r@) =~= texts_of(v@).take(0));
    while i < v.len()
        invariant
            i <= v@.len(),
            texts_of(r@) == texts_of(v@).take(i as int),
        decreases v@.len() - i,
    {
        let ghost before = texts_of(r@);
        r.push(v[i].clone());
        assert(texts_of(r@) =~= before.push(v@[i as int]@));
        assert(texts_of(v@).take(i + 1) =~= texts_of(v@).take(i as int).push(v@[i as int]@));
        i = i + 1;
    }
    assert(texts_of(v@).take(i as int) =~= texts_of(v@));
    r
}

/// The upstreams shown as of unknown health, everything else kept.
pub fn mark_upstreams_unknown(items: &[UpstreamHealth]) -> (r: Vec<UpstreamHealth>)
    ensures
        r@.len() == items@.len(),
        forall|i: int| 0 <= i < r@.len() ==> (#[trigger] r@[i])@ == (UpstreamHealthView { health: HealthState::Unknown, ..items@[i]@ }),
{
    let mut out: Vec<UpstreamHealth> = Vec::new();
    let mut i: usize = 0;
    while i < items.len()
        invariant
            i <= items@.len(),
            out@.len() == i,
            forall|k: int| 0 <= k < i ==> (#[trigger] out@[k])@ == (UpstreamHealthView { health: HealthState::Unknown, ..items@[k]@ }),
        decreases items@.len() - i,
    {
        let it = &items[i];
        out.push(UpstreamHealth {
            name: it.name.clone(),
            endpoint: it.endpoint.clone(),
            protocol: it.protocol.clone(),
            proxy: it.proxy.clone(),
            order: it.order,
            health: HealthState::Unknown,
            failure_count: it.failure_count,
            last_error: copy_text(&it.last_error),
            last_success_at: copy_text(&it.last_success_at),
            latency_ms: it.latency_ms,
        });
        i = i + 1;
    }
    out
}

/// The proxies shown as of unknown health, everything else kept.
pub fn mark_proxies_unknown(items: &[ProxyHealth]) -> (r: Vec<ProxyHealth>)
    ensures
        r@.len() == items@.len(),
        forall|i: int| 0 <= i < r@.len() ==> (#[trigger] r@[i])@ == (ProxyHealthView { health: HealthState::Unknown, ..items@[i]@ }),
{
    let mut out: Vec<ProxyHealth> = Vec::new();
    let mut i: usize = 0;
    while i < items.len()
        invariant
            i <= items@.len(),
            out@.len() == i,
            forall|k: int| 0 <= k < i ==> (#[trigger] out@[k])@ == (ProxyHealthView { health: HealthState::Unknown, ..items@[k]@ }),
        decreases items@.len() - i,
    {
        let it = &items[i];
        out.push(ProxyHealth {
            name: it.name.clone(),
            endpoint: it.endpoint.clone(),
            health: HealthState::Unknown,
            upstreams: copy_texts(&it.upstreams),
        });
        i = i + 1;
    }
    out
}


/// The status of a service that runs `core`, started at `started_at`, with the
/// upstream and proxy health read from `health`.
pub fn running_status(core: &CoreConfig, health: &HealthSnapshot, started_at: Option<String>) -> (s: DesktopStatus)
    requires
        health.wf(),
    ensures
        s.running,
        s.config_path@ == Seq::<char>::empty(),
        s.mode@ == core@.server.mode,
        s.listen@ == core@.server.listen,
        s.upstreams == core@.resolver.upstreams.len(),
        s.routes == core@.resolver.routes.len(),
        s.default_upstreams == core@.resolver.upstreams.len(),
        s.started_at == started_at,
        s.last_error is None,
        s.upstream_health@.len() == core@.resolver.upstreams.len(),
        forall|i: int|
            0 <= i < s.upstream_health@.len() ==> (#[trigger] s.upstream_health@[i])@ == upstream_health_spec(
                core@.resolver.upstreams[i],
                i,
                core@.resolver.default_proxy,
                Some(health@),
            ),
        s.proxy_health@.len() == core@.resolver.proxies.len(),
        forall|i: int|
            0 <= i < s.proxy_health@.len() ==> {
                let p = core@.resolver.proxies[i];
                let u = users_of(core@.resolver.upstreams, core@.resolver.default_proxy, p.name, core@.resolver.upstreams.len());
                (#[trigger] s.proxy_health@[i])@ == (ProxyHealthView {
                    name: p.name,
                    endpoint: p.endpoint,
                    health: proxy_state(u, Some(health@)),
                    upstreams: u,
                })
            },
{
    DesktopStatus {
        running: true,
        config_path: String::new(),
        mode: core.server.mode.as_str().to_owned(),
        listen: core.server.listen.as_str().to_owned(),
        upstreams: core.resolver.upstreams.len(),
        routes: core.resolver.routes.len(),
        default_upstreams: core.resolver.upstreams.len(),
        started_at,
        last_error: None,
        upstream_health: build_upstream_health(core, Some(health)),
        proxy_health: build_proxy_health(core, Some(health)),
    }
}

/// The status after the service stopped: not running, every upstream and proxy shown
/// as unknown, everything else kept.
pub fn stopped_status(status: DesktopStatus) -> (s: DesktopStatus)
    ensures
        !s.running,
        s.config_path == status.config_path,
        s.mode == status.mode,
        s.listen == status.listen,
        s.upstreams == status.upstreams,
        s.routes == status.routes,
        s.default_upstreams == status.default_upstreams,
        s.started_at == status.started_at,
        s.last_error == status.last_error,
        s.upstream_health@.len() == status.upstream_health@.len(),
        forall|i: int|
            0 <= i < s.upstream_health@.len() ==> (#[trigger] s.upstream_health@[i])@ == (UpstreamHealthView {
                health: HealthState::Unknown,
                ..status.upstream_health@[i]@
            }),
        s.proxy_health@.len() == status.proxy_health@.len(),
        forall|i: int|
            0 <= i < s.proxy_health@.len() ==> (#[trigger] s.proxy_health@[i])@ == (ProxyHealthView {
                health: HealthState::Unknown,
                ..status.proxy_health@[i]@
            }),
{
    let upstream_health = mark_upstreams_unknown(status.upstream_health.as_slice());
    let proxy_health = mark_proxies_unknown(status.proxy_health.as_slice());
    DesktopStatus {
        running: false,
        config_path: status.config_path,
        mode: status.mode,
        listen: status.listen,
        upstreams: status.upstreams,
        routes: status.routes,
        default_upstreams: status.default_upstreams,
        started_at: status.started_at,
        last_error: status.last_error,
        upstream_health,
        proxy_health,
    }
}

/// What applying a saved configuration did: nothing more while the service is stopped,
/// a hot reload when the running service could take it, else a restart.
pub fn apply_config_action(running: bool, hot_reloaded: bool) -> (a: ApplyConfigAction)
    ensures
        a == if !running {
            ApplyConfigAction::Saved
        } else if hot_reloaded {
            ApplyConfigAction::HotReloaded
        } else {
            ApplyConfigAction::Restarted
        },
{
    if !running {
        ApplyConfigAction::Saved
    } else if hot_reloaded {
        ApplyConfigAction::HotReloaded
    } else {
        ApplyConfigAction::Restarted
    }
}

} // verus!
