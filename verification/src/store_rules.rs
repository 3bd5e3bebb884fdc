//! The rules the configuration store applies to what it keeps: how host and route
//! rules are split into their columns, how ports and counters are turned into the
//! integers the database holds, which routes stay in force when their upstreams are
//! gone, and why a stored route is marked invalid.
use crate::desktop::{texts_of, DesktopConfig, DesktopConfigView, DesktopResolverView};
use crate::text::{
    chars_of, join_spec, join_strings, parse_u16, parse_u16_spec, split_all, split_chars, split_once,
    split_once_chars, string_from_chars, str_eq, trim, trim_chars, trim_str, trimmed_nonempty,
    append_str,
};
use crate::validate::{durations_fit, desktop_checked_form, validate_desktop_config, validate_spec, ConfigError, ConfigErrorView};
use crate::text::{debug_quoted, debug_text};
use vstd::prelude::*;

verus! {

/// A route rule split into its parts.
#[derive(Clone, Debug)]
pub struct ParsedRoute {
    pub match_type: String,
    pub domain: String,
    pub upstreams: Vec<String>,
}

/// A route rule's parts as values.
pub struct ParsedRouteView {
    pub match_type: Seq<char>,
    pub domain: Seq<char>,
    pub upstreams: Seq<Seq<char>>,
}

impl View for ParsedRoute {
    type V = ParsedRouteView;

    open spec fn view(&self) -> ParsedRouteView {
        ParsedRouteView { match_type: self.match_type@, domain: self.domain@, upstreams: texts_of(self.upstreams@) }
    }
}

fn owned(s: &str) -> (r: String)
    ensures
        r@ == s@,
{
    s.to_owned()
}

fn string_of(v: &Vec<char>) -> (r: String)
    ensures
        r@ == v@,
{
    string_from_chars(v.as_slice())
}

/// A host rule `domain = ips` split at its first `=`, both sides trimmed.
pub open spec fn host_rule_spec(raw: Seq<char>) -> Result<(Seq<char>, Seq<char>), Seq<char>> {
    match split_once(raw, '=') {
        None => Err("host rule must contain '='"@),
        Some((d, ips)) => Ok((trim(d), trim(ips))),
    }
}

/// A host rule split into its domain and its addresses.
pub fn parse_host_rule(raw: &str) -> (r: Result<(String, String), String>)
    ensures
        match (r, host_rule_spec(raw@)) {
            (Ok((d, ips)), Ok((sd, sips))) => d@ == sd && ips@ == sips,
            (Err(e), Err(t)) => e@ == t,
            _ => false,
        },
{
    let v = chars_of(raw);
    match split_once_chars(&v, '=') {
        None => Err(owned("host rule must contain '='")),
        Some((d, ips)) => Ok((string_of(&trim_chars(&d)), string_of(&trim_chars(&ips)))),
    }
}

/// A port column: blank is no port, else the port number.
pub open spec fn port_spec(port: Seq<char>) -> Result<Option<i64>, Seq<char>> {
    let v = trim(port);
    if v.len() == 0 {
        Ok(None)
    } else {
        match parse_u16_spec(v) {
            Some(p) => Ok(Some(p as i64)),
            None => Err("parse port "@ + debug_quoted(v)),
        }
    }
}

/// A port as the database holds it.
pub fn port_to_i64(port: &str) -> (r: Result<Option<i64>, String>)
    ensures
        match (r, port_spec(port@)) {
            (Ok(p), Ok(q)) => p == q,
            (Err(e), Err(t)) => e@ == t,
            _ => false,
        },
{
    let v = trim_chars(&chars_of(port));
    if v.len() == 0 {
        return Ok(None);
    }
    match parse_u16(&v) {
        Some(p) => Ok(Some(p as i64)),
        None => {
            let text = crate::text::string_from_chars(v.as_slice());
            let mut out: Vec<char> = Vec::new();
            append_str(&mut out, "parse port ");
            append_str(&mut out, debug_text(text.as_str()).as_str());
            Err(string_from_chars(out.as_slice()))
        },
    }
}

/// A route rule `type:domain=up1,up2` split into its match type, its domain and the
/// names of its upstreams (trimmed, blank ones dropped).
pub open spec fn route_rule_spec(raw: Seq<char>) -> Result<ParsedRouteView, Seq<char>> {
    match split_once(raw, ':') {
        None => Err("route rule must contain ':'"@),
        Some((m, rest)) => match split_once(rest, '=') {
            None => Err("route rule must contain '='"@),
            Some((d, ups)) => Ok(
                ParsedRouteView {
                    match_type: trim(m),
                    domain: trim(d),
                    upstreams: trimmed_nonempty(split_all(ups, ',')),
                },
            ),
        },
    }
}

fn nonblank_pieces(pieces: &Vec<Vec<char>>) -> (r: Vec<String>)
    ensures
        texts_of(r@) == trimmed_nonempty(pieces@.map_values(|x: Vec<char>| x@)),
{
    let ghost src = pieces@.map_values(|x: Vec<char>| x@);
    let mut out: Vec<String> = Vec::new();
    let mut i: usize = 0;
    while i < pieces.len()
        invariant
            i <= pieces@.len(),
            src == pieces@.map_values(|x: Vec<char>| x@),
            texts_of(out@) == trimmed_nonempty(src.take(i as int)),
        decreases pieces@.len() - i,
    {
        let t = trim_chars(&pieces[i]);
        assert(src.take(i + 1).drop_last() =~= src.take(i as int));
        assert(src.take(i + 1).last() == src[i as int]);
        if t.len() > 0 {
            let ghost before = texts_of(out@);
            out.push(string_of(&t));
            assert(texts_of(out@) =~= before.push(t@));
        }
        i = i + 1;
    }
    assert(src.take(pieces@.len() as int) =~= src);
    out
}

/// A route rule split into its parts.
pub fn parse_route_rule(raw: &str) -> (r: Result<ParsedRoute, String>)
    ensures
        match (r, route_rule_spec(raw@)) {
            (Ok(p), Ok(q)) => p@ == q,
            (Err(e), Err(t)) => e@ == t,
            _ => false,
        },
{
    let v = chars_of(raw);
    match split_once_chars(&v, ':') {
        None => Err(owned("route rule must contain ':'")),
        Some((m, rest)) => match split_once_chars(&rest, '=') {
            None => Err(owned("route rule must contain '='")),
            Some((d, ups)) => {
                let pieces = split_chars(&ups, ',');
                Ok(
                    ParsedRoute {
                        match_type: string_of(&trim_chars(&m)),
                        domain: string_of(&trim_chars(&d)),
                        upstreams: nonblank_pieces(&pieces),
                    },
                )
            },
        },
    }
}

/// The names of `ups` that are among `known`, in their order.
pub open spec fn known_only(ups: Seq<Seq<char>>, known: Seq<Seq<char>>) -> Seq<Seq<char>>
    decreases ups.len(),
{
    if ups.len() == 0 {
        Seq::empty()
    } else if known.contains(ups.last()) {
        known_only(ups.drop_last(), known).push(ups.last())
    } else {
        known_only(ups.drop_last(), known)
    }
}

/// The names of `ups` that are not among `known`, in their order.
pub open spec fn unknown_only(ups: Seq<Seq<char>>, known: Seq<Seq<char>>) -> Seq<Seq<char>>
    decreases ups.len(),
{
    if ups.len() == 0 {
        Seq::empty()
    } else if known.contains(ups.last()) {
        unknown_only(ups.drop_last(), known)
    } else {
        unknown_only(ups.drop_last(), known).push(ups.last())
    }
}

fn contains_text(v: &Vec<String>, s: &str) -> (b: bool)
    ensures
        b == texts_of(v@).contains(s@),
{
    let mut i: usize = 0;
    while i < v.len()
        invariant
            i <= v@.len(),
            forall|k: int| 0 <= k < i ==> v@[k]@ != s@,
        decreases v@.len() - i,
    {
        if str_eq(v[i].as_str(), s) {
            assert(texts_of(v@)[i as int] == s@);
            return true;
        }
        i = i + 1;
    }
    proof {
        if texts_of(v@).contains(s@) {
            let k = choose|k: int| 0 <= k < texts_of(v@).len() && texts_of(v@)[k] == s@;
            assert(v@[k]@ == s@);
        }
    }
    false
}

fn filter_known(ups: &Vec<String>, known: &Vec<String>, keep: bool) -> (r: Vec<String>)
    ensures
        texts_of(r@) == if keep {
            known_only(texts_of(ups@), texts_of(known@))
        } else {
            unknown_only(texts_of(ups@), texts_of(known@))
        },
{
    let ghost src = texts_of(ups@);
    let ghost names = texts_of(known@);
    let mut out: Vec<String> = Vec::new();
    let mut i: usize = 0;
    while i < ups.len()
        invariant
            i <= ups@.len(),
            src == texts_of(ups@),
            names == texts_of(known@),
            texts_of(out@) == if keep {
                known_only(src.take(i as int), names)
            } else {
                unknown_only(src.take(i as int), names)
            },
        decreases ups@.len() - i,
    {
        assert(src.take(i + 1).drop_last() =~= src.take(i as int));
        assert(src.take(i + 1).last() == src[i as int]);
        let found = contains_text(known, ups[i].as_str());
        if found == keep {
            let ghost before = texts_of(out@);
            let c = owned(ups[i].as_str());
            let ghost cv = c@;
            out.push(c);
            assert(texts_of(out@) =~= before.push(cv));
        }
        i = i + 1;
    }
    assert(src.take(ups@.len() as int) =~= src);
    out
}

/// A stored route as it stays in force: routes that do not parse are dropped, the
/// route's upstreams are narrowed to the configured ones, and a route left with none
/// is dropped; a kept route is written back as `type:domain=up1,up2`.
pub open spec fn kept_route(raw: Seq<char>, names: Seq<Seq<char>>) -> Option<Seq<char>> {
    match route_rule_spec(raw) {
        Err(_) => None,
        Ok(r) => {
            let ups = known_only(r.upstreams, names);
            if ups.len() == 0 {
                None
            } else {
                Some(r.match_type + seq![':'] + r.domain + seq!['='] + join_spec(ups, ','))
            }
        },
    }
}

/// The routes that stay in force, in their order.
pub open spec fn kept_routes(routes: Seq<Seq<char>>, names: Seq<Seq<char>>) -> Seq<Seq<char>>
    decreases routes.len(),
{
    if routes.len() == 0 {
        Seq::empty()
    } else {
        match kept_route(routes.last(), names) {
            Some(r) => kept_routes(routes.drop_last(), names).push(r),
            None => kept_routes(routes.drop_last(), names),
        }
    }
}

/// The names of the configured upstreams.
pub open spec fn upstream_names(c: DesktopConfigView) -> Seq<Seq<char>> {
    c.resolver.upstreams.map_values(|u: crate::desktop::DesktopUpstreamView| u.name)
}

/// The configuration the store checks before saving: the same, with only the routes
/// that stay in force.
pub open spec fn store_checked_config(c: DesktopConfigView) -> DesktopConfigView {
    DesktopConfigView {
        resolver: DesktopResolverView { routes: kept_routes(c.resolver.routes, upstream_names(c)), ..c.resolver },
        ..c
    }
}

/// Checks a configuration before the store saves it: routes whose upstreams are gone
/// are narrowed or dropped first, then the configuration is validated as the desktop
/// front end's configuration is.
pub fn validate_store_config(config: DesktopConfig) -> (r: Result<(), ConfigError>)
    requires
        durations_fit(desktop_checked_form(store_checked_config(config@))),
    ensures
        match r {
            Ok(()) => validate_spec(desktop_checked_form(store_checked_config(config@))) == Ok::<(), ConfigErrorView>(()),
            Err(e) => validate_spec(desktop_checked_form(store_checked_config(config@))) == Err::<(), ConfigErrorView>(e@),
        },
{
    let mut names: Vec<String> = Vec::new();
    let mut i: usize = 0;
    while i < config.resolver.upstreams.len()
        invariant
            i <= config.resolver.upstreams@.len(),
            texts_of(names@) == upstream_names(config@).take(i as int),
        decreases config.resolver.upstreams@.len() - i,
    {
        let ghost before = texts_of(names@);
        let c = owned(config.resolver.upstreams[i].name.as_str());
        let ghost cv = c@;
        names.push(c);
        assert(texts_of(names@) =~= before.push(cv));
        assert(upstream_names(config@).take(i + 1) =~= upstream_names(config@).take(i as int).push(cv));
        i = i + 1;
    }
    assert(upstream_names(config@).take(config.resolver.upstreams@.len() as int) =~= upstream_names(config@));
    let ghost routes = config@.resolver.routes;
    let mut kept: Vec<String> = Vec::new();
    let mut k: usize = 0;
    while k < config.resolver.routes.len()
        invariant
            k <= config.resolver.routes@.len(),
            routes == config@.resolver.routes,
            routes == texts_of(config.resolver.routes@),
            texts_of(names@) == upstream_names(config@),
            texts_of(kept@) == kept_routes(routes.take(k as int), upstream_names(config@)),
        decreases config.resolver.routes@.len() - k,
    {
        assert(routes.take(k + 1).drop_last() =~= routes.take(k as int));
        assert(routes.take(k + 1).last() == routes[k as int]);
        let ghost raw = routes[k as int];
        match parse_route_rule(config.resolver.routes[k].as_str()) {
            Err(_) => {
                assert(kept_route(raw, upstream_names(config@)) is None);
            },
            Ok(route) => {
                let ups = filter_known(&route.upstreams, &names, true);
                if ups.len() == 0 {
                    assert(kept_route(raw, upstream_names(config@)) is None);
                } else {
                    let mut out: Vec<char> = Vec::new();
                    append_str(&mut out, route.match_type.as_str());
                    out.push(':');
                    append_str(&mut out, route.domain.as_str());
                    out.push('=');
                    let joined = join_strings(&ups, ',');
                    append_str(&mut out, joined.as_str());
                    let ghost before = texts_of(kept@);
                    let s = string_from_chars(out.as_slice());
                    let ghost sv = s@;
                    assert(sv =~= route@.match_type + seq![':'] + route@.domain + seq!['='] + join_spec(
                        texts_of(ups@),
                        ',',
                    ));
                    assert(kept_route(raw, upstream_names(config@)) == Some(sv));
                    kept.push(s);
                    assert(texts_of(kept@) =~= before.push(sv));
                }
            },
        }
        k = k + 1;
    }
    assert(routes.take(config.resolver.routes@.len() as int) =~= routes);
    let mut runtime = config;
    runtime.resolver.routes = kept;
    assert(runtime@ == store_checked_config(config@));
    validate_desktop_config(runtime)
}

/// Why a stored route is not in force: it selects no upstream, or names upstreams that
/// are not enabled; empty when it is fine.
pub open spec fn route_invalid_reason_spec(route: ParsedRouteView, enabled: Seq<Seq<char>>) -> Seq<char> {
    if route.upstreams.len() == 0 {
        "no upstream selected"@
    } else {
        let missing = unknown_only(route.upstreams, enabled);
        if missing.len() == 0 {
            Seq::empty()
        } else {
            "missing upstream: "@ + join_spec(missing, ',')
        }
    }
}

/// Why a stored route is not in force, given the names of the enabled upstreams.
pub fn route_invalid_reason(route: &ParsedRoute, enabled: &Vec<String>) -> (r: String)
    ensures
        r@ == route_invalid_reason_spec(route@, texts_of(enabled@)),
{
    if route.upstreams.len() == 0 {
        return owned("no upstream selected");
    }
    let missing = filter_known(&route.upstreams, enabled, false);
    if missing.len() == 0 {
        return String::new();
    }
    let mut out: Vec<char> = Vec::new();
    append_str(&mut out, "missing upstream: ");
    let joined = join_strings(&missing, ',');
    append_str(&mut out, joined.as_str());
    string_from_chars(out.as_slice())
}

/// A flag as the database holds it.
pub fn bool_to_i64(value: bool) -> (r: i64)
    ensures
        r == if value { 1i64 } else { 0i64 },
{
    if value {
        1
    } else {
        0
    }
}

/// A flag read back from the database: anything but zero is set.
pub fn int_to_bool(value: i64) -> (b: bool)
    ensures
        b == (value != 0),
{
    value != 0
}

/// A count as the database holds it, refused when it does not fit.
pub fn usize_to_i64(value: usize) -> (r: Result<i64, String>)
    ensures
        match r {
            Ok(v) => value <= i64::MAX && v == value,
            Err(e) => value > i64::MAX && e@ == "integer is too large"@,
        },
{
    if value as u128 <= i64::MAX as u128 {
        Ok(value as i64)
    } else {
        Err(owned("integer is too large"))
    }
}

/// A 32-bit value as the database holds it.
pub fn u32_to_i64(value: u32) -> (r: i64)
    ensures
        r == value,
{
    value as i64
}

/// A duration in milliseconds as the database holds it, refused when it does not fit.
pub fn u128_to_i64(value: u128) -> (r: Result<i64, String>)
    ensures
        match r {
            Ok(v) => value <= i64::MAX && v == value,
            Err(e) => value > i64::MAX && e@ == "integer is too large"@,
        },
{
    if value <= i64::MAX as u128 {
        Ok(value as i64)
    } else {
        Err(owned("integer is too large"))
    }
}


/// A stored number read back as a count; `None` when it is negative or too large.
pub fn i64_to_usize(value: i64) -> (r: Option<usize>)
    ensures
        match r {
            Some(v) => 0 <= value <= usize::MAX && v == value,
            None => value < 0 || value > usize::MAX,
        },
{
    if value < 0 {
        return None;
    }
    if value as u128 <= usize::MAX as u128 {
        Some(value as usize)
    } else {
        None
    }
}

/// A stored number read back as a 32-bit value; `None` when it does not fit.
pub fn i64_to_u32(value: i64) -> (r: Option<u32>)
    ensures
        match r {
            Some(v) => 0 <= value <= u32::MAX && v == value,
            None => value < 0 || value > u32::MAX,
        },
{
    if 0 <= value && value <= u32::MAX as i64 {
        Some(value as u32)
    } else {
        None
    }
}

/// A stored number read back as a signed 32-bit value; `None` when it does not fit.
pub fn i64_to_i32(value: i64) -> (r: Option<i32>)
    ensures
        match r {
            Some(v) => i32::MIN <= value <= i32::MAX && v == value,
            None => value < i32::MIN || value > i32::MAX,
        },
{
    if i32::MIN as i64 <= value && value <= i32::MAX as i64 {
        Some(value as i32)
    } else {
        None
    }
}

/// A stored number read back as a duration count; `None` when it is negative.
pub fn i64_to_u128(value: i64) -> (r: Option<u128>)
    ensures
        match r {
            Some(v) => value >= 0 && v == value,
            None => value < 0,
        },
{
    if value >= 0 {
        Some(value as u128)
    } else {
        None
    }
}

} // verus!
