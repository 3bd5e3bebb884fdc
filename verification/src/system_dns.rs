//! The rules of the system DNS takeover: which server address points the system at
//! the listener, which adapters look virtual, how the platform tools' output is read,
//! how saved settings are normalized, what status and warnings are shown, and how an
//! adapter's record changes when its DNS servers are taken over or given back.
use crate::desktop::{
    pair_texts, texts_of, LocalizedMessage, LocalizedMessageView, SystemDnsAdapter, SystemDnsSettings,
    SystemDnsStatus,
};
use crate::ip_text::{ip_text, ip_to_string};
use crate::net::{is_unspecified, parse_socket_addr, parse_socket_spec, unspecified, IpAddress};
use crate::order::{sort_dedup, strictly_sorted};
use crate::text::{
    chars_of, contains_chars, contains_seq, lines_of, lines_spec, lower_seq, lower_str, replace_all,
    replace_str, starts_with_chars, str_eq, string_from_chars, trim, trim_chars, trim_start_char,
    trim_start_char_chars, trim_str, trimmed_nonempty, trimmed_nonempty_strings,
};
use vstd::prelude::*;

verus! {

/// The server addresses that point the system at the listener, whether they can be
/// applied, and the warning when they cannot.
#[derive(Clone, Debug)]
pub struct ListenerDnsTargets {
    pub servers: Vec<String>,
    pub can_apply: bool,
    pub warning: Option<LocalizedMessage>,
}

/// Listener targets as values.
pub struct ListenerDnsTargetsView {
    pub servers: Seq<Seq<char>>,
    pub can_apply: bool,
    pub warning: Option<LocalizedMessageView>,
}

impl View for ListenerDnsTargets {
    type V = ListenerDnsTargetsView;

    open spec fn view(&self) -> ListenerDnsTargetsView {
        ListenerDnsTargetsView {
            servers: texts_of(self.servers@),
            can_apply: self.can_apply,
            warning: match self.warning {
                Some(m) => Some(m@),
                None => None,
            },
        }
    }
}

/// A message with the given code, text and placeholder values.
pub open spec fn message_spec(
    code: Seq<char>,
    message: Seq<char>,
    values: Seq<(Seq<char>, Seq<char>)>,
) -> LocalizedMessageView {
    LocalizedMessageView { code, message, values }
}

/// The `listen` placeholder with its value.
pub open spec fn listen_value(listen: Seq<char>) -> Seq<(Seq<char>, Seq<char>)> {
    seq![("listen"@, listen)]
}

/// The warning for a listen address that is not `ip:port`.
pub open spec fn invalid_listen_warning(listen: Seq<char>) -> LocalizedMessageView {
    message_spec(
        "systemDns.warning.invalidListenAddress"@,
        "Listen address is not a complete IP:port value and cannot be used for system DNS takeover."@,
        listen_value(listen),
    )
}

/// The warning for a listener on a port other than 53.
pub open spec fn port_not_53_warning(listen: Seq<char>) -> LocalizedMessageView {
    message_spec(
        "systemDns.warning.listenPortNot53"@,
        "System DNS can only set a DNS server IP. Change the listen port to 53 before taking over system DNS."@,
        listen_value(listen),
    )
}

/// The warning for a listener that cannot be used, when no other warning says why.
pub open spec fn listener_unavailable_warning(listen: Seq<char>) -> LocalizedMessageView {
    message_spec(
        "systemDns.warning.listenerUnavailable"@,
        "Current listen address cannot be used for system DNS takeover."@,
        listen_value(listen),
    )
}

/// The warning for more than one active adapter.
pub open spec fn multiple_active_warning() -> LocalizedMessageView {
    message_spec(
        "systemDns.warning.multipleActiveAdapters"@,
        "Multiple active network adapters detected. Select only the current egress network to avoid affecting VPNs or virtual adapters."@,
        Seq::empty(),
    )
}

/// The warning for virtual or tunnel adapters in the list.
pub open spec fn virtual_adapters_warning() -> LocalizedMessageView {
    message_spec(
        "systemDns.warning.virtualAdapters"@,
        "The list includes virtual or tunnel adapters. They are not selected automatically."@,
        Seq::empty(),
    )
}

/// The warning for a takeover that is enabled with no adapter selected.
pub open spec fn no_adapter_warning() -> LocalizedMessageView {
    message_spec(
        "systemDns.warning.noAdapterSelected"@,
        "System DNS takeover is enabled, but no network adapter is selected."@,
        Seq::empty(),
    )
}

/// The address the system should use to reach a listener on `ip`: the loopback
/// address of its family when the listener is on the unspecified address.
pub open spec fn listener_target_ip(ip: IpAddress) -> IpAddress {
    if is_unspecified(ip) {
        match ip {
            IpAddress::V4(..) => IpAddress::V4(127, 0, 0, 1),
            IpAddress::V6(..) => IpAddress::V6(0, 0, 0, 0, 0, 0, 0, 1),
        }
    } else {
        ip
    }
}

/// What the listener at `listen` offers the system DNS settings.
pub open spec fn listener_targets_spec(listen: Seq<char>) -> ListenerDnsTargetsView {
    match parse_socket_spec(listen) {
        None => ListenerDnsTargetsView {
            servers: Seq::empty(),
            can_apply: false,
            warning: Some(invalid_listen_warning(listen)),
        },
        Some(a) => if a.port != 53 {
            ListenerDnsTargetsView {
                servers: seq![ip_text(listener_target_ip(a.ip))],
                can_apply: false,
                warning: Some(port_not_53_warning(listen)),
            }
        } else {
            ListenerDnsTargetsView {
                servers: seq![ip_text(listener_target_ip(a.ip))],
                can_apply: true,
                warning: None,
            }
        },
    }
}

fn owned(s: &str) -> (r: String)
    ensures
        r@ == s@,
{
    s.to_owned()
}

fn listen_message(code: &str, text: &str, listen: &str) -> (m: LocalizedMessage)
    ensures
        m@ == message_spec(code@, text@, listen_value(listen@)),
{
    let mut values: Vec<(String, String)> = Vec::new();
    values.push((owned("listen"), owned(listen)));
    let m = LocalizedMessage { code: owned(code), message: owned(text), values };
    assert(pair_texts(m.values@) =~= listen_value(listen@));
    m
}

fn plain_message(code: &str, text: &str) -> (m: LocalizedMessage)
    ensures
        m@ == message_spec(code@, text@, Seq::empty()),
{
    let m = LocalizedMessage { code: owned(code), message: owned(text), values: Vec::new() };
    assert(pair_texts(m.values@) =~= Seq::<(Seq<char>, Seq<char>)>::empty());
    m
}

/// The address, as text, that the system should use to reach a listener on `ip`.
pub fn dns_server_ip_for_listener(ip: IpAddress) -> (s: String)
    ensures
        s@ == ip_text(listener_target_ip(ip)),
{
    if unspecified(ip) {
        match ip {
            IpAddress::V4(..) => ip_to_string(IpAddress::V4(127, 0, 0, 1)),
            IpAddress::V6(..) => ip_to_string(IpAddress::V6(0, 0, 0, 0, 0, 0, 0, 1)),
        }
    } else {
        ip_to_string(ip)
    }
}

fn one_server(s: String) -> (v: Vec<String>)
    ensures
        texts_of(v@) == seq![s@],
{
    let mut v: Vec<String> = Vec::new();
    v.push(s);
    assert(texts_of(v@) =~= seq![s@]);
    v
}

/// What the listener at `listen` offers the system DNS settings: the server address
/// to set, and whether it can be set (only for a listener on port 53).
pub fn listener_dns_targets(listen: &str) -> (r: ListenerDnsTargets)
    ensures
        r@ == listener_targets_spec(listen@),
{
    match parse_socket_addr(listen) {
        None => {
            let r = ListenerDnsTargets {
                servers: Vec::new(),
                can_apply: false,
                warning: Some(
                    listen_message(
                        "systemDns.warning.invalidListenAddress",
                        "Listen address is not a complete IP:port value and cannot be used for system DNS takeover.",
                        listen,
                    ),
                ),
            };
            assert(texts_of(r.servers@) =~= Seq::<Seq<char>>::empty());
            r
        },
        Some(a) => {
            let servers = one_server(dns_server_ip_for_listener(a.ip));
            if a.port != 53 {
                ListenerDnsTargets {
                    servers,
                    can_apply: false,
                    warning: Some(
                        listen_message(
                            "systemDns.warning.listenPortNot53",
                            "System DNS can only set a DNS server IP. Change the listen port to 53 before taking over system DNS.",
                            listen,
                        ),
                    ),
                }
            } else {
                ListenerDnsTargets { servers, can_apply: true, warning: None }
            }
        },
    }
}

/// Whether the saved target servers are exactly the listener's own address, as the
/// listener address reads (so they follow the listener when it moves).
pub open spec fn targets_match_listener_spec(listen: Seq<char>, servers: Seq<Seq<char>>) -> bool {
    match parse_socket_spec(listen) {
        None => false,
        Some(a) => servers.len() == 1 && trim(servers[0]) == ip_text(a.ip),
    }
}

/// Whether the saved target servers are exactly the listener's own address.
pub fn target_servers_match_listener(listen: &str, servers: &Vec<String>) -> (b: bool)
    ensures
        b == targets_match_listener_spec(listen@, texts_of(servers@)),
{
    match parse_socket_addr(listen) {
        None => false,
        Some(a) => {
            if servers.len() != 1 {
                return false;
            }
            let t = trim_str(servers[0].as_str());
            let ip = ip_to_string(a.ip);
            str_eq(t.as_str(), ip.as_str())
        },
    }
}

/// The placeholder `{key}`.
pub open spec fn placeholder(key: Seq<char>) -> Seq<char> {
    seq!['{'] + key + seq!['}']
}

/// A message's text with each placeholder replaced by its value, in the order of the
/// values.
pub open spec fn fallback_spec(message: Seq<char>, values: Seq<(Seq<char>, Seq<char>)>) -> Seq<char>
    decreases values.len(),
{
    if values.len() == 0 {
        message
    } else {
        replace_all(fallback_spec(message, values.drop_last()), placeholder(values.last().0), values.last().1)
    }
}

/// The English text of a message with its placeholders filled in.
pub fn localized_message_fallback(message: &LocalizedMessage) -> (s: String)
    ensures
        s@ == fallback_spec(message@.message, message@.values),
{
    let mut out = owned(message.message.as_str());
    let mut i: usize = 0;
    while i < message.values.len()
        invariant
            i <= message.values@.len(),
            out@ == fallback_spec(message@.message, pair_texts(message.values@).take(i as int)),
        decreases message.values@.len() - i,
    {
        let key = &message.values[i].0;
        let value = &message.values[i].1;
        let mut p: Vec<char> = Vec::new();
        p.push('{');
        let kc = chars_of(key.as_str());
        let mut j: usize = 0;
        while j < kc.len()
            invariant
                j <= kc@.len(),
                p@ == seq!['{'] + kc@.take(j as int),
            decreases kc@.len() - j,
        {
            p.push(kc[j]);
            j = j + 1;
            assert(p@ =~= seq!['{'] + kc@.take(j as int));
        }
        p.push('}');
        assert(kc@.take(kc@.len() as int) =~= kc@);
        assert(p@ =~= placeholder(key@));
        let ps = string_from_chars(p.as_slice());
        let next = replace_str(out.as_str(), ps.as_str(), value.as_str());
        proof {
            let vs = pair_texts(message.values@);
            assert(vs.take(i + 1).drop_last() =~= vs.take(i as int));
            assert(vs.take(i + 1).last() == (key@, value@));
        }
        out = next;
        i = i + 1;
    }
    assert(pair_texts(message.values@).take(message.values@.len() as int) =~= pair_texts(message.values@));
    out
}

/// The words that mark an adapter as virtual or a tunnel.
pub open spec fn virtual_markers() -> Seq<Seq<char>> {
    seq![
        "vpn"@,
        "tun"@,
        "tap"@,
        "utun"@,
        "wireguard"@,
        "tailscale"@,
        "zerotier"@,
        "virtual"@,
        "vmware"@,
        "hyper-v"@,
        "loopback"@,
    ]
}

/// Whether an adapter looks virtual: its name and description, lower-cased, contain
/// one of the markers.
pub open spec fn is_virtual_spec(name: Seq<char>, description: Seq<char>) -> bool {
    let t = lower_seq(name + seq![' '] + description);
    exists|i: int| 0 <= i < virtual_markers().len() && contains_seq(t, #[trigger] virtual_markers()[i])
}

/// Whether an adapter looks virtual or like a tunnel.
pub fn virtual_adapter(name: &str, description: &str) -> (b: bool)
    ensures
        b == is_virtual_spec(name@, description@),
{
    let mut t = chars_of(name);
    t.push(' ');
    let d = chars_of(description);
    let mut j: usize = 0;
    while j < d.len()
        invariant
            j <= d@.len(),
            t@ == name@ + seq![' '] + d@.take(j as int),
        decreases d@.len() - j,
    {
        t.push(d[j]);
        j = j + 1;
        assert(t@ =~= name@ + seq![' '] + d@.take(j as int));
    }
    assert(d@.take(d@.len() as int) =~= d@);
    let ts = string_from_chars(t.as_slice());
    let lower = chars_of(lower_str(ts.as_str()).as_str());
    let markers: [&str; 11] = [
        "vpn",
        "tun",
        "tap",
        "utun",
        "wireguard",
        "tailscale",
        "zerotier",
        "virtual",
        "vmware",
        "hyper-v",
        "loopback",
    ];
    assert(markers@.map_values(|s: &str| s@) =~= virtual_markers());
    let mut i: usize = 0;
    while i < 11
        invariant
            i <= 11,
            markers@.map_values(|s: &str| s@) == virtual_markers(),
            lower@ == lower_seq(name@ + seq![' '] + description@),
            forall|k: int| 0 <= k < i ==> !contains_seq(lower@, #[trigger] virtual_markers()[k]),
        decreases 11 - i,
    {
        let m = chars_of(markers[i]);
        assert(m@ == virtual_markers()[i as int]);
        if contains_chars(&lower, &m) {
            return true;
        }
        i = i + 1;
    }
    false
}

/// Whether a line starts with `p`.
pub open spec fn starts_with(l: Seq<char>, p: Seq<char>) -> bool {
    p.len() <= l.len() && l.take(p.len() as int) == p
}

/// The lines after the leading ones that explain the asterisk.
pub open spec fn skip_header(ls: Seq<Seq<char>>) -> Seq<Seq<char>>
    decreases ls.len(),
{
    if ls.len() > 0 && starts_with(ls[0], "An asterisk"@) {
        skip_header(ls.drop_first())
    } else {
        ls
    }
}

/// A service name as listed: the asterisks that mark a disabled service and the
/// surrounding white space removed.
pub open spec fn service_name(l: Seq<char>) -> Seq<char> {
    trim(trim_start_char(l, '*'))
}

/// The non-empty service names of the lines.
pub open spec fn service_names(ls: Seq<Seq<char>>) -> Seq<Seq<char>>
    decreases ls.len(),
{
    if ls.len() == 0 {
        Seq::empty()
    } else {
        let n = service_name(ls.last());
        if n.len() == 0 {
            service_names(ls.drop_last())
        } else {
            service_names(ls.drop_last()).push(n)
        }
    }
}

/// The network services that `networksetup -listallnetworkservices` printed.
pub fn parse_network_services(raw: &str) -> (r: Vec<String>)
    ensures
        texts_of(r@) == service_names(skip_header(lines_spec(raw@))),
{
    let lines = lines_of(raw);
    let ghost ls = lines@.map_values(|x: Vec<char>| x@);
    let header = chars_of("An asterisk");
    let mut start: usize = 0;
    assert(ls.skip(0) =~= ls);
    while start < lines.len() && starts_with_chars(&lines[start], &header)
        invariant
            start <= lines@.len(),
            ls == lines@.map_values(|x: Vec<char>| x@),
            header@ == "An asterisk"@,
            skip_header(ls) == skip_header(ls.skip(start as int)),
        decreases lines@.len() - start,
    {
        assert(ls.skip(start as int).drop_first() =~= ls.skip(start + 1));
        start = start + 1;
    }
    let ghost rest = ls.skip(start as int);
    assert(skip_header(rest) == rest);
    let mut r: Vec<String> = Vec::new();
    let mut i = start;
    while i < lines.len()
        invariant
            start <= i <= lines@.len(),
            ls == lines@.map_values(|x: Vec<char>| x@),
            rest == ls.skip(start as int),
            texts_of(r@) == service_names(rest.take(i - start)),
        decreases lines@.len() - i,
    {
        let stripped = trim_start_char_chars(&lines[i], '*');
        let name = trim_chars(&stripped);
        assert(rest.take(i - start + 1).drop_last() =~= rest.take(i - start));
        assert(rest.take(i - start + 1).last() == ls[i as int]);
        if name.len() > 0 {
            let ghost before = texts_of(r@);
            r.push(string_from_chars(name.as_slice()));
            assert(texts_of(r@) =~= before.push(name@));
        }
        i = i + 1;
    }
    assert(rest.take(lines@.len() - start) =~= rest);
    r
}

/// The text `networksetup -getdnsservers` prints when no server is set.
pub open spec fn no_servers_text() -> Seq<char> {
    "There aren't any DNS Servers"@
}

/// The DNS servers that `networksetup -getdnsservers` printed.
pub fn parse_dns_servers(raw: &str) -> (r: Vec<String>)
    ensures
        texts_of(r@) == if contains_seq(raw@, no_servers_text()) {
            Seq::empty()
        } else {
            trimmed_nonempty(lines_spec(raw@))
        },
{
    let rv = chars_of(raw);
    let none = chars_of("There aren't any DNS Servers");
    if contains_chars(&rv, &none) {
        let r: Vec<String> = Vec::new();
        assert(texts_of(r@) =~= Seq::<Seq<char>>::empty());
        return r;
    }
    let lines = lines_of(raw);
    let ghost ls = lines@.map_values(|x: Vec<char>| x@);
    let mut r: Vec<String> = Vec::new();
    let mut i: usize = 0;
    while i < lines.len()
        invariant
            i <= lines@.len(),
            ls == lines@.map_values(|x: Vec<char>| x@),
            texts_of(r@) == trimmed_nonempty(ls.take(i as int)),
        decreases lines@.len() - i,
    {
        let t = trim_chars(&lines[i]);
        assert(ls.take(i + 1).drop_last() =~= ls.take(i as int));
        assert(ls.take(i + 1).last() == ls[i as int]);
        if t.len() > 0 {
            let ghost before = texts_of(r@);
            r.push(string_from_chars(t.as_slice()));
            assert(texts_of(r@) =~= before.push(t@));
        }
        i = i + 1;
    }
    assert(ls.take(lines@.len() as int) =~= ls);
    r
}


/// What the store remembers of an adapter whose DNS servers were taken over.
#[derive(Clone, Debug)]
pub struct SystemDnsAdapterState {
    pub managed: bool,
    pub original_dns: Vec<String>,
    pub last_applied_at: Option<String>,
    pub last_restored_at: Option<String>,
    pub last_error: Option<String>,
}

/// Settings as they are stored: the selected adapters sorted with repeats dropped,
/// the target servers trimmed with blank ones dropped.
pub fn normalize_system_dns_settings(settings: SystemDnsSettings) -> (r: SystemDnsSettings)
    ensures
        r.enabled == settings.enabled,
        strictly_sorted(texts_of(r.selected_adapter_ids@)),
        texts_of(r.selected_adapter_ids@).to_set() == texts_of(settings.selected_adapter_ids@).to_set(),
        texts_of(r.target_servers@) == trimmed_nonempty(texts_of(settings.target_servers@)),
{
    let servers = trimmed_nonempty_strings(&settings.target_servers);
    let ids = sort_dedup(settings.selected_adapter_ids);
    SystemDnsSettings { enabled: settings.enabled, target_servers: servers, selected_adapter_ids: ids }
}


/// An adapter as the status shows it: marked selected when the settings select it,
/// and carrying what the store remembers of it.
pub open spec fn merged_adapter(a: SystemDnsAdapter, st: SystemDnsAdapterState, selected: Seq<Seq<char>>) -> SystemDnsAdapter {
    SystemDnsAdapter {
        selected: selected.contains(a.id@),
        managed: st.managed,
        original_dns: if st.original_dns@.len() > 0 {
            Some(st.original_dns)
        } else {
            None
        },
        last_applied_at: st.last_applied_at,
        last_restored_at: st.last_restored_at,
        last_error: st.last_error,
        ..a
    }
}

/// How many adapters are up.
pub open spec fn active_count(adapters: Seq<SystemDnsAdapter>) -> nat
    decreases adapters.len(),
{
    if adapters.len() == 0 {
        0
    } else {
        active_count(adapters.drop_last()) + if adapters.last().status@ == "up"@ {
            1nat
        } else {
            0nat
        }
    }
}

/// Whether some adapter looks virtual.
pub open spec fn any_virtual(adapters: Seq<SystemDnsAdapter>) -> bool {
    exists|i: int| 0 <= i < adapters.len() && #[trigger] adapters[i].virtual_adapter
}

/// The warnings of the status, in the order they are shown.
pub open spec fn status_warnings(
    listen: Seq<char>,
    enabled: bool,
    selected: Seq<Seq<char>>,
    adapters: Seq<SystemDnsAdapter>,
) -> Seq<LocalizedMessageView> {
    let targets = listener_targets_spec(listen);
    (if active_count(adapters) > 1 { seq![multiple_active_warning()] } else { Seq::empty() }) + (if any_virtual(
        adapters,
    ) {
        seq![virtual_adapters_warning()]
    } else {
        Seq::empty()
    }) + (if enabled && selected.len() == 0 { seq![no_adapter_warning()] } else { Seq::empty() }) + (
    if !targets.can_apply {
        seq![
            match targets.warning {
                Some(w) => w,
                None => listener_unavailable_warning(listen),
            },
        ]
    } else {
        Seq::empty()
    })
}

/// The target servers the status shows: the listener's own servers when none are
/// saved or when the saved ones are the listener's address as written.
pub open spec fn effective_targets(listen: Seq<char>, servers: Seq<Seq<char>>) -> Seq<Seq<char>> {
    if servers.len() == 0 || targets_match_listener_spec(listen, servers) {
        listener_targets_spec(listen).servers
    } else {
        servers
    }
}

/// The adapters of a list of adapters and their stored states.
pub open spec fn adapters_of(v: Seq<(SystemDnsAdapter, SystemDnsAdapterState)>) -> Seq<SystemDnsAdapter> {
    v.map_values(|p: (SystemDnsAdapter, SystemDnsAdapterState)| p.0)
}

/// The views of a list of messages.
pub open spec fn message_views(v: Seq<LocalizedMessage>) -> Seq<LocalizedMessageView> {
    v.map_values(|m: LocalizedMessage| m@)
}

fn copy_strings(v: &Vec<String>) -> (r: Vec<String>)
    ensures
        texts_of(r@) == texts_of(v@),
{
    let mut r: Vec<String> = Vec::new();
    let mut i: usize = 0;
    while i < v.len()
        invariant
            i <= v@.len(),
            texts_of(r@) == texts_of(v@).take(i as int),
        decreases v@.len() - i,
    {
        let ghost before = texts_of(r@);
        let c = owned(v[i].as_str());
        assert(c@ == texts_of(v@)[i as int]);
        r.push(c);
        assert(texts_of(r@) =~= before.push(c@));
        assert(texts_of(v@).take(i + 1) =~= texts_of(v@).take(i as int).push(c@));
        i = i + 1;
    }
    assert(texts_of(v@).take(v@.len() as int) =~= texts_of(v@));
    r
}

fn contains_text(v: &Vec<String>, s: &str) -> (b: bool)
    ensures
        b == texts_of(v@).contains(s@),
{
    let mut i: usize = 0;
    while i < v.len()
        invariant
            i <= v@.len(),
            forall|k: int| 0 <= k < i ==> v@[k]@ != s@,
        decreases v@.len() - i,
    {
        if str_eq(v[i].as_str(), s) {
            assert(texts_of(v@)[i as int] == s@);
            return true;
        }
        i = i + 1;
    }
    proof {
        if texts_of(v@).contains(s@) {
            let k = choose|k: int| 0 <= k < texts_of(v@).len() && texts_of(v@)[k] == s@;
            assert(v@[k]@ == s@);
        }
    }
    false
}

fn merge_adapters(adapters: Vec<(SystemDnsAdapter, SystemDnsAdapterState)>, ids: &Vec<String>) -> (r: (
    Vec<SystemDnsAdapter>,
    usize,
    bool,
))
    ensures
        r.0@.len() == adapters@.len(),
        forall|i: int|
            0 <= i < adapters@.len() ==> r.0@[i] == merged_adapter(
                #[trigger] adapters@[i].0,
                adapters@[i].1,
                texts_of(ids@),
            ),
        r.1 == active_count(adapters_of(adapters@)),
        r.2 == any_virtual(adapters_of(adapters@)),
{
    let n = adapters.len();
    let ghost input = adapters@;
    let ghost selected = texts_of(ids@);
    let mut rest = adapters;
    let mut merged: Vec<SystemDnsAdapter> = Vec::new();
    let mut active: usize = 0;
    let mut has_virtual = false;
    let mut k: usize = 0;
    while rest.len() > 0
        invariant
            k + rest@.len() == input.len(),
            input.len() == n,
            rest@ == input.skip(k as int),
            merged@.len() == k,
            selected == texts_of(ids@),
            forall|i: int| 0 <= i < k ==> merged@[i] == merged_adapter(#[trigger] input[i].0, input[i].1, selected),
            active == active_count(adapters_of(input).take(k as int)),
            active <= k,
            has_virtual == any_virtual(adapters_of(input).take(k as int)),
        decreases rest@.len(),
    {
        let (a, st) = rest.remove(0);
        assert(input[k as int] == (a, st));
        let ghost prefix = adapters_of(input).take(k as int);
        let ghost next = adapters_of(input).take(k + 1);
        assert(next.drop_last() =~= prefix);
        assert(next.last() == a);
        let is_up = str_eq(a.status.as_str(), "up");
        if is_up {
            active = active + 1;
        }
        proof {
            if any_virtual(next) {
                let i = choose|i: int| 0 <= i < next.len() && #[trigger] next[i].virtual_adapter;
                if i < k {
                    assert(prefix[i] == next[i]);
                }
            }
            if any_virtual(prefix) {
                let i = choose|i: int| 0 <= i < prefix.len() && #[trigger] prefix[i].virtual_adapter;
                assert(next[i] == prefix[i]);
            }
            if a.virtual_adapter {
                assert(next[k as int].virtual_adapter);
            }
        }
        has_virtual = has_virtual || a.virtual_adapter;
        let sel = contains_text(ids, a.id.as_str());
        let original_dns = if st.original_dns.len() > 0 {
            Some(st.original_dns)
        } else {
            None
        };
        let m = SystemDnsAdapter {
            id: a.id,
            name: a.name,
            description: a.description,
            status: a.status,
            kind: a.kind,
            dns_servers: a.dns_servers,
            selected: sel,
            managed: st.managed,
            virtual_adapter: a.virtual_adapter,
            interface_index: a.interface_index,
            original_dns,
            last_applied_at: st.last_applied_at,
            last_restored_at: st.last_restored_at,
            last_error: st.last_error,
        };
        merged.push(m);
        k = k + 1;
        assert(rest@ =~= input.skip(k as int));
    }
    assert(adapters_of(input).take(k as int) =~= adapters_of(input));
    (merged, active, has_virtual)
}

fn status_messages(
    listen: &str,
    warning: Option<LocalizedMessage>,
    can_apply: bool,
    none_selected: bool,
    many_active: bool,
    has_virtual: bool,
) -> (r: Vec<LocalizedMessage>)
    ensures
        message_views(r@) == (if many_active { seq![multiple_active_warning()] } else { Seq::empty() }) + (
        if has_virtual {
            seq![virtual_adapters_warning()]
        } else {
            Seq::empty()
        }) + (if none_selected { seq![no_adapter_warning()] } else { Seq::empty() }) + (if !can_apply {
            seq![
                match warning {
                    Some(w) => w@,
                    None => listener_unavailable_warning(listen@),
                },
            ]
        } else {
            Seq::empty()
        }),
{
    let mut messages: Vec<LocalizedMessage> = Vec::new();
    if many_active {
        messages.push(
            plain_message(
                "systemDns.warning.multipleActiveAdapters",
                "Multiple active network adapters detected. Select only the current egress network to avoid affecting VPNs or virtual adapters.",
            ),
        );
    }
    let ghost w1 = message_views(messages@);
    assert(w1 =~= (if many_active { seq![multiple_active_warning()] } else { Seq::empty() }));
    if has_virtual {
        messages.push(
            plain_message(
                "systemDns.warning.virtualAdapters",
                "The list includes virtual or tunnel adapters. They are not selected automatically.",
            ),
        );
    }
    let ghost w2 = message_views(messages@);
    assert(w2 =~= w1 + (if has_virtual { seq![virtual_adapters_warning()] } else { Seq::empty() }));
    if none_selected {
        messages.push(
            plain_message(
                "systemDns.warning.noAdapterSelected",
                "System DNS takeover is enabled, but no network adapter is selected.",
            ),
        );
    }
    let ghost w3 = message_views(messages@);
    assert(w3 =~= w2 + (if none_selected { seq![no_adapter_warning()] } else { Seq::empty() }));
    if !can_apply {
        let w = match warning {
            Some(w) => w,
            None => listen_message(
                "systemDns.warning.listenerUnavailable",
                "Current listen address cannot be used for system DNS takeover.",
                listen,
            ),
        };
        let ghost wv = w@;
        messages.push(w);
        assert(message_views(messages@) =~= w3.push(wv));
    }
    messages
}

fn fallback_texts(messages: &Vec<LocalizedMessage>) -> (r: Vec<String>)
    ensures
        texts_of(r@) == message_views(messages@).map_values(
            |m: LocalizedMessageView| fallback_spec(m.message, m.values),
        ),
{
    let mut warnings: Vec<String> = Vec::new();
    let mut j: usize = 0;
    while j < messages.len()
        invariant
            j <= messages@.len(),
            texts_of(warnings@) == message_views(messages@).take(j as int).map_values(
                |m: LocalizedMessageView| fallback_spec(m.message, m.values),
            ),
        decreases messages@.len() - j,
    {
        let t = localized_message_fallback(&messages[j]);
        let ghost before = texts_of(warnings@);
        let ghost mv = message_views(messages@)[j as int];
        assert(mv == messages@[j as int]@);
        assert(t@ == fallback_spec(mv.message, mv.values));
        warnings.push(t);
        assert(texts_of(warnings@) =~= before.push(fallback_spec(mv.message, mv.values)));
        assert(texts_of(warnings@) =~= message_views(messages@).take(j + 1).map_values(
            |m: LocalizedMessageView| fallback_spec(m.message, m.values),
        ));
        j = j + 1;
    }
    assert(message_views(messages@).take(messages@.len() as int) =~= message_views(messages@));
    warnings
}

/// The status of the system DNS takeover: the settings (with the listener's own
/// servers as targets where none are saved or the saved ones follow the listener),
/// each adapter with its stored state, and the warnings about the adapters and the
/// listener. `adapters` pairs each adapter with what the store remembers of it;
/// `platform` and `supported` describe the running system.
pub fn system_dns_status(
    listen: &str,
    settings: SystemDnsSettings,
    adapters: Vec<(SystemDnsAdapter, SystemDnsAdapterState)>,
    last_error: Option<String>,
    platform: String,
    supported: bool,
) -> (r: SystemDnsStatus)
    ensures
        r.platform == platform,
        r.supported == supported,
        r.can_apply == (supported && listener_targets_spec(listen@).can_apply),
        texts_of(r.local_servers@) == listener_targets_spec(listen@).servers,
        r.settings.enabled == settings.enabled,
        r.settings.selected_adapter_ids == settings.selected_adapter_ids,
        texts_of(r.settings.target_servers@) == effective_targets(listen@, texts_of(settings.target_servers@)),
        r.adapters@.len() == adapters@.len(),
        forall|i: int|
            0 <= i < adapters@.len() ==> r.adapters@[i] == merged_adapter(
                #[trigger] adapters@[i].0,
                adapters@[i].1,
                texts_of(settings.selected_adapter_ids@),
            ),
        message_views(r.warning_messages@) == status_warnings(
            listen@,
            settings.enabled,
            texts_of(settings.selected_adapter_ids@),
            adapters_of(adapters@),
        ),
        texts_of(r.warnings@) == status_warnings(
            listen@,
            settings.enabled,
            texts_of(settings.selected_adapter_ids@),
            adapters_of(adapters@),
        ).map_values(|m: LocalizedMessageView| fallback_spec(m.message, m.values)),
        r.last_error == last_error,
{
    let targets = listener_dns_targets(listen);
    let local_servers = copy_strings(&targets.servers);
    let mut settings = settings;
    if settings.target_servers.len() == 0 || target_servers_match_listener(listen, &settings.target_servers) {
        settings.target_servers = copy_strings(&targets.servers);
    }
    let (merged, active, has_virtual) = merge_adapters(adapters, &settings.selected_adapter_ids);
    let messages = status_messages(
        listen,
        targets.warning,
        targets.can_apply,
        settings.enabled && settings.selected_adapter_ids.len() == 0,
        active > 1,
        has_virtual,
    );
    let can_apply = targets.can_apply;
    let warnings = fallback_texts(&messages);
    SystemDnsStatus {
        platform,
        supported,
        can_apply: supported && can_apply,
        settings,
        local_servers,
        adapters: merged,
        warnings,
        warning_messages: messages,
        last_error,
    }
}


/// Why the takeover cannot be applied with these settings, checked in this order:
/// it is disabled, no adapter is selected, or no target server is set.
pub open spec fn apply_check_spec(enabled: bool, selected: nat, targets: nat) -> Result<(), Seq<char>> {
    if !enabled {
        Err("system DNS takeover is disabled"@)
    } else if selected == 0 {
        Err("no network adapter is selected"@)
    } else if targets == 0 {
        Err("target DNS server is empty"@)
    } else {
        Ok(())
    }
}

/// Whether the takeover can be applied with these settings, and why not.
pub fn check_apply_settings(settings: &SystemDnsSettings) -> (r: Result<(), String>)
    ensures
        match (r, apply_check_spec(
            settings.enabled,
            settings.selected_adapter_ids@.len(),
            settings.target_servers@.len(),
        )) {
            (Ok(()), Ok(())) => true,
            (Err(e), Err(t)) => e@ == t,
            _ => false,
        },
{
    if !settings.enabled {
        return Err(owned("system DNS takeover is disabled"));
    }
    if settings.selected_adapter_ids.len() == 0 {
        return Err(owned("no network adapter is selected"));
    }
    if settings.target_servers.len() == 0 {
        return Err(owned("target DNS server is empty"));
    }
    Ok(())
}

/// The position of the adapter with the given id, the first one if several.
pub fn find_adapter(adapters: &Vec<SystemDnsAdapter>, id: &str) -> (r: Option<usize>)
    ensures
        match r {
            Some(i) => i < adapters@.len() && adapters@[i as int].id@ == id@ && forall|k: int|
                0 <= k < i ==> adapters@[k].id@ != id@,
            None => forall|k: int| 0 <= k < adapters@.len() ==> adapters@[k].id@ != id@,
        },
{
    let mut i: usize = 0;
    while i < adapters.len()
        invariant
            i <= adapters@.len(),
            forall|k: int| 0 <= k < i ==> adapters@[k].id@ != id@,
        decreases adapters@.len() - i,
    {
        if str_eq(adapters[i].id.as_str(), id) {
            return Some(i);
        }
        i = i + 1;
    }
    None
}

/// An adapter after its DNS servers were set to `targets`: the servers it had are
/// kept as its original ones unless it already had original ones, it is managed, and
/// its last error is cleared.
pub open spec fn applied_spec(adapter: SystemDnsAdapter, targets: Vec<String>) -> SystemDnsAdapter {
    SystemDnsAdapter {
        original_dns: Some(
            match adapter.original_dns {
                Some(o) => o,
                None => adapter.dns_servers,
            },
        ),
        dns_servers: targets,
        managed: true,
        last_error: None,
        ..adapter
    }
}

/// Takes an adapter's DNS servers over, as `applied_spec` says.
pub fn applied_adapter(adapter: SystemDnsAdapter, targets: Vec<String>) -> (r: SystemDnsAdapter)
    ensures
        r == applied_spec(adapter, targets),
{
    let original_dns = match adapter.original_dns {
        Some(o) => o,
        None => adapter.dns_servers,
    };
    SystemDnsAdapter {
        id: adapter.id,
        name: adapter.name,
        description: adapter.description,
        status: adapter.status,
        kind: adapter.kind,
        dns_servers: targets,
        selected: adapter.selected,
        managed: true,
        virtual_adapter: adapter.virtual_adapter,
        interface_index: adapter.interface_index,
        original_dns: Some(original_dns),
        last_applied_at: adapter.last_applied_at,
        last_restored_at: adapter.last_restored_at,
        last_error: None,
    }
}

/// An adapter after its original DNS servers were given back: it has them again, no
/// original ones are remembered, it is not managed, and its last error is cleared.
pub open spec fn restored_spec(adapter: SystemDnsAdapter, original_dns: Vec<String>) -> SystemDnsAdapter {
    SystemDnsAdapter { dns_servers: original_dns, original_dns: None, managed: false, last_error: None, ..adapter }
}

/// Gives an adapter its original DNS servers back, as `restored_spec` says.
pub fn restored_adapter(adapter: SystemDnsAdapter, original_dns: Vec<String>) -> (r: SystemDnsAdapter)
    ensures
        r == restored_spec(adapter, original_dns),
{
    SystemDnsAdapter {
        id: adapter.id,
        name: adapter.name,
        description: adapter.description,
        status: adapter.status,
        kind: adapter.kind,
        dns_servers: original_dns,
        selected: adapter.selected,
        managed: false,
        virtual_adapter: adapter.virtual_adapter,
        interface_index: adapter.interface_index,
        original_dns: None,
        last_applied_at: adapter.last_applied_at,
        last_restored_at: adapter.last_restored_at,
        last_error: None,
    }
}

/// Giving back undoes taking over: an adapter whose DNS servers were taken over and then
/// given the servers it remembered has again the servers it had before the first
/// takeover (those it remembered, if it already remembered some), is not managed,
/// remembers nothing, has no error, and is otherwise unchanged.
pub proof fn law_restore_undoes_apply(adapter: SystemDnsAdapter, targets: Vec<String>)
    ensures
        ({
            let applied = applied_spec(adapter, targets);
            let back = restored_spec(applied, applied.original_dns->Some_0);
            &&& back.dns_servers == match adapter.original_dns {
                Some(o) => o,
                None => adapter.dns_servers,
            }
            &&& !back.managed
            &&& back.original_dns is None
            &&& back.last_error is None
            &&& back == (SystemDnsAdapter {
                dns_servers: back.dns_servers,
                managed: false,
                original_dns: None,
                last_error: None,
                ..adapter
            })
        }),
{
}

/// Taking over twice remembers the servers from before the first takeover.
pub proof fn law_second_apply_keeps_first_original(adapter: SystemDnsAdapter, first: Vec<String>, second: Vec<String>)
    ensures
        applied_spec(applied_spec(adapter, first), second).original_dns == applied_spec(adapter, first).original_dns,
        applied_spec(applied_spec(adapter, first), second).dns_servers == second,
{
}

/// The record of an adapter after its servers were taken over at `now`: managed, with
/// the servers it had (unless it was already managed, when the servers remembered from
/// the first takeover stay), the takeover time, the last give-back time it had, and no
/// error.
pub open spec fn state_after_applied_spec(
    prev: Option<SystemDnsAdapterState>,
    original_dns: Vec<String>,
    now: String,
) -> SystemDnsAdapterState {
    match prev {
        None => SystemDnsAdapterState {
            managed: true,
            original_dns,
            last_applied_at: Some(now),
            last_restored_at: None,
            last_error: None,
        },
        Some(p) => SystemDnsAdapterState {
            managed: true,
            original_dns: if p.managed { p.original_dns } else { original_dns },
            last_applied_at: Some(now),
            last_error: None,
            ..p
        },
    }
}

/// Records that an adapter's servers were taken over, as `state_after_applied_spec` says.
pub fn state_after_applied(
    prev: Option<SystemDnsAdapterState>,
    original_dns: Vec<String>,
    now: String,
) -> (r: SystemDnsAdapterState)
    ensures
        r == state_after_applied_spec(prev, original_dns, now),
{
    match prev {
        None => SystemDnsAdapterState {
            managed: true,
            original_dns,
            last_applied_at: Some(now),
            last_restored_at: None,
            last_error: None,
        },
        Some(p) => SystemDnsAdapterState {
            managed: true,
            original_dns: if p.managed { p.original_dns } else { original_dns },
            last_applied_at: Some(now),
            last_restored_at: p.last_restored_at,
            last_error: None,
        },
    }
}

/// Records that an adapter's servers were given back at `now`: not managed, nothing
/// remembered, the give-back time, the takeover time it had, and no error.
pub fn state_after_restored(prev: Option<SystemDnsAdapterState>, now: String) -> (r: SystemDnsAdapterState)
    ensures
        !r.managed,
        r.original_dns@.len() == 0,
        r.last_applied_at == match prev {
            Some(p) => p.last_applied_at,
            None => None,
        },
        r.last_restored_at == Some(now),
        r.last_error is None,
{
    let last_applied_at = match prev {
        Some(p) => p.last_applied_at,
        None => None,
    };
    SystemDnsAdapterState {
        managed: false,
        original_dns: Vec::new(),
        last_applied_at,
        last_restored_at: Some(now),
        last_error: None,
    }
}

/// Records a failed takeover or give-back: the error is noted and nothing else changes;
/// an adapter with no record gets one that is not managed and remembers nothing.
pub fn state_after_error(prev: Option<SystemDnsAdapterState>, err: String) -> (r: SystemDnsAdapterState)
    ensures
        r.last_error == Some(err),
        match prev {
            Some(p) => r.managed == p.managed && r.original_dns == p.original_dns && r.last_applied_at
                == p.last_applied_at && r.last_restored_at == p.last_restored_at,
            None => !r.managed && r.original_dns@.len() == 0 && r.last_applied_at is None && r.last_restored_at is None,
        },
{
    match prev {
        Some(p) => SystemDnsAdapterState {
            managed: p.managed,
            original_dns: p.original_dns,
            last_applied_at: p.last_applied_at,
            last_restored_at: p.last_restored_at,
            last_error: Some(err),
        },
        None => SystemDnsAdapterState {
            managed: false,
            original_dns: Vec::new(),
            last_applied_at: None,
            last_restored_at: None,
            last_error: Some(err),
        },
    }
}

/// The record keeps the servers from before the first takeover: taking over an adapter
/// again while it is managed leaves the remembered servers as they were.
pub proof fn law_record_keeps_first_original(
    prev: Option<SystemDnsAdapterState>,
    first: Vec<String>,
    second: Vec<String>,
    t1: String,
    t2: String,
)
    ensures
        state_after_applied_spec(Some(state_after_applied_spec(prev, first, t1)), second, t2).original_dns
            == state_after_applied_spec(prev, first, t1).original_dns,
        state_after_applied_spec(Some(state_after_applied_spec(prev, first, t1)), second, t2).managed,
{
}

/// Whether an adapter with this stored state has anything to give back.
pub fn needs_restore(state: &SystemDnsAdapterState) -> (b: bool)
    ensures
        b == (state.managed || state.original_dns@.len() > 0),
{
    state.managed || state.original_dns.len() > 0
}

/// The adapters to give back: the selected ones and the managed ones, sorted with
/// repeats dropped.
pub fn restore_adapter_ids(selected: Vec<String>, managed: Vec<String>) -> (r: Vec<String>)
    ensures
        strictly_sorted(texts_of(r@)),
        texts_of(r@).to_set() == texts_of(selected@).to_set().union(texts_of(managed@).to_set()),
{
    let mut all = selected;
    let ghost first = texts_of(all@);
    let mut more = managed;
    let ghost second = texts_of(more@);
    all.append(&mut more);
    assert(texts_of(all@) =~= first + second);
    let r = sort_dedup(all);
    assert((first + second).to_set() =~= first.to_set().union(second.to_set())) by {
        assert forall|t: Seq<char>| (first + second).to_set().contains(t) implies first.to_set().union(
            second.to_set(),
        ).contains(t) by {
            let i = choose|i: int| 0 <= i < (first + second).len() && (first + second)[i] == t;
            if i < first.len() {
                assert(first[i] == t);
            } else {
                assert(second[i - first.len()] == t);
            }
        }
        assert forall|t: Seq<char>| first.to_set().union(second.to_set()).contains(t) implies (first
            + second).to_set().contains(t) by {
            if first.to_set().contains(t) {
                let i = choose|i: int| 0 <= i < first.len() && first[i] == t;
                assert((first + second)[i] == t);
            } else {
                let i = choose|i: int| 0 <= i < second.len() && second[i] == t;
                assert((first + second)[first.len() + i] == t);
            }
        }
    }
    r
}

} // verus!
