//! The hosts table: lines `domain=ip,ip,...` that answer A and AAAA queries locally.
use crate::ip_text::{ip_text, ip_to_string};
use crate::net::{parse_ip, parse_ip_spec, IpAddress};
use crate::text::{chars_of, split_all, split_chars, string_from_chars, trim, trim_chars};
use crate::wire::{normalize_domain, normalize_domain_spec};
use crate::text::{decimal, decimal_string};
use crate::text::{debug_quoted, debug_text};
use vstd::prelude::*;

verus! {

/// The addresses of one domain, in the order given.
#[derive(Clone, Debug)]
pub struct HostEntry {
    pub domain: String,
    pub ips: Vec<IpAddress>,
}

/// A host entry as values.
pub struct HostView {
    pub domain: Seq<char>,
    pub ips: Seq<IpAddress>,
}

impl View for HostEntry {
    type V = HostView;

    open spec fn view(&self) -> HostView {
        HostView { domain: self.domain@, ips: self.ips@ }
    }
}

/// The compiled hosts table.
#[derive(Clone, Debug)]
pub struct Hosts {
    entries: Vec<HostEntry>,
}

/// The first entry for a domain, if any.
pub open spec fn lookup_host(t: Seq<HostView>, d: Seq<char>) -> Option<HostView>
    decreases t.len(),
{
    if t.len() == 0 {
        None
    } else if t[0].domain == d {
        Some(t[0])
    } else {
        lookup_host(t.drop_first(), d)
    }
}

/// The entries as values.
pub open spec fn host_views(v: Seq<HostEntry>) -> Seq<HostView> {
    v.map_values(|e: HostEntry| e@)
}

impl View for Hosts {
    type V = Seq<HostView>;

    closed spec fn view(&self) -> Seq<HostView> {
        host_views(self.entries@)
    }
}

/// Why a hosts line was refused; the index is the line's position.
#[derive(Clone, Debug)]
pub enum HostsError {
    Empty(usize),
    EqualsCount(usize),
    InvalidDomain(usize, String),
    EmptyDomain(usize),
    DuplicateDomain(usize, String),
    InvalidIp(usize, String),
    DuplicateIp(usize, String),
    NoIp(usize),
}

/// A refused hosts line, as values.
pub enum HostsErrorView {
    Empty(usize),
    EqualsCount(usize),
    InvalidDomain(usize, Seq<char>),
    EmptyDomain(usize),
    DuplicateDomain(usize, Seq<char>),
    InvalidIp(usize, Seq<char>),
    DuplicateIp(usize, Seq<char>),
    NoIp(usize),
}

impl View for HostsError {
    type V = HostsErrorView;

    open spec fn view(&self) -> HostsErrorView {
        match self {
            HostsError::Empty(i) => HostsErrorView::Empty(*i),
            HostsError::EqualsCount(i) => HostsErrorView::EqualsCount(*i),
            HostsError::InvalidDomain(i, s) => HostsErrorView::InvalidDomain(*i, s@),
            HostsError::EmptyDomain(i) => HostsErrorView::EmptyDomain(*i),
            HostsError::DuplicateDomain(i, s) => HostsErrorView::DuplicateDomain(*i, s@),
            HostsError::InvalidIp(i, s) => HostsErrorView::InvalidIp(*i, s@),
            HostsError::DuplicateIp(i, s) => HostsErrorView::DuplicateIp(*i, s@),
            HostsError::NoIp(i) => HostsErrorView::NoIp(*i),
        }
    }
}

/// The domain of line `i` and the text of its addresses.
pub open spec fn host_head_spec(i: usize, raw: Seq<char>) -> Result<(Seq<char>, Seq<char>), HostsErrorView> {
    let raw = trim(raw);
    let parts = split_all(raw, '=');
    if raw.len() == 0 {
        Err(HostsErrorView::Empty(i))
    } else if parts.len() != 2 {
        Err(HostsErrorView::EqualsCount(i))
    } else {
        match normalize_domain_spec(parts[0]) {
            Err(_) => Err(HostsErrorView::InvalidDomain(i, trim(parts[0]))),
            Ok(d) => if d.len() == 0 {
                Err(HostsErrorView::EmptyDomain(i))
            } else {
                Ok((d, parts[1]))
            },
        }
    }
}

/// The addresses `pieces` read after the addresses `seen` of line `i`: each trimmed piece
/// an IP address, none twice.
pub open spec fn ips_from(i: usize, pieces: Seq<Seq<char>>, seen: Seq<IpAddress>) -> Result<Seq<IpAddress>, HostsErrorView>
    decreases pieces.len(),
{
    if pieces.len() == 0 {
        Ok(seen)
    } else {
        let t = trim(pieces[0]);
        match parse_ip_spec(t) {
            None => Err(HostsErrorView::InvalidIp(i, t)),
            Some(ip) => if seen.contains(ip) {
                Err(HostsErrorView::DuplicateIp(i, ip_text(ip)))
            } else {
                ips_from(i, pieces.drop_first(), seen.push(ip))
            },
        }
    }
}

/// Whether the table already has the domain.
pub open spec fn hosts_have(t: Seq<HostView>, d: Seq<char>) -> bool {
    exists|k: int| 0 <= k < t.len() && #[trigger] t[k].domain == d
}

/// Adding line `i` to the table compiled from the lines before it.
pub open spec fn host_step(t: Seq<HostView>, i: usize, raw: Seq<char>) -> Result<Seq<HostView>, HostsErrorView> {
    match host_head_spec(i, raw) {
        Err(e) => Err(e),
        Ok((d, rest)) => if hosts_have(t, d) {
            Err(HostsErrorView::DuplicateDomain(i, d))
        } else {
            match ips_from(i, split_all(rest, ','), Seq::empty()) {
                Err(e) => Err(e),
                Ok(ips) => if ips.len() == 0 {
                    Err(HostsErrorView::NoIp(i))
                } else {
                    Ok(t.push(HostView { domain: d, ips }))
                },
            }
        },
    }
}

/// Compiling the lines one after the other.
pub open spec fn compile_hosts_spec(lines: Seq<Seq<char>>) -> Result<Seq<HostView>, HostsErrorView>
    decreases lines.len(),
{
    if lines.len() == 0 {
        Ok(Seq::empty())
    } else {
        match compile_hosts_spec(lines.drop_last()) {
            Err(e) => Err(e),
            Ok(t) => host_step(t, (lines.len() - 1) as usize, lines.last()),
        }
    }
}

/// The texts of a list of strings.
pub open spec fn texts(v: Seq<String>) -> Seq<Seq<char>> {
    v.map_values(|s: String| s@)
}

fn ip_seen(seen: &Vec<IpAddress>, ip: IpAddress) -> (b: bool)
    ensures
        b == seen@.contains(ip),
{
    let mut i: usize = 0;
    while i < seen.len()
        invariant
            i <= seen@.len(),
            forall|j: int| 0 <= j < i ==> seen@[j] != ip,
        decreases seen@.len() - i,
    {
        if seen[i] == ip {
            return true;
        }
        i = i + 1;
    }
    false
}

fn read_ips(i: usize, rest: &Vec<char>) -> (r: Result<Vec<IpAddress>, HostsError>)
    ensures
        match r {
            Ok(v) => ips_from(i, split_all(rest@, ','), Seq::empty()) == Ok::<Seq<IpAddress>, HostsErrorView>(v@),
            Err(e) => ips_from(i, split_all(rest@, ','), Seq::empty()) == Err::<Seq<IpAddress>, HostsErrorView>(e@),
        },
{
    let pieces = split_chars(rest, ',');
    let ghost pv = pieces@.map_values(|x: Vec<char>| x@);
    let mut seen: Vec<IpAddress> = Vec::new();
    let mut k: usize = 0;
    assert(pv.skip(0) =~= pv);
    while k < pieces.len()
        invariant
            pv == pieces@.map_values(|x: Vec<char>| x@),
            pv == split_all(rest@, ','),
            k <= pieces@.len(),
            ips_from(i, split_all(rest@, ','), Seq::empty()) == ips_from(i, pv.skip(k as int), seen@),
        decreases pieces@.len() - k,
    {
        let ghost tail = pv.skip(k as int);
        assert(tail[0] == pieces@[k as int]@);
        assert(tail.drop_first() =~= pv.skip(k + 1));
        let t = trim_chars(&pieces[k]);
        let text = string_from_chars(t.as_slice());
        let ip = match parse_ip(text.as_str()) {
            Some(ip) => ip,
            None => {
                return Err(HostsError::InvalidIp(i, text));
            },
        };
        if ip_seen(&seen, ip) {
            return Err(HostsError::DuplicateIp(i, ip_to_string(ip)));
        }
        seen.push(ip);
        k = k + 1;
    }
    assert(pv.skip(k as int) =~= Seq::<Seq<char>>::empty());
    Ok(seen)
}

fn read_head(i: usize, raw: &str) -> (r: Result<(String, Vec<char>), HostsError>)
    ensures
        match r {
            Ok((d, rest)) => host_head_spec(i, raw@) == Ok::<(Seq<char>, Seq<char>), HostsErrorView>((d@, rest@)),
            Err(e) => host_head_spec(i, raw@) == Err::<(Seq<char>, Seq<char>), HostsErrorView>(e@),
        },
{
    let raw = trim_chars(&chars_of(raw));
    if raw.len() == 0 {
        return Err(HostsError::Empty(i));
    }
    let parts = split_chars(&raw, '=');
    assert(parts@.len() == split_all(raw@, '=').len());
    if parts.len() != 2 {
        return Err(HostsError::EqualsCount(i));
    }
    assert(parts@[0]@ == split_all(raw@, '=')[0]);
    assert(parts@[1]@ == split_all(raw@, '=')[1]);
    let dtext = string_from_chars(parts[0].as_slice());
    let d = match normalize_domain(dtext.as_str()) {
        Ok(d) => d,
        Err(_) => {
            let t = trim_chars(&parts[0]);
            return Err(HostsError::InvalidDomain(i, string_from_chars(t.as_slice())));
        },
    };
    if d.as_str().is_empty() {
        return Err(HostsError::EmptyDomain(i));
    }
    let rest = crate::text::slice_chars(&parts[1], 0, parts[1].len());
    assert(rest@ =~= parts@[1]@);
    Ok((d, rest))
}

impl Hosts {
    /// The entry of a normalized domain: the first one with that domain.
    pub fn get(&self, domain: &str) -> (r: Option<&HostEntry>)
        ensures
            match r {
                Some(e) => lookup_host(self@, domain@) == Some(e@),
                None => lookup_host(self@, domain@) is None && !hosts_have(self@, domain@),
            },
    {
        let mut k: usize = 0;
        assert(self@.skip(0) =~= self@);
        while k < self.entries.len()
            invariant
                k <= self.entries@.len(),
                self@ == host_views(self.entries@),
                forall|j: int| 0 <= j < k ==> self.entries@[j].domain@ != domain@,
                lookup_host(self@, domain@) == lookup_host(self@.skip(k as int), domain@),
            decreases self.entries@.len() - k,
        {
            assert(self@.skip(k as int)[0] == self.entries@[k as int]@);
            if crate::text::str_eq(self.entries[k].domain.as_str(), domain) {
                return Some(&self.entries[k]);
            }
            assert(self@.skip(k as int).drop_first() =~= self@.skip(k + 1));
            k = k + 1;
        }
        assert forall|j: int| 0 <= j < self@.len() implies #[trigger] self@[j].domain != domain@ by {
            assert(self.entries@[j].domain@ != domain@);
        }
        None
    }

    /// The number of entries.
    pub fn len(&self) -> (n: usize)
        ensures
            n == self@.len(),
    {
        self.entries.len()
    }
}

fn has_domain(entries: &Vec<HostEntry>, d: &str) -> (b: bool)
    ensures
        b == hosts_have(host_views(entries@), d@),
{
    let ghost hv = host_views(entries@);
    let mut k: usize = 0;
    while k < entries.len()
        invariant
            hv == host_views(entries@),
            k <= entries@.len(),
            forall|j: int| 0 <= j < k ==> hv[j].domain != d@,
        decreases entries@.len() - k,
    {
        if crate::text::str_eq(entries[k].domain.as_str(), d) {
            assert(hv[k as int].domain == d@);
            return true;
        }
        k = k + 1;
    }
    false
}

/// Compiles hosts lines.
pub fn compile_hosts(raw_entries: &[String]) -> (r: Result<Hosts, HostsError>)
    ensures
        match r {
            Ok(h) => compile_hosts_spec(texts(raw_entries@)) == Ok::<Seq<HostView>, HostsErrorView>(h@),
            Err(e) => compile_hosts_spec(texts(raw_entries@)) == Err::<Seq<HostView>, HostsErrorView>(e@),
        },
{
    let ghost lines = texts(raw_entries@);
    let mut entries: Vec<HostEntry> = Vec::new();
    let mut i: usize = 0;
    assert(lines.take(0) =~= Seq::<Seq<char>>::empty());
    assert(host_views(entries@) =~= Seq::<HostView>::empty());
    while i < raw_entries.len()
        invariant
            lines == texts(raw_entries@),
            lines.len() == raw_entries@.len(),
            i <= raw_entries@.len(),
            compile_hosts_spec(lines.take(i as int)) == Ok::<Seq<HostView>, HostsErrorView>(host_views(entries@)),
        decreases raw_entries@.len() - i,
    {
        assert(lines.take(i + 1).drop_last() =~= lines.take(i as int));
        assert(lines.take(i + 1).last() == raw_entries@[i as int]@);
        let ghost before = host_views(entries@);
        let (d, rest) = match read_head(i, raw_entries[i].as_str()) {
            Ok(h) => h,
            Err(e) => {
                proof {
                    lemma_hosts_prefix_err(lines, i as int + 1);
                }
                return Err(e);
            },
        };
        if has_domain(&entries, d.as_str()) {
            proof {
                lemma_hosts_prefix_err(lines, i as int + 1);
            }
            return Err(HostsError::DuplicateDomain(i, d));
        }
        let ips = match read_ips(i, &rest) {
            Ok(v) => v,
            Err(e) => {
                proof {
                    lemma_hosts_prefix_err(lines, i as int + 1);
                }
                return Err(e);
            },
        };
        if ips.len() == 0 {
            proof {
                lemma_hosts_prefix_err(lines, i as int + 1);
            }
            return Err(HostsError::NoIp(i));
        }
        let e = HostEntry { domain: d, ips };
        let ghost ev = e@;
        entries.push(e);
        assert(host_views(entries@) =~= before.push(ev));
        i = i + 1;
    }
    assert(lines.take(raw_entries@.len() as int) =~= lines);
    Ok(Hosts { entries })
}

proof fn lemma_hosts_prefix_err(lines: Seq<Seq<char>>, k: int)
    requires
        0 <= k <= lines.len(),
        compile_hosts_spec(lines.take(k)) is Err,
    ensures
        compile_hosts_spec(lines) == compile_hosts_spec(lines.take(k)),
    decreases lines.len() - k,
{
    if k < lines.len() {
        assert(lines.take(k + 1).drop_last() =~= lines.take(k));
        lemma_hosts_prefix_err(lines, k + 1);
    } else {
        assert(lines.take(k) =~= lines);
    }
}

/// The text of a refused hosts line.
pub open spec fn hosts_error_text(e: HostsErrorView) -> Seq<char> {
    match e {
        HostsErrorView::Empty(i) => "hosts["@ + decimal(i as nat) + "] must not be empty"@,
        HostsErrorView::EqualsCount(i) => "hosts["@ + decimal(i as nat) + "] must contain exactly one '='"@,
        HostsErrorView::InvalidDomain(i, s) => "hosts["@ + decimal(i as nat) + "] contains invalid domain "@ + debug_quoted(s),
        HostsErrorView::EmptyDomain(i) => "hosts["@ + decimal(i as nat) + "] domain must not be empty"@,
        HostsErrorView::DuplicateDomain(i, s) => "hosts["@ + decimal(i as nat) + "] duplicates domain "@ + debug_quoted(s),
        HostsErrorView::InvalidIp(i, s) => "hosts["@ + decimal(i as nat) + "] contains invalid ip "@ + debug_quoted(s),
        HostsErrorView::DuplicateIp(i, s) => "hosts["@ + decimal(i as nat) + "] contains duplicate ip "@ + s,
        HostsErrorView::NoIp(i) => "hosts["@ + decimal(i as nat) + "] must include at least one ip"@,
    }
}

impl HostsError {
    /// The text of the error.
    pub fn message(&self) -> (m: String)
        ensures
            m@ == hosts_error_text(self@),
    {
        match self {
            HostsError::Empty(i) => {
                let mut out = String::new();
                out.append("hosts[");
                out.append(decimal_string(*i as u64).as_str());
                out.append("] must not be empty");
                out
            },
            HostsError::EqualsCount(i) => {
                let mut out = String::new();
                out.append("hosts[");
                out.append(decimal_string(*i as u64).as_str());
                out.append("] must contain exactly one '='");
                out
            },
            HostsError::InvalidDomain(i, s) => {
                let mut out = String::new();
                out.append("hosts[");
                out.append(decimal_string(*i as u64).as_str());
                out.append("] contains invalid domain ");
                out.append(debug_text(s.as_str()).as_str());
                out
            },
            HostsError::EmptyDomain(i) => {
                let mut out = String::new();
                out.append("hosts[");
                out.append(decimal_string(*i as u64).as_str());
                out.append("] domain must not be empty");
                out
            },
            HostsError::DuplicateDomain(i, s) => {
                let mut out = String::new();
                out.append("hosts[");
                out.append(decimal_string(*i as u64).as_str());
                out.append("] duplicates domain ");
                out.append(debug_text(s.as_str()).as_str());
                out
            },
            HostsError::InvalidIp(i, s) => {
                let mut out = String::new();
                out.append("hosts[");
                out.append(decimal_string(*i as u64).as_str());
                out.append("] contains invalid ip ");
                out.append(debug_text(s.as_str()).as_str());
                out
            },
            HostsError::DuplicateIp(i, s) => {
                let mut out = String::new();
                out.append("hosts[");
                out.append(decimal_string(*i as u64).as_str());
                out.append("] contains duplicate ip ");
                out.append(s.as_str());
                out
            },
            HostsError::NoIp(i) => {
                let mut out = String::new();
                out.append("hosts[");
                out.append(decimal_string(*i as u64).as_str());
                out.append("] must include at least one ip");
                out
            },
        }
    }
}


} // verus!
