//! The rules around generating a local certificate authority and server certificate:
//! the defaults the form starts from, how a request is normalized (trimmed names,
//! sorted and deduplicated lists, a file prefix made of safe characters, a validity
//! clamped to what clients accept) and how the certificate files are named.
use crate::config::app_dir_name_spec;
use crate::desktop::texts_of;
use crate::environment::{app_dir_name, AppEnvironment};
use crate::net::{parse_ip, parse_ip_spec, IpAddress};
use crate::order::{sort_dedup, strictly_sorted};
use crate::text::{
    append_str, chars_of, string_from_chars, trim, trim_end_char, trim_end_char_chars, trim_start_char,
    trim_start_char_chars, trim_str, trimmed_nonempty, trimmed_nonempty_strings,
};
use vstd::prelude::*;

verus! {

/// The common name a certificate gets when none is given.
pub const DEFAULT_COMMON_NAME: &'static str = "autodns.local";

/// The organization of the default form.
pub const DEFAULT_ORGANIZATION: &'static str = "autodns";

/// How many days a certificate is valid when nothing else is asked.
pub const DEFAULT_VALID_DAYS: u32 = 3650;

/// The longest validity accepted, in days.
pub const MAX_VALID_DAYS: u32 = 8250;

/// The file prefix when none (or none with a safe character) is given.
pub const DEFAULT_FILE_PREFIX: &'static str = "autodns-local";

/// What the certificate form starts from.
#[derive(Clone, Debug)]
pub struct CertificateDefaults {
    pub common_name: String,
    pub organization: String,
    pub domains: Vec<String>,
    pub ip_addresses: Vec<String>,
    pub valid_days: u32,
    pub output_dir: String,
    pub file_prefix: String,
}

/// A request to generate a certificate authority and a server certificate.
#[derive(Clone, Debug)]
pub struct GenerateCertificateRequest {
    pub common_name: String,
    pub organization: String,
    pub domains: Vec<String>,
    pub ip_addresses: Vec<String>,
    pub valid_days: Option<u32>,
    pub output_dir: String,
    pub file_prefix: String,
}

/// The files a generation wrote.
#[derive(Clone, Debug)]
pub struct GeneratedCertificate {
    pub ca_cert_file: String,
    pub ca_key_file: String,
    pub cert_file: String,
    pub key_file: String,
}

/// The default domains of a server certificate.
pub open spec fn default_domains() -> Seq<Seq<char>> {
    seq!["localhost"@, "autodns.local"@]
}

/// The default IP addresses of a server certificate.
pub open spec fn default_ips() -> Seq<Seq<char>> {
    seq!["127.0.0.1"@, "::1"@]
}

fn owned(s: &str) -> (r: String)
    ensures
        r@ == s@,
{
    s.to_owned()
}

fn owned_list(items: &[&str]) -> (r: Vec<String>)
    ensures
        texts_of(r@) == items@.map_values(|s: &str| s@),
{
    let mut r: Vec<String> = Vec::new();
    let mut i: usize = 0;
    while i < items.len()
        invariant
            i <= items@.len(),
            texts_of(r@) == items@.map_values(|s: &str| s@).take(i as int),
        decreases items@.len() - i,
    {
        let ghost before = texts_of(r@);
        let s = owned(items[i]);
        let ghost sv = s@;
        r.push(s);
        assert(texts_of(r@) =~= before.push(sv));
        assert(items@.map_values(|s: &str| s@).take(i + 1) =~= items@.map_values(|s: &str| s@).take(
            i as int,
        ).push(sv));
        i = i + 1;
    }
    assert(items@.map_values(|s: &str| s@).take(items@.len() as int) =~= items@.map_values(|s: &str| s@));
    r
}

/// Where certificates go by default: the `certs` directory inside the build's directory
/// of the user's configuration directory `config_dir`.
pub fn default_cert_dir(config_dir: &str, env: AppEnvironment) -> (p: String)
    ensures
        p@ == config_dir@ + "/"@ + app_dir_name_spec(env) + "/certs"@,
{
    let mut p = String::from_str(config_dir);
    p.append("/");
    p.append(app_dir_name(env));
    p.append("/certs");
    p
}

/// The text of a missing user configuration directory.
pub open spec fn no_config_dir_text() -> Seq<char> {
    "user config dir is not available"@
}

/// The form's starting values, with the default certificate directory of the user's
/// configuration directory `config_dir`; refused when there is no such directory.
pub fn certificate_defaults(config_dir: Option<String>, env: AppEnvironment) -> (r: Result<CertificateDefaults, String>)
    ensures
        match r {
            Ok(d) => {
                &&& config_dir matches Some(c) && d.output_dir@ == c@ + "/"@ + app_dir_name_spec(env) + "/certs"@
                &&& d.common_name@ == DEFAULT_COMMON_NAME@
                &&& d.organization@ == DEFAULT_ORGANIZATION@
                &&& texts_of(d.domains@) == default_domains()
                &&& texts_of(d.ip_addresses@) == default_ips()
                &&& d.valid_days == DEFAULT_VALID_DAYS
                &&& d.file_prefix@ == DEFAULT_FILE_PREFIX@
            },
            Err(e) => config_dir is None && e@ == no_config_dir_text(),
        },
{
    let dir = match config_dir {
        None => {
            return Err(String::from_str("user config dir is not available"));
        },
        Some(c) => default_cert_dir(c.as_str(), env),
    };
    let domains: [&str; 2] = ["localhost", "autodns.local"];
    let ips: [&str; 2] = ["127.0.0.1", "::1"];
    let d = CertificateDefaults {
        common_name: owned(DEFAULT_COMMON_NAME),
        organization: owned(DEFAULT_ORGANIZATION),
        domains: owned_list(domains.as_slice()),
        ip_addresses: owned_list(ips.as_slice()),
        valid_days: DEFAULT_VALID_DAYS,
        output_dir: dir,
        file_prefix: owned(DEFAULT_FILE_PREFIX),
    };
    assert(domains@.map_values(|s: &str| s@) =~= default_domains());
    assert(ips@.map_values(|s: &str| s@) =~= default_ips());
    Ok(d)
}

/// `value` trimmed, or `default` when that leaves nothing.
pub open spec fn or_default_spec(value: Seq<char>, default: Seq<char>) -> Seq<char> {
    if trim(value).len() == 0 {
        default
    } else {
        trim(value)
    }
}

/// `value` trimmed, or `default` when that leaves nothing.
pub fn normalized_or_default(value: &str, default: &str) -> (r: String)
    ensures
        r@ == or_default_spec(value@, default@),
{
    let t = trim_str(value);
    if t.as_str().is_empty() {
        owned(default)
    } else {
        t
    }
}

/// The items of a list as they are used: trimmed, blank ones dropped, the defaults
/// when nothing is left.
pub open spec fn list_source(values: Seq<Seq<char>>, defaults: Seq<Seq<char>>) -> Seq<Seq<char>> {
    let t = trimmed_nonempty(values);
    if t.len() == 0 {
        defaults
    } else {
        t
    }
}

/// A list as it is used: trimmed, blank items dropped, the defaults when nothing is
/// left, then sorted with repeats dropped.
pub fn normalized_list(values: Vec<String>, defaults: &[&str]) -> (r: Vec<String>)
    ensures
        strictly_sorted(texts_of(r@)),
        texts_of(r@).to_set() == list_source(texts_of(values@), defaults@.map_values(|s: &str| s@)).to_set(),
{
    let mut out = trimmed_nonempty_strings(&values);
    if out.len() == 0 {
        out = owned_list(defaults);
    }
    sort_dedup(out)
}

/// Whether a file prefix may keep a character as it is.
pub open spec fn safe_prefix_char(c: char) -> bool {
    ('a' <= c && c <= 'z') || ('A' <= c && c <= 'Z') || ('0' <= c && c <= '9') || c == '-' || c == '_'
}

/// A file prefix made of safe characters: the value trimmed, every other character
/// turned into `-`, leading and trailing `-` dropped, and the default prefix when
/// nothing is left.
pub open spec fn sanitized_prefix(value: Seq<char>) -> Seq<char> {
    let mapped = trim(value).map_values(|c: char| if safe_prefix_char(c) { c } else { '-' });
    let out = trim_end_char(trim_start_char(mapped, '-'), '-');
    if out.len() == 0 {
        DEFAULT_FILE_PREFIX@
    } else {
        out
    }
}

/// A file prefix made of safe characters.
pub fn sanitize_file_prefix(value: &str) -> (r: String)
    ensures
        r@ == sanitized_prefix(value@),
{
    let t = chars_of(trim_str(value).as_str());
    let mut mapped: Vec<char> = Vec::new();
    let mut i: usize = 0;
    while i < t.len()
        invariant
            i <= t@.len(),
            mapped@ == t@.take(i as int).map_values(|c: char| if safe_prefix_char(c) { c } else { '-' }),
        decreases t@.len() - i,
    {
        let c = t[i];
        let safe = ('a' <= c && c <= 'z') || ('A' <= c && c <= 'Z') || ('0' <= c && c <= '9') || c == '-'
            || c == '_';
        mapped.push(if safe { c } else { '-' });
        i = i + 1;
        assert(mapped@ =~= t@.take(i as int).map_values(|c: char| if safe_prefix_char(c) { c } else { '-' }));
    }
    assert(t@.take(t@.len() as int) =~= t@);
    let out = trim_end_char_chars(&trim_start_char_chars(&mapped, '-'), '-');
    if out.len() == 0 {
        owned(DEFAULT_FILE_PREFIX)
    } else {
        string_from_chars(out.as_slice())
    }
}

/// A certificate file name: `prefix-kind.ext`, or `prefix-suffix-kind.ext` with a
/// suffix.
pub open spec fn suffixed_name_spec(prefix: Seq<char>, suffix: Seq<char>, kind: Seq<char>, ext: Seq<char>) -> Seq<char> {
    if suffix.len() == 0 {
        prefix + seq!['-'] + kind + seq!['.'] + ext
    } else {
        prefix + seq!['-'] + suffix + seq!['-'] + kind + seq!['.'] + ext
    }
}

/// A certificate file name: `prefix-kind.ext`, or `prefix-suffix-kind.ext`.
pub fn suffixed_name(file_prefix: &str, suffix: &str, kind: &str, ext: &str) -> (r: String)
    ensures
        r@ == suffixed_name_spec(file_prefix@, suffix@, kind@, ext@),
{
    let mut out: Vec<char> = Vec::new();
    append_str(&mut out, file_prefix);
    out.push('-');
    if !suffix.is_empty() {
        append_str(&mut out, suffix);
        out.push('-');
    }
    append_str(&mut out, kind);
    out.push('.');
    append_str(&mut out, ext);
    assert(out@ =~= suffixed_name_spec(file_prefix@, suffix@, kind@, ext@));
    string_from_chars(out.as_slice())
}

/// The name of a certificate file.
pub fn cert_file_name(file_prefix: &str, suffix: &str, kind: &str) -> (r: String)
    ensures
        r@ == suffixed_name_spec(file_prefix@, suffix@, kind@, "crt"@),
{
    suffixed_name(file_prefix, suffix, kind, "crt")
}

/// The name of a private key file.
pub fn key_file_name(file_prefix: &str, suffix: &str, kind: &str) -> (r: String)
    ensures
        r@ == suffixed_name_spec(file_prefix@, suffix@, kind@, "key"@),
{
    suffixed_name(file_prefix, suffix, kind, "key")
}

/// The suffix tried at attempt `index` when the plain names are taken: the timestamp,
/// then the timestamp followed by `-index`.
pub open spec fn suffix_candidate_spec(timestamp: Seq<char>, index: u32) -> Seq<char> {
    if index == 0 {
        timestamp
    } else {
        timestamp + seq!['-'] + crate::text::decimal(index as nat)
    }
}

/// The suffix tried at attempt `index` when the plain names are taken.
pub fn suffix_candidate(timestamp: &str, index: u32) -> (r: String)
    ensures
        r@ == suffix_candidate_spec(timestamp@, index),
{
    if index == 0 {
        owned(timestamp)
    } else {
        let mut out: Vec<char> = Vec::new();
        append_str(&mut out, timestamp);
        out.push('-');
        let d = crate::text::decimal_chars(index as u64);
        let ghost before = out@;
        let mut i: usize = 0;
        while i < d.len()
            invariant
                i <= d@.len(),
                out@ == before + d@.take(i as int),
            decreases d@.len() - i,
        {
            out.push(d[i]);
            i = i + 1;
            assert(out@ =~= before + d@.take(i as int));
        }
        assert(d@.take(d@.len() as int) =~= d@);
        string_from_chars(out.as_slice())
    }
}

/// The validity asked for, or the default, clamped to one day at least and
/// the longest accepted validity at most.
pub open spec fn valid_days_spec(asked: Option<u32>) -> u32 {
    let v = match asked {
        Some(d) => d,
        None => DEFAULT_VALID_DAYS,
    };
    if v < 1 {
        1
    } else if v > MAX_VALID_DAYS {
        MAX_VALID_DAYS
    } else {
        v
    }
}

/// The validity of a requested certificate, in days.
pub fn normalized_valid_days(asked: Option<u32>) -> (d: u32)
    ensures
        d == valid_days_spec(asked),
{
    let v = match asked {
        Some(d) => d,
        None => DEFAULT_VALID_DAYS,
    };
    if v < 1 {
        1
    } else if v > MAX_VALID_DAYS {
        MAX_VALID_DAYS
    } else {
        v
    }
}

/// The addresses of the certificate, or the first one that is not an address.
pub open spec fn parse_ips_spec(values: Seq<Seq<char>>) -> Result<Seq<IpAddress>, Seq<char>>
    decreases values.len(),
{
    if values.len() == 0 {
        Ok(Seq::empty())
    } else {
        match parse_ips_spec(values.drop_last()) {
            Err(e) => Err(e),
            Ok(ips) => match parse_ip_spec(values.last()) {
                Some(ip) => Ok(ips.push(ip)),
                None => Err("invalid certificate IP address: "@ + values.last()),
            },
        }
    }
}

proof fn lemma_parse_ips_prefix_err(values: Seq<Seq<char>>, k: int)
    requires
        0 <= k <= values.len(),
        parse_ips_spec(values.take(k)) is Err,
    ensures
        parse_ips_spec(values) == parse_ips_spec(values.take(k)),
    decreases values.len() - k,
{
    if k < values.len() {
        assert(values.take(k + 1).drop_last() =~= values.take(k));
        lemma_parse_ips_prefix_err(values, k + 1);
    } else {
        assert(values.take(k) =~= values);
    }
}

/// The addresses of the certificate; the first text that is not an address is the
/// error.
pub fn parse_ip_addresses(values: &Vec<String>) -> (r: Result<Vec<IpAddress>, String>)
    ensures
        match (r, parse_ips_spec(texts_of(values@))) {
            (Ok(ips), Ok(s)) => ips@ == s,
            (Err(e), Err(t)) => e@ == t,
            _ => false,
        },
{
    let ghost src = texts_of(values@);
    let mut ips: Vec<IpAddress> = Vec::new();
    let mut i: usize = 0;
    while i < values.len()
        invariant
            i <= values@.len(),
            src == texts_of(values@),
            parse_ips_spec(src.take(i as int)) == Ok::<Seq<IpAddress>, Seq<char>>(ips@),
        decreases values@.len() - i,
    {
        assert(src.take(i + 1).drop_last() =~= src.take(i as int));
        assert(src.take(i + 1).last() == src[i as int]);
        match parse_ip(values[i].as_str()) {
            Some(ip) => {
                ips.push(ip);
            },
            None => {
                let mut out: Vec<char> = Vec::new();
                append_str(&mut out, "invalid certificate IP address: ");
                append_str(&mut out, values[i].as_str());
                let e = string_from_chars(out.as_slice());
                proof {
                    let k = i as int;
                    assert(src.take(k + 1).last() == values@[k]@);
                    lemma_parse_ips_prefix_err(src, k + 1);
                }
                return Err(e);
            },
        }
        i = i + 1;
    }
    assert(src.take(values@.len() as int) =~= src);
    Ok(ips)
}

/// A request as it is carried out.
#[derive(Clone, Debug)]
pub struct CertificatePlan {
    pub common_name: String,
    pub organization: String,
    pub valid_days: u32,
    pub output_dir: Option<String>,
    pub file_prefix: String,
    pub domains: Vec<String>,
    pub ip_addresses: Vec<String>,
    pub ips: Vec<IpAddress>,
}

/// Whether a plan is the request normalized, as `plan_certificate` makes it.
pub open spec fn plan_matches(req: GenerateCertificateRequest, p: CertificatePlan) -> bool {
    &&& p.common_name@ == or_default_spec(req.common_name@, DEFAULT_COMMON_NAME@)
    &&& p.organization@ == trim(req.organization@)
    &&& p.valid_days == valid_days_spec(req.valid_days)
    &&& p.output_dir matches Some(d) ==> d@ == trim(req.output_dir@) && d@.len() > 0
    &&& p.output_dir is None ==> trim(req.output_dir@).len() == 0
    &&& p.file_prefix@ == sanitized_prefix(req.file_prefix@)
    &&& strictly_sorted(texts_of(p.domains@))
    &&& texts_of(p.domains@).to_set() == list_source(texts_of(req.domains@), default_domains()).to_set()
    &&& strictly_sorted(texts_of(p.ip_addresses@))
    &&& texts_of(p.ip_addresses@).to_set() == list_source(texts_of(req.ip_addresses@), default_ips()).to_set()
    &&& parse_ips_spec(texts_of(p.ip_addresses@)) == Ok::<Seq<IpAddress>, Seq<char>>(p.ips@)
}

/// Whether `e` is the refusal of the request's address list: the error of reading it,
/// sorted with repeats dropped.
pub open spec fn plan_refusal(req: GenerateCertificateRequest, e: Seq<char>) -> bool {
    exists|ips: Seq<Seq<char>>|
        strictly_sorted(ips) && ips.to_set() == list_source(texts_of(req.ip_addresses@), default_ips()).to_set()
            && parse_ips_spec(ips) == Err::<Seq<IpAddress>, Seq<char>>(e)
}

/// A request normalized for generation: the common name trimmed or the default, the
/// organization trimmed, the validity clamped, the output directory trimmed (`None`
/// when blank, for the default directory), a safe file prefix, and the domain and
/// address lists normalized; an address that does not parse is refused.
pub fn plan_certificate(req: GenerateCertificateRequest) -> (r: Result<CertificatePlan, String>)
    ensures
        match r {
            Ok(p) => plan_matches(req, p),
            Err(e) => plan_refusal(req, e@),
        },
{
    let common_name = normalized_or_default(req.common_name.as_str(), DEFAULT_COMMON_NAME);
    let organization = trim_str(req.organization.as_str());
    let valid_days = normalized_valid_days(req.valid_days);
    let dir = trim_str(req.output_dir.as_str());
    let output_dir = if dir.as_str().is_empty() {
        None
    } else {
        Some(dir)
    };
    let file_prefix = sanitize_file_prefix(req.file_prefix.as_str());
    let domain_defaults: [&str; 2] = ["localhost", "autodns.local"];
    let ip_defaults: [&str; 2] = ["127.0.0.1", "::1"];
    assert(domain_defaults@.map_values(|s: &str| s@) =~= default_domains());
    assert(ip_defaults@.map_values(|s: &str| s@) =~= default_ips());
    let domains = normalized_list(req.domains, domain_defaults.as_slice());
    let ip_addresses = normalized_list(req.ip_addresses, ip_defaults.as_slice());
    match parse_ip_addresses(&ip_addresses) {
        Err(e) => Err(e),
        Ok(ips) => Ok(
            CertificatePlan {
                common_name,
                organization,
                valid_days,
                output_dir,
                file_prefix,
                domains,
                ip_addresses,
                ips,
            },
        ),
    }
}

} // verus!
