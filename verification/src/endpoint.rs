//! Where an upstream or proxy is reached: the scheme, host and port of an upstream
//! endpoint with the scheme's default port, its `host:port` address, the DNS-over-HTTPS
//! URL and the TLS server name; and the address and credentials of a SOCKS5 proxy.
use crate::config::{CoreUpstreamConfig, UpstreamView};
use crate::text::{append_str, decimal, decimal_string, str_eq, string_from_chars, trim, trim_str};
use crate::upstream::{format_host_port, format_host_port_spec};
use crate::urls::{parse_url, url_parts, ParsedUrl, UrlView};
use crate::validate::{endpoint_spec, parse_upstream_endpoint, ConfigError, ConfigErrorView};
use crate::text::{debug_quoted, debug_text};
use vstd::prelude::*;

verus! {

/// An upstream endpoint as the clients use it.
#[derive(Clone, Debug)]
pub struct Endpoint {
    pub scheme: String,
    pub host: String,
    pub port: u16,
    pub address: String,
    pub url: String,
    pub server_name: String,
}

/// An endpoint as values.
pub struct EndpointView {
    pub scheme: Seq<char>,
    pub host: Seq<char>,
    pub port: u16,
    pub address: Seq<char>,
    pub url: Seq<char>,
    pub server_name: Seq<char>,
}

impl View for Endpoint {
    type V = EndpointView;

    open spec fn view(&self) -> EndpointView {
        EndpointView {
            scheme: self.scheme@,
            host: self.host@,
            port: self.port,
            address: self.address@,
            url: self.url@,
            server_name: self.server_name@,
        }
    }
}

/// The port a scheme uses when the URL names none.
pub open spec fn default_port(scheme: Seq<char>) -> u16 {
    if scheme == "udp"@ || scheme == "tcp"@ {
        53
    } else if scheme == "dot"@ || scheme == "doq"@ || scheme == "quic"@ {
        853
    } else if scheme == "http"@ {
        80
    } else if scheme == "https"@ {
        443
    } else {
        53
    }
}

/// Whether a scheme is DNS over HTTP(S).
pub open spec fn is_http(scheme: Seq<char>) -> bool {
    scheme == "http"@ || scheme == "https"@
}

/// The endpoint of a parsed upstream URL: the URL's port or the scheme's default, the
/// host (empty when the URL has none), `host:port`, for HTTP(S) the URL
/// `scheme://host:port/path` (path `/dns-query` when empty), and the server name given
/// (trimmed) or else the host.
pub open spec fn endpoint_of(u: UrlView, server_name: Seq<char>) -> EndpointView {
    let port = match u.port {
        Some(p) => p,
        None => default_port(u.scheme),
    };
    let host = match u.host {
        Some(h) => h,
        None => Seq::empty(),
    };
    let path = if is_http(u.scheme) {
        if u.path.len() == 0 {
            "/dns-query"@
        } else {
            u.path
        }
    } else {
        Seq::empty()
    };
    let address = format_host_port_spec(host, port);
    EndpointView {
        scheme: u.scheme,
        host,
        port,
        address,
        url: if is_http(u.scheme) {
            u.scheme + "://"@ + address + path
        } else {
            Seq::empty()
        },
        server_name: if trim(server_name).len() == 0 {
            host
        } else {
            trim(server_name)
        },
    }
}

fn default_port_of(scheme: &str) -> (p: u16)
    ensures
        p == default_port(scheme@),
{
    if str_eq(scheme, "udp") || str_eq(scheme, "tcp") {
        53
    } else if str_eq(scheme, "dot") || str_eq(scheme, "doq") || str_eq(scheme, "quic") {
        853
    } else if str_eq(scheme, "http") {
        80
    } else if str_eq(scheme, "https") {
        443
    } else {
        53
    }
}

/// The endpoint of a parsed upstream URL.
pub fn endpoint_from_url(url: &ParsedUrl, server_name: &str) -> (e: Endpoint)
    ensures
        e@ == endpoint_of(url@, server_name@),
{
    let scheme = url.scheme.as_str();
    let port = match url.port {
        Some(p) => p,
        None => default_port_of(scheme),
    };
    let http = str_eq(scheme, "http") || str_eq(scheme, "https");
    let path: String = if http {
        if url.path.as_str().is_empty() {
            "/dns-query".to_owned()
        } else {
            url.path.as_str().to_owned()
        }
    } else {
        String::new()
    };
    let host: String = match &url.host {
        Some(h) => h.as_str().to_owned(),
        None => String::new(),
    };
    let address = format_host_port(host.as_str(), port);
    let doh_url = if http {
        let mut out: Vec<char> = Vec::new();
        append_str(&mut out, scheme);
        append_str(&mut out, "://");
        append_str(&mut out, address.as_str());
        append_str(&mut out, path.as_str());
        string_from_chars(out.as_slice())
    } else {
        String::new()
    };
    let trimmed = trim_str(server_name);
    let name = if trimmed.as_str().is_empty() {
        host.as_str().to_owned()
    } else {
        trimmed
    };
    Endpoint { scheme: scheme.to_owned(), host, port, address, url: doh_url, server_name: name }
}

/// The endpoint of a configured upstream: its URL checked as the configuration checks
/// it, then read as `endpoint_from_url` reads it.
pub fn endpoint_from_config(item: &CoreUpstreamConfig) -> (r: Result<Endpoint, ConfigError>)
    ensures
        match r {
            Ok(e) => endpoint_spec(item.endpoint@) matches Ok(u) && e@ == endpoint_of(u, item.server_name@),
            Err(e) => endpoint_spec(item.endpoint@) == Err::<UrlView, ConfigErrorView>(e@),
        },
{
    let url = parse_upstream_endpoint(item.endpoint.as_str())?;
    Ok(endpoint_from_url(&url, item.server_name.as_str()))
}

/// A SOCKS5 proxy as the clients use it.
#[derive(Clone, Debug)]
pub struct ProxyEndpoint {
    pub address: String,
    pub username: String,
    pub password: String,
}

/// Why a proxy endpoint was refused.
#[derive(Clone, Debug)]
pub enum ProxyEndpointError {
    Invalid(String),
    UnsupportedScheme(String),
    MissingHost(String),
}

/// A refused proxy endpoint as values.
pub enum ProxyEndpointErrorView {
    Invalid(Seq<char>),
    UnsupportedScheme(Seq<char>),
    MissingHost(Seq<char>),
}

impl View for ProxyEndpointError {
    type V = ProxyEndpointErrorView;

    open spec fn view(&self) -> ProxyEndpointErrorView {
        match self {
            ProxyEndpointError::Invalid(s) => ProxyEndpointErrorView::Invalid(s@),
            ProxyEndpointError::UnsupportedScheme(s) => ProxyEndpointErrorView::UnsupportedScheme(s@),
            ProxyEndpointError::MissingHost(s) => ProxyEndpointErrorView::MissingHost(s@),
        }
    }
}

/// The text of a refused proxy endpoint (the values in double quotes).
pub open spec fn proxy_endpoint_error_text(e: ProxyEndpointErrorView) -> Seq<char> {
    match e {
        ProxyEndpointErrorView::Invalid(raw) => "invalid proxy endpoint "@ + debug_quoted(raw),
        ProxyEndpointErrorView::UnsupportedScheme(s) => "unsupported proxy scheme "@ + debug_quoted(s) + "; only socks5 is supported"@,
        ProxyEndpointErrorView::MissingHost(raw) => "proxy endpoint "@ + debug_quoted(raw) + " is missing host"@,
    }
}

impl ProxyEndpointError {
    /// The text of the refusal.
    pub fn message(&self) -> (m: String)
        ensures
            m@ == proxy_endpoint_error_text(self@),
    {
        let mut out: Vec<char> = Vec::new();
        match self {
            ProxyEndpointError::Invalid(raw) => {
                append_str(&mut out, "invalid proxy endpoint ");
                append_str(&mut out, debug_text(raw.as_str()).as_str());
            },
            ProxyEndpointError::UnsupportedScheme(s) => {
                append_str(&mut out, "unsupported proxy scheme ");
                append_str(&mut out, debug_text(s.as_str()).as_str());
                append_str(&mut out, "; only socks5 is supported");
            },
            ProxyEndpointError::MissingHost(raw) => {
                append_str(&mut out, "proxy endpoint ");
                append_str(&mut out, debug_text(raw.as_str()).as_str());
                append_str(&mut out, " is missing host");
            },
        }
        string_from_chars(out.as_slice())
    }
}

/// A proxy endpoint read from its URL: the scheme must be `socks5` and a host given; the
/// address is `host:port` with port 1080 when none is given, the credentials those of
/// the URL.
pub open spec fn proxy_endpoint_spec(raw: Seq<char>) -> Result<(Seq<char>, Seq<char>, Seq<char>), ProxyEndpointErrorView> {
    match url_parts(raw) {
        None => Err(ProxyEndpointErrorView::Invalid(raw)),
        Some(u) => if u.scheme != "socks5"@ {
            Err(ProxyEndpointErrorView::UnsupportedScheme(u.scheme))
        } else {
            match u.host {
                None => Err(ProxyEndpointErrorView::MissingHost(raw)),
                Some(h) => Ok(
                    (
                        h + seq![':'] + decimal(
                            (match u.port {
                                Some(p) => p,
                                None => 1080u16,
                            }) as nat,
                        ),
                        u.username,
                        match u.password {
                            Some(p) => p,
                            None => Seq::empty(),
                        },
                    ),
                ),
            }
        },
    }
}

/// A proxy endpoint read from its URL.
pub fn proxy_endpoint_from_raw(raw: &str) -> (r: Result<ProxyEndpoint, ProxyEndpointError>)
    ensures
        match r {
            Ok(p) => proxy_endpoint_spec(raw@) == Ok::<_, ProxyEndpointErrorView>((p.address@, p.username@, p.password@)),
            Err(e) => proxy_endpoint_spec(raw@) == Err::<(Seq<char>, Seq<char>, Seq<char>), _>(e@),
        },
{
    let url = match parse_url(raw) {
        None => return Err(ProxyEndpointError::Invalid(raw.to_owned())),
        Some(u) => u,
    };
    let ghost uv = url@;
    if !str_eq(url.scheme.as_str(), "socks5") {
        return Err(ProxyEndpointError::UnsupportedScheme(url.scheme));
    }
    let host = match url.host {
        None => return Err(ProxyEndpointError::MissingHost(raw.to_owned())),
        Some(h) => h,
    };
    let port: u16 = match url.port {
        Some(p) => p,
        None => 1080,
    };
    let mut out: Vec<char> = Vec::new();
    append_str(&mut out, host.as_str());
    out.push(':');
    append_str(&mut out, decimal_string(port as u64).as_str());
    let password = match url.password {
        Some(p) => p,
        None => String::new(),
    };
    assert(out@ =~= host@ + seq![':'] + decimal(port as nat));
    assert(uv.host == Some(host@));
    assert(password@ == match uv.password {
        Some(p) => p,
        None => Seq::<char>::empty(),
    });
    Ok(ProxyEndpoint { address: string_from_chars(out.as_slice()), username: url.username, password })
}

} // verus!
