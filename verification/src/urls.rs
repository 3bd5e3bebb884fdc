//! Endpoint URLs, read by the `url` crate into their parts.
use vstd::prelude::*;

verus! {

/// The parts of a URL that the configuration reads.
#[derive(Clone, Debug)]
pub struct ParsedUrl {
    pub scheme: String,
    pub host: Option<String>,
    pub port: Option<u16>,
    pub path: String,
    pub query: Option<String>,
    pub username: String,
    pub password: Option<String>,
}

/// The parts of a URL as values.
pub struct UrlView {
    pub scheme: Seq<char>,
    pub host: Option<Seq<char>>,
    pub port: Option<u16>,
    pub path: Seq<char>,
    pub query: Option<Seq<char>>,
    pub username: Seq<char>,
    pub password: Option<Seq<char>>,
}

/// The text inside an optional string.
pub open spec fn opt_text(s: Option<String>) -> Option<Seq<char>> {
    match s {
        Some(t) => Some(t@),
        None => None,
    }
}

impl View for ParsedUrl {
    type V = UrlView;

    open spec fn view(&self) -> UrlView {
        UrlView {
            scheme: self.scheme@,
            host: opt_text(self.host),
            port: self.port,
            path: self.path@,
            query: opt_text(self.query),
            username: self.username@,
            password: opt_text(self.password),
        }
    }
}

/// The parts of the URL `raw`, as `url::Url::parse` reads them (`None` when it refuses).
pub uninterp spec fn url_parts(raw: Seq<char>) -> Option<UrlView>;

/// The URL `raw` with its user name and password removed, serialized again by the `url`
/// crate (meaningful where `raw` parses).
pub uninterp spec fn url_without_credentials(raw: Seq<char>) -> Seq<char>;

/// The URL `raw` with the user name and password set, serialized again by the `url` crate
/// (meaningful where `raw` parses).
pub uninterp spec fn url_with_credentials(raw: Seq<char>, username: Seq<char>, password: Seq<char>) -> Seq<char>;

/// Reads a URL with `url::Url::parse` and takes its scheme, host, port (none when it is the
/// scheme's default), path, query, user name and password. The result is named by
/// `url_parts`: the same text always gives the same parts.
#[verifier::external_body]
pub(crate) fn parse_url(raw: &str) -> (r: Option<ParsedUrl>)
    ensures
        match r {
            Some(u) => url_parts(raw@) == Some(u@),
            None => url_parts(raw@) is None,
        },
{
    let u = url::Url::parse(raw).ok()?;
    Some(ParsedUrl {
        scheme: u.scheme().to_string(),
        host: u.host_str().map(|h| h.to_string()),
        port: u.port(),
        path: u.path().to_string(),
        query: u.query().map(|q| q.to_string()),
        username: u.username().to_string(),
        password: u.password().map(|p| p.to_string()),
    })
}

/// Clears the user name and password of a URL that `url::Url::parse` reads, with
/// `set_username("")` and `set_password(None)`, and serializes it again.
#[verifier::external_body]
fn strip_credentials(raw: &str) -> (r: String)
    requires
        url_parts(raw@) is Some,
    ensures
        r@ == url_without_credentials(raw@),
{
    let mut u = url::Url::parse(raw).unwrap();
    let _ = u.set_username("");
    let _ = u.set_password(None);
    u.to_string()
}

/// Sets the user name and password of a URL that `url::Url::parse` reads, with
/// `set_username` and `set_password`, and serializes it again.
#[verifier::external_body]
fn put_credentials(raw: &str, username: &str, password: &str) -> (r: String)
    requires
        url_parts(raw@) is Some,
    ensures
        r@ == url_with_credentials(raw@, username@, password@),
{
    let mut u = url::Url::parse(raw).unwrap();
    let _ = u.set_username(username);
    let _ = u.set_password(Some(password));
    u.to_string()
}

/// A proxy URL split into the URL without credentials, the user name and the password; a URL
/// that does not parse, or has no user name, is kept whole with empty credentials.
pub open spec fn split_auth_spec(raw: Seq<char>) -> (Seq<char>, Seq<char>, Seq<char>) {
    match url_parts(raw) {
        None => (raw, Seq::empty(), Seq::empty()),
        Some(u) => if u.username.len() == 0 {
            (raw, Seq::empty(), Seq::empty())
        } else {
            (
                url_without_credentials(raw),
                u.username,
                match u.password {
                    Some(p) => p,
                    None => Seq::empty(),
                },
            )
        },
    }
}

/// Splits the credentials off a proxy URL.
pub fn split_proxy_endpoint_auth(raw: &str) -> (r: (String, String, String))
    ensures
        (r.0@, r.1@, r.2@) == split_auth_spec(raw@),
{
    let empty = String::from_str("");
    proof {
        reveal_strlit("");
        assert(empty@ =~= Seq::<char>::empty());
    }
    let u = match parse_url(raw) {
        Some(u) => u,
        None => {
            return (String::from_str(raw), empty.clone(), empty);
        },
    };
    if u.username.as_str().is_empty() {
        return (String::from_str(raw), empty.clone(), empty);
    }
    let password = match u.password {
        Some(p) => p,
        None => empty,
    };
    (strip_credentials(raw), u.username, password)
}

/// A proxy URL with the credentials put in; a blank user name, or a URL that does not
/// parse, leaves it as it is. The user name is trimmed, the password is not.
pub open spec fn with_auth_spec(raw: Seq<char>, username: Seq<char>, password: Seq<char>) -> Seq<char> {
    let user = crate::text::trim(username);
    if user.len() == 0 {
        raw
    } else {
        match url_parts(raw) {
            None => raw,
            Some(_) => url_with_credentials(raw, user, password),
        }
    }
}

/// Puts credentials into a proxy URL.
pub fn proxy_endpoint_with_auth(raw: &str, username: &str, password: &str) -> (r: String)
    ensures
        r@ == with_auth_spec(raw@, username@, password@),
{
    let user = crate::text::trim_str(username);
    if user.as_str().is_empty() {
        return String::from_str(raw);
    }
    match parse_url(raw) {
        None => String::from_str(raw),
        Some(_) => put_credentials(raw, user.as_str(), password),
    }
}

} // verus!
