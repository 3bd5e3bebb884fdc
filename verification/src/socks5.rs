//! The client side of a SOCKS5 handshake with a proxy: the greeting, the choice of
//! authentication method, the username/password exchange, the connect or UDP-associate
//! request for a `host:port` target, and the address in the proxy's reply. The bytes
//! are sent and read by the caller; each step here says what to send or what a reply
//! means.
use crate::ip_text::{ipv4_text, ip_text, ip_to_string};
use crate::net::IpAddress;
use crate::text::{append_str, decimal, decimal_string, string_from_chars};
use crate::upstream::{append_bytes, frame_error_text, split_host_port, split_host_port_spec, utf8_bytes, FrameError};
use crate::wire::{lossy_text, utf8_lossy};
use vstd::prelude::*;

verus! {

/// The SOCKS protocol version.
pub const SOCKS_VERSION: u8 = 5;

/// The CONNECT command.
pub const SOCKS5_CONNECT: u8 = 1;

/// The UDP ASSOCIATE command.
pub const SOCKS5_UDP_ASSOCIATE: u8 = 3;

/// Why a SOCKS5 exchange failed.
#[derive(Clone, Copy, Debug, PartialEq, Eq)]
pub enum Socks5Error {
    MethodsRejected,
    UnsupportedMethod(u8),
    CredentialsTooLong,
    AuthenticationFailed,
    HostTooLong,
    InvalidResponse,
    RequestFailed(u8),
    UnsupportedAddressType(u8),
    Address(FrameError),
}

/// The text of a SOCKS5 failure.
pub open spec fn socks5_error_text(e: Socks5Error) -> Seq<char> {
    match e {
        Socks5Error::MethodsRejected => "SOCKS5 proxy rejected authentication methods"@,
        Socks5Error::UnsupportedMethod(m) => "SOCKS5 proxy selected unsupported authentication method "@ + decimal(
            m as nat,
        ),
        Socks5Error::CredentialsTooLong => "SOCKS5 credentials are too long"@,
        Socks5Error::AuthenticationFailed => "SOCKS5 username/password authentication failed"@,
        Socks5Error::HostTooLong => "SOCKS5 target host is too long"@,
        Socks5Error::InvalidResponse => "invalid SOCKS5 response"@,
        Socks5Error::RequestFailed(c) => "SOCKS5 request failed with reply code "@ + decimal(c as nat),
        Socks5Error::UnsupportedAddressType(t) => "SOCKS5 response has unsupported address type "@ + decimal(
            t as nat,
        ),
        Socks5Error::Address(f) => frame_error_text(f),
    }
}

fn text_with_number(head: &str, n: u8) -> (r: String)
    ensures
        r@ == head@ + decimal(n as nat),
{
    let mut out: Vec<char> = Vec::new();
    append_str(&mut out, head);
    append_str(&mut out, decimal_string(n as u64).as_str());
    string_from_chars(out.as_slice())
}

impl Socks5Error {
    /// The text of the failure; an address error does not name the target here
    /// (`message_for` does).
    pub fn message(&self) -> (m: String)
        ensures
            m@ == socks5_error_text(*self),
    {
        match self {
            Socks5Error::MethodsRejected => "SOCKS5 proxy rejected authentication methods".to_owned(),
            Socks5Error::UnsupportedMethod(m) => text_with_number(
                "SOCKS5 proxy selected unsupported authentication method ",
                *m,
            ),
            Socks5Error::CredentialsTooLong => "SOCKS5 credentials are too long".to_owned(),
            Socks5Error::AuthenticationFailed => "SOCKS5 username/password authentication failed".to_owned(),
            Socks5Error::HostTooLong => "SOCKS5 target host is too long".to_owned(),
            Socks5Error::InvalidResponse => "invalid SOCKS5 response".to_owned(),
            Socks5Error::RequestFailed(c) => text_with_number("SOCKS5 request failed with reply code ", *c),
            Socks5Error::UnsupportedAddressType(t) => text_with_number(
                "SOCKS5 response has unsupported address type ",
                *t,
            ),
            Socks5Error::Address(f) => f.message(),
        }
    }
}

/// The text of a SOCKS5 failure for the target `target`: an address error names it.
pub open spec fn socks5_error_text_for(e: Socks5Error, target: Seq<char>) -> Seq<char> {
    match e {
        Socks5Error::Address(f) => crate::upstream::frame_error_text_for(f, target),
        _ => socks5_error_text(e),
    }
}

impl Socks5Error {
    /// The text of the failure met for the target `target`, naming the target in an
    /// address error.
    pub fn message_for(&self, target: &str) -> (m: String)
        ensures
            m@ == socks5_error_text_for(*self, target@),
    {
        match self {
            Socks5Error::Address(f) => f.message_for(target),
            _ => self.message(),
        }
    }
}

/// The greeting: version 5 and the offered methods, username/password besides no
/// authentication when there are credentials.
pub open spec fn greeting_spec(with_credentials: bool) -> Seq<u8> {
    if with_credentials {
        seq![5u8, 2u8, 0u8, 2u8]
    } else {
        seq![5u8, 1u8, 0u8]
    }
}

/// The greeting sent to the proxy.
pub fn socks5_greeting(with_credentials: bool) -> (r: Vec<u8>)
    ensures
        r@ == greeting_spec(with_credentials),
{
    let mut r: Vec<u8> = Vec::new();
    r.push(5);
    if with_credentials {
        r.push(2);
        r.push(0);
        r.push(2);
    } else {
        r.push(1);
        r.push(0);
    }
    assert(r@ =~= greeting_spec(with_credentials));
    r
}

/// How the proxy wants the client to authenticate.
#[derive(Clone, Copy, Debug, PartialEq, Eq, Structural)]
pub enum AuthMethod {
    NoAuthentication,
    UsernamePassword,
}

/// What the proxy's method reply means.
pub open spec fn method_choice_spec(version: u8, method: u8) -> Result<AuthMethod, Socks5Error> {
    if version != 5 || method == 0xff {
        Err(Socks5Error::MethodsRejected)
    } else if method == 2 {
        Ok(AuthMethod::UsernamePassword)
    } else if method != 0 {
        Err(Socks5Error::UnsupportedMethod(method))
    } else {
        Ok(AuthMethod::NoAuthentication)
    }
}

/// What the proxy's two-byte method reply means.
pub fn socks5_method_choice(version: u8, method: u8) -> (r: Result<AuthMethod, Socks5Error>)
    ensures
        r == method_choice_spec(version, method),
{
    if version != 5 || method == 0xff {
        Err(Socks5Error::MethodsRejected)
    } else if method == 2 {
        Ok(AuthMethod::UsernamePassword)
    } else if method != 0 {
        Err(Socks5Error::UnsupportedMethod(method))
    } else {
        Ok(AuthMethod::NoAuthentication)
    }
}

/// The username/password request: version 1, then each of the two as a length byte
/// and its UTF-8 bytes; refused when either is longer than 255 bytes.
pub open spec fn auth_request_spec(username: Seq<char>, password: Seq<char>) -> Result<Seq<u8>, Socks5Error> {
    let u = utf8_bytes(username);
    let p = utf8_bytes(password);
    if u.len() > 255 || p.len() > 255 {
        Err(Socks5Error::CredentialsTooLong)
    } else {
        Ok(seq![1u8, u.len() as u8] + u + seq![p.len() as u8] + p)
    }
}

/// The username/password request sent after the proxy chose that method.
pub fn socks5_auth_request(username: &str, password: &str) -> (r: Result<Vec<u8>, Socks5Error>)
    ensures
        match r {
            Ok(b) => auth_request_spec(username@, password@) == Ok::<Seq<u8>, Socks5Error>(b@),
            Err(e) => auth_request_spec(username@, password@) == Err::<Seq<u8>, Socks5Error>(e),
        },
{
    let u = username.as_bytes();
    let p = password.as_bytes();
    if u.len() > 255 || p.len() > 255 {
        return Err(Socks5Error::CredentialsTooLong);
    }
    let mut r: Vec<u8> = Vec::new();
    r.push(1);
    r.push(u.len() as u8);
    append_bytes(&mut r, u);
    r.push(p.len() as u8);
    append_bytes(&mut r, p);
    assert(r@ =~= seq![1u8, u@.len() as u8] + u@ + seq![p@.len() as u8] + p@);
    Ok(r)
}

/// Whether the proxy accepted the credentials: it must answer version 1, status 0.
pub fn socks5_auth_accepted(version: u8, status: u8) -> (r: Result<(), Socks5Error>)
    ensures
        r == if version == 1 && status == 0 {
            Ok::<(), Socks5Error>(())
        } else {
            Err(Socks5Error::AuthenticationFailed)
        },
{
    if version == 1 && status == 0 {
        Ok(())
    } else {
        Err(Socks5Error::AuthenticationFailed)
    }
}

/// The request for a `host:port` target: version 5, the command, a reserved zero,
/// the domain address type, the host as a length byte and its UTF-8 bytes, and the
/// port big-endian.
pub open spec fn request_spec(command: u8, target: Seq<char>) -> Result<Seq<u8>, Socks5Error> {
    match split_host_port_spec(target) {
        Err(e) => Err(Socks5Error::Address(e)),
        Ok((host, port)) => {
            let h = utf8_bytes(host);
            if h.len() > 255 {
                Err(Socks5Error::HostTooLong)
            } else {
                Ok(seq![5u8, command, 0u8, 3u8, h.len() as u8] + h + seq![(port / 256) as u8, (port % 256) as u8])
            }
        },
    }
}

/// The connect or UDP-associate request for a target.
pub fn socks5_request(command: u8, target: &str) -> (r: Result<Vec<u8>, Socks5Error>)
    ensures
        match r {
            Ok(b) => request_spec(command, target@) == Ok::<Seq<u8>, Socks5Error>(b@),
            Err(e) => request_spec(command, target@) == Err::<Seq<u8>, Socks5Error>(e),
        },
{
    let (host, port) = match split_host_port(target) {
        Ok(parts) => parts,
        Err(e) => return Err(Socks5Error::Address(e)),
    };
    let h = host.as_str().as_bytes();
    if h.len() > 255 {
        return Err(Socks5Error::HostTooLong);
    }
    let mut r: Vec<u8> = Vec::new();
    r.push(5);
    r.push(command);
    r.push(0);
    r.push(3);
    r.push(h.len() as u8);
    append_bytes(&mut r, h);
    r.push((port / 256) as u8);
    r.push((port % 256) as u8);
    assert(r@ =~= seq![5u8, command, 0u8, 3u8, h@.len() as u8] + h@ + seq![(port / 256) as u8, (port % 256) as u8]);
    Ok(r)
}

/// What the four-byte head of the proxy's reply means: the address type of the bound
/// address that follows, or why the request failed.
pub open spec fn reply_head_spec(version: u8, reply: u8, atyp: u8) -> Result<u8, Socks5Error> {
    if version != 5 {
        Err(Socks5Error::InvalidResponse)
    } else if reply != 0 {
        Err(Socks5Error::RequestFailed(reply))
    } else {
        Ok(atyp)
    }
}

/// What the head of the proxy's reply means.
pub fn socks5_reply_head(version: u8, reply: u8, atyp: u8) -> (r: Result<u8, Socks5Error>)
    ensures
        r == reply_head_spec(version, reply, atyp),
{
    if version != 5 {
        Err(Socks5Error::InvalidResponse)
    } else if reply != 0 {
        Err(Socks5Error::RequestFailed(reply))
    } else {
        Ok(atyp)
    }
}

/// How the bound address of a reply is laid out after its type byte.
#[derive(Clone, Copy, Debug, PartialEq, Eq, Structural)]
pub enum AddressLayout {
    /// A fixed number of address bytes, then the port.
    Fixed(usize),
    /// A length byte, that many host bytes, then the port.
    LengthPrefixed,
}

/// How an address of a given type is laid out: four bytes for IPv4, sixteen for IPv6,
/// a length-prefixed host for a domain.
pub open spec fn address_layout_spec(atyp: u8) -> Result<AddressLayout, Socks5Error> {
    if atyp == 1 {
        Ok(AddressLayout::Fixed(4))
    } else if atyp == 3 {
        Ok(AddressLayout::LengthPrefixed)
    } else if atyp == 4 {
        Ok(AddressLayout::Fixed(16))
    } else {
        Err(Socks5Error::UnsupportedAddressType(atyp))
    }
}

/// How the bound address of the given type is laid out.
pub fn socks5_address_layout(atyp: u8) -> (r: Result<AddressLayout, Socks5Error>)
    ensures
        r == address_layout_spec(atyp),
{
    if atyp == 1 {
        Ok(AddressLayout::Fixed(4))
    } else if atyp == 3 {
        Ok(AddressLayout::LengthPrefixed)
    } else if atyp == 4 {
        Ok(AddressLayout::Fixed(16))
    } else {
        Err(Socks5Error::UnsupportedAddressType(atyp))
    }
}

/// The IPv6 address of sixteen bytes, big-endian groups.
pub open spec fn v6_of_bytes(b: Seq<u8>) -> IpAddress {
    IpAddress::V6(
        (b[0] * 256 + b[1]) as u16,
        (b[2] * 256 + b[3]) as u16,
        (b[4] * 256 + b[5]) as u16,
        (b[6] * 256 + b[7]) as u16,
        (b[8] * 256 + b[9]) as u16,
        (b[10] * 256 + b[11]) as u16,
        (b[12] * 256 + b[13]) as u16,
        (b[14] * 256 + b[15]) as u16,
    )
}

/// The bound address of a reply as text: `a.b.c.d:port`, `host:port` (the host's bytes
/// read as UTF-8 with invalid sequences replaced), or `[v6]:port`.
pub open spec fn reply_address_spec(atyp: u8, addr: Seq<u8>, port: u16) -> Seq<char> {
    let tail = seq![':'] + decimal(port as nat);
    if atyp == 1 {
        ipv4_text(addr[0], addr[1], addr[2], addr[3]) + tail
    } else if atyp == 4 {
        seq!['['] + ip_text(v6_of_bytes(addr)) + seq![']'] + tail
    } else {
        lossy_text(addr) + tail
    }
}

fn group(hi: u8, lo: u8) -> (g: u16)
    ensures
        g == hi * 256 + lo,
{
    (hi as u16) * 256 + (lo as u16)
}

/// The bound address of a reply as text; `addr` holds the address bytes (or the host
/// bytes of a domain) and `port` the port that follows.
pub fn socks5_reply_address(atyp: u8, addr: &[u8], port: u16) -> (r: String)
    requires
        atyp == 1 ==> addr@.len() == 4,
        atyp == 4 ==> addr@.len() == 16,
    ensures
        r@ == reply_address_spec(atyp, addr@, port),
{
    let head = if atyp == 1 {
        ip_to_string(IpAddress::V4(addr[0], addr[1], addr[2], addr[3]))
    } else if atyp == 4 {
        let ip = IpAddress::V6(
            group(addr[0], addr[1]),
            group(addr[2], addr[3]),
            group(addr[4], addr[5]),
            group(addr[6], addr[7]),
            group(addr[8], addr[9]),
            group(addr[10], addr[11]),
            group(addr[12], addr[13]),
            group(addr[14], addr[15]),
        );
        let mut out: Vec<char> = Vec::new();
        out.push('[');
        append_str(&mut out, ip_to_string(ip).as_str());
        out.push(']');
        string_from_chars(out.as_slice())
    } else {
        utf8_lossy(addr)
    };
    let mut out: Vec<char> = Vec::new();
    append_str(&mut out, head.as_str());
    out.push(':');
    append_str(&mut out, decimal_string(port as u64).as_str());
    let r = string_from_chars(out.as_slice());
    assert(r@ =~= reply_address_spec(atyp, addr@, port));
    r
}

} // verus!
