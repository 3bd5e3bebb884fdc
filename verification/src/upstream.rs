//! Framing used to talk to upstreams: `host:port` addresses, the SOCKS5 UDP header, the
//! two-byte length prefix of DNS over TCP and TLS, and the pieces of a DNS-over-HTTPS
//! request.
use crate::text::{
    chars_of, decimal, decimal_chars, parse_u16, parse_u16_spec, rsplit_once, rsplit_once_chars,
    slice_chars, split_all, split_chars, split_once, split_once_chars, string_from_chars,
    trim_end_char, trim_end_char_chars, trim_start_char, trim_start_char_chars,
};
use crate::wire::{be16, u16_at};
use crate::text::{debug_quoted, debug_text};
use vstd::prelude::*;
use vstd::utf8::*;
use base64::Engine;

verus! {

/// Why an address or frame could not be built or read.
#[derive(Clone, Copy, Debug, PartialEq, Eq)]
pub enum FrameError {
    MissingPort,
    InvalidPort,
    MissingHost,
    HostTooLong,
    UdpResponseTooShort,
    UdpFragmented,
    UdpDomainLengthMissing,
    UdpUnsupportedAddressType,
    UdpAddressTruncated,
    MessageTooLarge,
    PrefixedTooShort,
    PrefixedTruncated,
}

/// The text of a framing error.
pub open spec fn frame_error_text(e: FrameError) -> Seq<char> {
    match e {
        FrameError::MissingPort => "address is missing port"@,
        FrameError::InvalidPort => "parse port in address"@,
        FrameError::MissingHost => "address is missing host"@,
        FrameError::HostTooLong => "SOCKS5 UDP target host is too long"@,
        FrameError::UdpResponseTooShort => "SOCKS5 UDP response is too short"@,
        FrameError::UdpFragmented => "SOCKS5 UDP fragmentation is not supported"@,
        FrameError::UdpDomainLengthMissing => "SOCKS5 UDP domain length is missing"@,
        FrameError::UdpUnsupportedAddressType => "SOCKS5 UDP response has unsupported address type"@,
        FrameError::UdpAddressTruncated => "SOCKS5 UDP response address is truncated"@,
        FrameError::MessageTooLarge => "DNS message is too large"@,
        FrameError::PrefixedTooShort => "length-prefixed DNS response is too short"@,
        FrameError::PrefixedTruncated => "length-prefixed DNS response is truncated"@,
    }
}

impl FrameError {
    /// The human-readable text of the error; the address errors do not name the address
    /// here (`message_for` does).
    pub fn message(&self) -> (m: String)
        ensures
            m@ == frame_error_text(*self),
    {
        match self {
            FrameError::MissingPort => String::from_str("address is missing port"),
            FrameError::InvalidPort => String::from_str("parse port in address"),
            FrameError::MissingHost => String::from_str("address is missing host"),
            FrameError::HostTooLong => String::from_str("SOCKS5 UDP target host is too long"),
            FrameError::UdpResponseTooShort => String::from_str("SOCKS5 UDP response is too short"),
            FrameError::UdpFragmented => String::from_str(
                "SOCKS5 UDP fragmentation is not supported",
            ),
            FrameError::UdpDomainLengthMissing => String::from_str(
                "SOCKS5 UDP domain length is missing",
            ),
            FrameError::UdpUnsupportedAddressType => String::from_str(
                "SOCKS5 UDP response has unsupported address type",
            ),
            FrameError::UdpAddressTruncated => String::from_str(
                "SOCKS5 UDP response address is truncated",
            ),
            FrameError::MessageTooLarge => String::from_str("DNS message is too large"),
            FrameError::PrefixedTooShort => String::from_str(
                "length-prefixed DNS response is too short",
            ),
            FrameError::PrefixedTruncated => String::from_str(
                "length-prefixed DNS response is truncated",
            ),
        }
    }
}

/// The text of a framing error met while reading `address`: the address errors name it
/// in its `Debug` form.
pub open spec fn frame_error_text_for(e: FrameError, address: Seq<char>) -> Seq<char> {
    match e {
        FrameError::MissingPort => "address "@ + debug_quoted(address) + " is missing port"@,
        FrameError::InvalidPort => "parse port in "@ + debug_quoted(address),
        FrameError::MissingHost => "address "@ + debug_quoted(address) + " is missing host"@,
        _ => frame_error_text(e),
    }
}

impl FrameError {
    /// The text of the error met while reading `address`, naming the address where the
    /// error is about it.
    pub fn message_for(&self, address: &str) -> (m: String)
        ensures
            m@ == frame_error_text_for(*self, address@),
    {
        match self {
            FrameError::MissingPort => {
                let mut m = String::from_str("address ");
                m.append(debug_text(address).as_str());
                m.append(" is missing port");
                m
            },
            FrameError::InvalidPort => {
                let mut m = String::from_str("parse port in ");
                m.append(debug_text(address).as_str());
                m
            },
            FrameError::MissingHost => {
                let mut m = String::from_str("address ");
                m.append(debug_text(address).as_str());
                m.append(" is missing host");
                m
            },
            _ => self.message(),
        }
    }
}

/// `host:port` split at the last colon, with the brackets of an IPv6 host dropped.
pub open spec fn split_host_port_spec(address: Seq<char>) -> Result<(Seq<char>, u16), FrameError> {
    match rsplit_once(address, ':') {
        None => Err(FrameError::MissingPort),
        Some((host, port)) => {
            let host = trim_end_char(trim_start_char(host, '['), ']');
            match parse_u16_spec(port) {
                None => Err(FrameError::InvalidPort),
                Some(p) => if host.len() == 0 {
                    Err(FrameError::MissingHost)
                } else {
                    Ok((host, p))
                },
            }
        },
    }
}

pub fn split_host_port(address: &str) -> (r: Result<(String, u16), FrameError>)
    ensures
        match r {
            Ok((host, port)) => split_host_port_spec(address@) == Ok::<
                (Seq<char>, u16),
                FrameError,
            >((host@, port)),
            Err(e) => split_host_port_spec(address@) == Err::<(Seq<char>, u16), FrameError>(e),
        },
{
    let v = chars_of(address);
    let (host, port) = match rsplit_once_chars(&v, ':') {
        Some(parts) => parts,
        None => {
            return Err(FrameError::MissingPort);
        },
    };
    let host = trim_end_char_chars(&trim_start_char_chars(&host, '['), ']');
    let port = match parse_u16(&port) {
        Some(p) => p,
        None => {
            return Err(FrameError::InvalidPort);
        },
    };
    if host.len() == 0 {
        return Err(FrameError::MissingHost);
    }
    Ok((string_from_chars(host.as_slice()), port))
}

/// `host:port`, with an IPv6 host put in brackets.
pub open spec fn format_host_port_spec(host: Seq<char>, port: u16) -> Seq<char> {
    let tail = seq![':'] + decimal(port as nat);
    if host.contains(':') && !(host.len() > 0 && host[0] == '[') {
        seq!['['] + host + seq![']'] + tail
    } else {
        host + tail
    }
}

pub fn format_host_port(host: &str, port: u16) -> (r: String)
    ensures
        r@ == format_host_port_spec(host@, port),
{
    let h = chars_of(host);
    let mut out: Vec<char> = Vec::new();
    let bracket = crate::text::contains_char(&h, ':') && !(h.len() > 0 && h[0] == '[');
    if bracket {
        out.push('[');
    }
    let mut i: usize = 0;
    while i < h.len()
        invariant
            i <= h@.len(),
            out@ == (if bracket {
                seq!['[']
            } else {
                Seq::<char>::empty()
            }) + h@.take(i as int),
        decreases h@.len() - i,
    {
        out.push(h[i]);
        i = i + 1;
        assert(out@ =~= (if bracket {
            seq!['[']
        } else {
            Seq::<char>::empty()
        }) + h@.take(i as int));
    }
    assert(h@.take(h@.len() as int) =~= h@);
    if bracket {
        out.push(']');
    }
    out.push(':');
    let digits = decimal_chars(port as u64);
    let mut j: usize = 0;
    let ghost prefix = out@;
    while j < digits.len()
        invariant
            j <= digits@.len(),
            out@ == prefix + digits@.take(j as int),
        decreases digits@.len() - j,
    {
        out.push(digits[j]);
        j = j + 1;
        assert(out@ =~= prefix + digits@.take(j as int));
    }
    assert(digits@.take(digits@.len() as int) =~= digits@);
    let r = string_from_chars(out.as_slice());
    proof {
        if bracket {
            assert(r@ =~= seq!['['] + host@ + seq![']'] + (seq![':'] + decimal(port as nat)));
        } else {
            assert(r@ =~= host@ + (seq![':'] + decimal(port as nat)));
        }
    }
    r
}

/// The UTF-8 bytes of a string.
pub open spec fn utf8_bytes(s: Seq<char>) -> Seq<u8> {
    encode_utf8(s)
}

/// The SOCKS5 UDP request header for a domain target, followed by the payload.
pub open spec fn socks5_udp_packet_spec(target: Seq<char>, payload: Seq<u8>) -> Result<
    Seq<u8>,
    FrameError,
> {
    match split_host_port_spec(target) {
        Err(e) => Err(e),
        Ok((host, port)) => {
            let hb = utf8_bytes(host);
            if hb.len() > 255 {
                Err(FrameError::HostTooLong)
            } else {
                Ok(
                    seq![0u8, 0u8, 0u8, 3u8, hb.len() as u8] + hb + seq![
                        (port / 256) as u8,
                        (port % 256) as u8,
                    ] + payload,
                )
            }
        },
    }
}

pub(crate) fn append_bytes(out: &mut Vec<u8>, bytes: &[u8])
    ensures
        final(out)@ == old(out)@ + bytes@,
{
    let mut i: usize = 0;
    while i < bytes.len()
        invariant
            i <= bytes@.len(),
            out@ == old(out)@ + bytes@.take(i as int),
        decreases bytes@.len() - i,
    {
        out.push(bytes[i]);
        i = i + 1;
        assert(out@ =~= old(out)@ + bytes@.take(i as int));
    }
    assert(bytes@.take(bytes@.len() as int) =~= bytes@);
}

/// Wraps a DNS message in the SOCKS5 UDP header addressed to `target` (`host:port`).
pub fn socks5_udp_packet(target: &str, payload: &[u8]) -> (r: Result<Vec<u8>, FrameError>)
    ensures
        match r {
            Ok(p) => socks5_udp_packet_spec(target@, payload@) == Ok::<Seq<u8>, FrameError>(p@),
            Err(e) => socks5_udp_packet_spec(target@, payload@) == Err::<Seq<u8>, FrameError>(e),
        },
{
    let (host, port) = match split_host_port(target) {
        Ok(parts) => parts,
        Err(e) => {
            return Err(e);
        },
    };
    let host_bytes = host.as_str().as_bytes();
    if host_bytes.len() > 255 {
        return Err(FrameError::HostTooLong);
    }
    let mut packet: Vec<u8> = Vec::new();
    packet.push(0);
    packet.push(0);
    packet.push(0);
    packet.push(3);
    packet.push(host_bytes.len() as u8);
    append_bytes(&mut packet, host_bytes);
    packet.push((port / 256) as u8);
    packet.push((port % 256) as u8);
    append_bytes(&mut packet, payload);
    assert(packet@ =~= seq![0u8, 0u8, 0u8, 3u8, host_bytes@.len() as u8] + host_bytes@ + seq![
        (port / 256) as u8,
        (port % 256) as u8,
    ] + payload@);
    Ok(packet)
}

/// The DNS message inside a SOCKS5 UDP reply.
pub open spec fn socks5_udp_payload_spec(packet: Seq<u8>) -> Result<Seq<u8>, FrameError> {
    if packet.len() < 7 {
        Err(FrameError::UdpResponseTooShort)
    } else if packet[0] != 0 || packet[1] != 0 || packet[2] != 0 {
        Err(FrameError::UdpFragmented)
    } else {
        let addr = if packet[3] == 1 {
            Some(8int)
        } else if packet[3] == 3 {
            Some(5 + packet[4] as int)
        } else if packet[3] == 4 {
            Some(20int)
        } else {
            None
        };
        match addr {
            None => Err(FrameError::UdpUnsupportedAddressType),
            Some(a) => if a + 2 > packet.len() {
                Err(FrameError::UdpAddressTruncated)
            } else {
                Ok(packet.skip(a + 2))
            },
        }
    }
}

pub fn parse_socks5_udp_payload(packet: &[u8]) -> (r: Result<Vec<u8>, FrameError>)
    ensures
        match r {
            Ok(p) => socks5_udp_payload_spec(packet@) == Ok::<Seq<u8>, FrameError>(p@),
            Err(e) => socks5_udp_payload_spec(packet@) == Err::<Seq<u8>, FrameError>(e),
        },
{
    let n = packet.len();
    if n < 7 {
        return Err(FrameError::UdpResponseTooShort);
    }
    if packet[0] != 0 || packet[1] != 0 || packet[2] != 0 {
        return Err(FrameError::UdpFragmented);
    }
    let addr: usize = if packet[3] == 1 {
        8
    } else if packet[3] == 3 {
        5 + packet[4] as usize
    } else if packet[3] == 4 {
        20
    } else {
        return Err(FrameError::UdpUnsupportedAddressType);
    };
    if addr + 2 > n {
        return Err(FrameError::UdpAddressTruncated);
    }
    let mut out: Vec<u8> = Vec::new();
    let mut i = addr + 2;
    while i < n
        invariant
            n == packet@.len(),
            addr + 2 <= i <= n,
            out@ == packet@.subrange(addr + 2, i as int),
        decreases n - i,
    {
        out.push(packet[i]);
        i = i + 1;
        assert(out@ =~= packet@.subrange(addr + 2, i as int));
    }
    assert(out@ =~= packet@.skip(addr + 2));
    Ok(out)
}

/// Reading back a SOCKS5 UDP packet that this library built gives the payload it wrapped.
pub proof fn law_socks5_udp_round_trip(target: Seq<char>, payload: Seq<u8>)
    requires
        socks5_udp_packet_spec(target, payload) is Ok,
    ensures
        socks5_udp_payload_spec(socks5_udp_packet_spec(target, payload)->Ok_0) == Ok::<
            Seq<u8>,
            FrameError,
        >(payload),
{
    let (host, port) = split_host_port_spec(target)->Ok_0;
    let hb = utf8_bytes(host);
    let p = socks5_udp_packet_spec(target, payload)->Ok_0;
    let head = seq![0u8, 0u8, 0u8, 3u8, hb.len() as u8] + hb + seq![
        (port / 256) as u8,
        (port % 256) as u8,
    ];
    assert(p == head + payload);
    assert(p[3] == 3);
    assert(p[4] == hb.len() as u8);
    assert(p.skip((5 + hb.len() + 2) as int) =~= payload);
}

/// The message with its two-byte big-endian length in front (DNS over TCP and TLS).
pub open spec fn len_prefixed_spec(msg: Seq<u8>) -> Result<Seq<u8>, FrameError> {
    if msg.len() > 65535 {
        Err(FrameError::MessageTooLarge)
    } else {
        Ok(seq![(msg.len() / 256) as u8, (msg.len() % 256) as u8] + msg)
    }
}

/// The message a length-prefixed frame carries; bytes past the stated length are ignored.
pub open spec fn parse_len_prefixed_spec(raw: Seq<u8>) -> Result<Seq<u8>, FrameError> {
    if raw.len() < 2 {
        Err(FrameError::PrefixedTooShort)
    } else if raw.len() < u16_at(raw, 0) + 2 {
        Err(FrameError::PrefixedTruncated)
    } else {
        Ok(raw.subrange(2, 2 + u16_at(raw, 0)))
    }
}

pub fn len_prefixed_dns_message(req: &[u8]) -> (r: Result<Vec<u8>, FrameError>)
    ensures
        match r {
            Ok(out) => len_prefixed_spec(req@) == Ok::<Seq<u8>, FrameError>(out@),
            Err(e) => len_prefixed_spec(req@) == Err::<Seq<u8>, FrameError>(e),
        },
{
    let n = req.len();
    if n > 65535 {
        return Err(FrameError::MessageTooLarge);
    }
    let mut out: Vec<u8> = Vec::new();
    out.push((n / 256) as u8);
    out.push((n % 256) as u8);
    append_bytes(&mut out, req);
    assert(out@ =~= seq![(req@.len() / 256) as u8, (req@.len() % 256) as u8] + req@);
    Ok(out)
}

pub fn parse_len_prefixed_dns_message(raw: &[u8]) -> (r: Result<Vec<u8>, FrameError>)
    ensures
        match r {
            Ok(out) => parse_len_prefixed_spec(raw@) == Ok::<Seq<u8>, FrameError>(out@),
            Err(e) => parse_len_prefixed_spec(raw@) == Err::<Seq<u8>, FrameError>(e),
        },
{
    let n = raw.len();
    if n < 2 {
        return Err(FrameError::PrefixedTooShort);
    }
    let len = crate::wire::read_u16(raw, 0) as usize;
    if n - 2 < len {
        return Err(FrameError::PrefixedTruncated);
    }
    let mut out: Vec<u8> = Vec::new();
    let mut i: usize = 2;
    while i < 2 + len
        invariant
            n == raw@.len(),
            2 + len <= n,
            2 <= i <= 2 + len,
            out@ == raw@.subrange(2, i as int),
        decreases 2 + len - i,
    {
        out.push(raw[i]);
        i = i + 1;
        assert(out@ =~= raw@.subrange(2, i as int));
    }
    Ok(out)
}

/// Framing a message and reading the frame back gives the message.
pub proof fn law_len_prefixed_round_trip(msg: Seq<u8>)
    requires
        msg.len() <= 65535,
    ensures
        parse_len_prefixed_spec(len_prefixed_spec(msg)->Ok_0) == Ok::<Seq<u8>, FrameError>(msg),
{
    let framed = len_prefixed_spec(msg)->Ok_0;
    assert(framed[0] == (msg.len() / 256) as u8);
    assert(framed[1] == (msg.len() % 256) as u8);
    assert(u16_at(framed, 0) == msg.len());
    assert(framed.subrange(2, (2 + msg.len()) as int) =~= msg);
}

/// Whether `\r\n\r\n` starts at position `i`.
pub open spec fn blank_line_at(buffer: Seq<u8>, i: int) -> bool {
    0 <= i && i + 4 <= buffer.len() && buffer[i] == 13 && buffer[i + 1] == 10 && buffer[i + 2]
        == 13 && buffer[i + 3] == 10
}

/// The position of the first `\r\n\r\n`, which ends an HTTP header, if the buffer holds one.
pub open spec fn header_end_spec(buffer: Seq<u8>) -> Option<int> {
    if exists|i: int| #[trigger] blank_line_at(buffer, i) {
        Some(
            choose|i: int|
                #[trigger] blank_line_at(buffer, i) && forall|j: int|
                    0 <= j < i ==> !#[trigger] blank_line_at(buffer, j),
        )
    } else {
        None
    }
}

proof fn lemma_header_end(buffer: Seq<u8>, i: int)
    requires
        blank_line_at(buffer, i),
        forall|j: int| 0 <= j < i ==> !#[trigger] blank_line_at(buffer, j),
    ensures
        header_end_spec(buffer) == Some(i),
{
    let k = choose|k: int|
        #[trigger] blank_line_at(buffer, k) && forall|j: int|
            0 <= j < k ==> !#[trigger] blank_line_at(buffer, j);
    assert(blank_line_at(buffer, k));
    if k < i {
        assert(!blank_line_at(buffer, k));
    }
    if i < k {
        assert(!blank_line_at(buffer, i));
    }
}

pub fn find_header_end(buffer: &[u8]) -> (r: Option<usize>)
    ensures
        match r {
            Some(i) => header_end_spec(buffer@) == Some(i as int),
            None => header_end_spec(buffer@) is None,
        },
{
    let n = buffer.len();
    if n < 4 {
        assert forall|i: int| !#[trigger] blank_line_at(buffer@, i) by {}
        return None;
    }
    let mut i: usize = 0;
    while i <= n - 4
        invariant
            n == buffer@.len(),
            n >= 4,
            i <= n - 3,
            forall|j: int| 0 <= j < i ==> !#[trigger] blank_line_at(buffer@, j),
        decreases n - i,
    {
        if buffer[i] == 13 && buffer[i + 1] == 10 && buffer[i + 2] == 13 && buffer[i + 3] == 10 {
            proof {
                lemma_header_end(buffer@, i as int);
            }
            return Some(i);
        }
        i = i + 1;
    }
    assert forall|j: int| !#[trigger] blank_line_at(buffer@, j) by {
        if 0 <= j && j + 4 <= buffer@.len() {
            assert(j < i);
        }
    }
    None
}

/// What `base64::engine::general_purpose::URL_SAFE_NO_PAD.decode` returns for a text.
pub uninterp spec fn base64_url_no_pad(text: Seq<char>) -> Option<Seq<u8>>;

/// What `base64::engine::general_purpose::URL_SAFE.decode` returns for a text.
pub uninterp spec fn base64_url_padded(text: Seq<char>) -> Option<Seq<u8>>;

/// `URL_SAFE_NO_PAD.decode` of the base64 crate: the bytes of an unpadded URL-safe
/// base64 text, or `None` when the crate rejects it. The result is the named function of
/// the text; nothing more is claimed of it.
#[verifier::external_body]
fn decode_base64_url_no_pad(text: &str) -> (r: Option<Vec<u8>>)
    ensures
        match r {
            Some(b) => base64_url_no_pad(text@) == Some(b@),
            None => base64_url_no_pad(text@) is None,
        },
{
    base64::engine::general_purpose::URL_SAFE_NO_PAD.decode(text).ok()
}

/// `URL_SAFE.decode` of the base64 crate: the bytes of a padded URL-safe base64 text, or
/// `None` when the crate rejects it. The result is the named function of the text.
#[verifier::external_body]
fn decode_base64_url_padded(text: &str) -> (r: Option<Vec<u8>>)
    ensures
        match r {
            Some(b) => base64_url_padded(text@) == Some(b@),
            None => base64_url_padded(text@) is None,
        },
{
    base64::engine::general_purpose::URL_SAFE.decode(text).ok()
}

/// The `dns` value of a query, decoded: parts are read in order; a part without `=` ends
/// the search with nothing; the first `dns=` part is decoded, unpadded first.
pub open spec fn doh_query_payload(parts: Seq<Seq<char>>) -> Option<Seq<u8>>
    decreases parts.len(),
{
    if parts.len() == 0 {
        None
    } else {
        match split_once(parts[0], '=') {
            None => None,
            Some((name, value)) => if name == seq!['d', 'n', 's'] {
                match base64_url_no_pad(value) {
                    Some(b) => Some(b),
                    None => base64_url_padded(value),
                }
            } else {
                doh_query_payload(parts.drop_first())
            },
        }
    }
}

/// The DNS message a DoH GET request carries in `?dns=` when the path matches.
pub open spec fn doh_get_payload_spec(target: Seq<char>, expected_path: Seq<char>) -> Option<
    Seq<u8>,
> {
    match split_once(target, '?') {
        None => None,
        Some((path, query)) => if path != expected_path {
            None
        } else {
            doh_query_payload(split_all(query, '&'))
        },
    }
}

pub fn doh_get_payload(target: &str, expected_path: &str) -> (r: Option<Vec<u8>>)
    ensures
        match r {
            Some(b) => doh_get_payload_spec(target@, expected_path@) == Some(b@),
            None => doh_get_payload_spec(target@, expected_path@) is None,
        },
{
    let t = chars_of(target);
    let expected = chars_of(expected_path);
    let (path, query) = match split_once_chars(&t, '?') {
        Some(parts) => parts,
        None => {
            return None;
        },
    };
    if !crate::text::chars_eq(&path, &expected) {
        return None;
    }
    let parts = split_chars(&query, '&');
    let ghost all = parts@.map_values(|x: Vec<char>| x@);
    let mut dns: Vec<char> = Vec::new();
    dns.push('d');
    dns.push('n');
    dns.push('s');
    assert(dns@ =~= seq!['d', 'n', 's']);
    assert(all.skip(0) =~= all);
    let mut i: usize = 0;
    while i < parts.len()
        invariant
            i <= parts@.len(),
            all == parts@.map_values(|x: Vec<char>| x@),
            dns@ == seq!['d', 'n', 's'],
            doh_get_payload_spec(target@, expected_path@) == doh_query_payload(all),
            doh_query_payload(all) == doh_query_payload(all.skip(i as int)),
        decreases parts@.len() - i,
    {
        let ghost rest = all.skip(i as int);
        assert(rest[0] == parts@[i as int]@);
        assert(rest.drop_first() =~= all.skip(i + 1));
        let (name, value) = match split_once_chars(&parts[i], '=') {
            Some(kv) => kv,
            None => {
                return None;
            },
        };
        if crate::text::chars_eq(&name, &dns) {
            let text = string_from_chars(value.as_slice());
            match decode_base64_url_no_pad(text.as_str()) {
                Some(b) => {
                    return Some(b);
                },
                None => {
                    return decode_base64_url_padded(text.as_str());
                },
            }
        }
        i = i + 1;
    }
    None
}

} // verus!
