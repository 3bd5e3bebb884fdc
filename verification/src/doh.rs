//! The DNS-over-HTTPS listener's reading of an HTTP request: the request line and the
//! `Content-Length` header, which request carries a DNS query and where, the checks
//! that answer 400, 405 or 413, and the response heads it writes.
use crate::text::{
    append_str, chars_of, decimal, decimal_string, digits_value, is_digit, lemma_digits_value_monotone,
    unsigned_digits, is_space, lower_seq, occurs_at, occurs_at_exec,
    slice_chars, split_once, split_once_chars, string_from_chars, trim, trim_chars,
};
use crate::upstream::{doh_get_payload, doh_get_payload_spec, utf8_bytes};
use crate::wire::{lossy_text, utf8_lossy, DNS_WIRE_LIMIT};
use vstd::prelude::*;

verus! {

/// The most header bytes read before a request is refused as too large.
pub const DOH_HEADER_LIMIT: usize = 65535 + 8192;

/// The pieces of `s` between the separators `sep`, scanning from `i` with the current
/// piece starting at `start` (`str::split` with a text pattern).
pub open spec fn split_text_from(s: Seq<char>, sep: Seq<char>, start: int, i: int) -> Seq<Seq<char>>
    decreases s.len() - i,
{
    if sep.len() == 0 || i < start || start < 0 || i + sep.len() > s.len() {
        seq![s.subrange(start, s.len() as int)]
    } else if occurs_at(s, sep, i) {
        seq![s.subrange(start, i)] + split_text_from(s, sep, i + sep.len(), i + sep.len())
    } else {
        split_text_from(s, sep, start, i + 1)
    }
}

/// The lines of an HTTP head: its pieces between `\r\n`s.
pub open spec fn head_lines(h: Seq<char>) -> Seq<Seq<char>> {
    split_text_from(h, seq!['\r', '\n'], 0, 0)
}

/// The position just past the white space that starts at `i`.
pub open spec fn skip_space(s: Seq<char>, i: int) -> int
    decreases s.len() - i,
{
    if 0 <= i < s.len() && is_space(s[i]) {
        skip_space(s, i + 1)
    } else {
        i
    }
}

/// The position of the first white space at or after `i`, or the end.
pub open spec fn word_end(s: Seq<char>, i: int) -> int
    decreases s.len() - i,
{
    if 0 <= i < s.len() && !is_space(s[i]) {
        word_end(s, i + 1)
    } else {
        i
    }
}

/// The first two white-space-separated words of a line (empty when missing), as
/// `split_whitespace` gives them.
pub open spec fn first_two_words(l: Seq<char>) -> (Seq<char>, Seq<char>) {
    let a0 = skip_space(l, 0);
    let a1 = word_end(l, a0);
    let b0 = skip_space(l, a1);
    let b1 = word_end(l, b0);
    (l.subrange(a0, a1), l.subrange(b0, b1))
}

/// What `<usize as FromStr>::from_str` returns: an optional `+` then decimal digits
/// whose value fits.
pub open spec fn parse_usize_spec(s: Seq<char>) -> Option<usize> {
    let d = unsigned_digits(s);
    if d.len() > 0 && (forall|i: int| 0 <= i < d.len() ==> is_digit(#[trigger] d[i])) && digits_value(d)
        <= usize::MAX {
        Some(digits_value(d) as usize)
    } else {
        None
    }
}

/// The `Content-Length` a header line gives: the name before its first `:` is
/// `content-length` ignoring ASCII case, and the trimmed value reads as a number.
pub open spec fn length_header(line: Seq<char>) -> Option<usize> {
    match split_once(line, ':') {
        Some((name, value)) => if lower_seq(name) == "content-length"@ {
            parse_usize_spec(trim(value))
        } else {
            None
        },
        None => None,
    }
}

/// The first `Content-Length` the header lines give, or 0.
pub open spec fn content_length_of(lines: Seq<Seq<char>>) -> usize
    decreases lines.len(),
{
    if lines.len() == 0 {
        0
    } else {
        match length_header(lines[0]) {
            Some(n) => n,
            None => content_length_of(lines.drop_first()),
        }
    }
}

/// The parts of a request head the listener reads.
#[derive(Clone, Debug)]
pub struct DohHead {
    pub method: String,
    pub target: String,
    pub content_length: usize,
}

/// A request head as values.
pub struct DohHeadView {
    pub method: Seq<char>,
    pub target: Seq<char>,
    pub content_length: usize,
}

impl View for DohHead {
    type V = DohHeadView;

    open spec fn view(&self) -> DohHeadView {
        DohHeadView { method: self.method@, target: self.target@, content_length: self.content_length }
    }
}

/// The method, target and content length of a head's text.
pub open spec fn doh_head_spec(h: Seq<char>) -> DohHeadView {
    let lines = head_lines(h);
    let (method, target) = first_two_words(lines[0]);
    DohHeadView { method, target, content_length: content_length_of(lines.drop_first()) }
}

fn split_crlf(s: &Vec<char>) -> (r: Vec<Vec<char>>)
    ensures
        r@.map_values(|x: Vec<char>| x@) == split_text_from(s@, seq!['\r', '\n'], 0, 0),
        r@.len() > 0,
{
    let mut sep: Vec<char> = Vec::new();
    sep.push('\r');
    sep.push('\n');
    let ghost sp = sep@;
    assert(sp =~= seq!['\r', '\n']);
    let mut out: Vec<Vec<char>> = Vec::new();
    let mut start: usize = 0;
    let mut i: usize = 0;
    while s.len() - i >= 2
        invariant
            sp == sep@,
            sp == seq!['\r', '\n'],
            start <= i,
            i <= s@.len(),
            out@.map_values(|x: Vec<char>| x@) + split_text_from(s@, sp, start as int, i as int) == split_text_from(
                s@,
                sp,
                0,
                0,
            ),
        decreases s@.len() - i,
    {
        if occurs_at_exec(s, &sep, i) {
            let piece = slice_chars(s, start, i);
            let ghost before = out@.map_values(|x: Vec<char>| x@);
            out.push(piece);
            assert(out@.map_values(|x: Vec<char>| x@) =~= before.push(s@.subrange(start as int, i as int)));
            assert(before.push(s@.subrange(start as int, i as int)) + split_text_from(s@, sp, i + 2, i + 2) =~= before
                + split_text_from(s@, sp, start as int, i as int));
            i = i + 2;
            start = i;
        } else {
            i = i + 1;
        }
    }
    let last = slice_chars(s, start, s.len());
    let ghost before = out@.map_values(|x: Vec<char>| x@);
    out.push(last);
    assert(out@.map_values(|x: Vec<char>| x@) =~= before + split_text_from(s@, sp, start as int, i as int));
    out
}

fn skip_space_exec(s: &Vec<char>, i: usize) -> (r: usize)
    requires
        i <= s@.len(),
    ensures
        r == skip_space(s@, i as int),
        i <= r <= s@.len(),
{
    let mut j = i;
    while j < s.len() && crate::text::is_space_char(s[j])
        invariant
            i <= j <= s@.len(),
            skip_space(s@, i as int) == skip_space(s@, j as int),
        decreases s@.len() - j,
    {
        j = j + 1;
    }
    j
}

fn word_end_exec(s: &Vec<char>, i: usize) -> (r: usize)
    requires
        i <= s@.len(),
    ensures
        r == word_end(s@, i as int),
        i <= r <= s@.len(),
{
    let mut j = i;
    while j < s.len() && !crate::text::is_space_char(s[j])
        invariant
            i <= j <= s@.len(),
            word_end(s@, i as int) == word_end(s@, j as int),
        decreases s@.len() - j,
    {
        j = j + 1;
    }
    j
}

fn parse_usize(v: &Vec<char>) -> (r: Option<usize>)
    ensures
        r == parse_usize_spec(v@),
{
    let start: usize = if v.len() > 0 && v[0] == '+' { 1 } else { 0 };
    let ghost d = v@.skip(start as int);
    proof {
        if start == 1 {
            assert(d =~= v@.drop_first());
        } else {
            assert(d =~= v@);
        }
        assert(d == unsigned_digits(v@));
    }
    if start == v.len() {
        return None;
    }
    let mut value: u128 = 0;
    let mut i = start;
    while i < v.len()
        invariant
            start <= i <= v@.len(),
            d == v@.skip(start as int),
            d == unsigned_digits(v@),
            d.len() > 0,
            forall|j: int| 0 <= j < i - start ==> is_digit(#[trigger] d[j]),
            value == digits_value(d.take(i - start)),
            value <= usize::MAX,
        decreases v@.len() - i,
    {
        let c = v[i];
        if !('0' <= c && c <= '9') {
            proof {
                let k = (i - start) as int;
                assert(d[k] == v@[i as int]);
                assert(!is_digit(d[k]));
                assert(!(forall|j: int| 0 <= j < d.len() ==> is_digit(#[trigger] d[j])));
            }
            return None;
        }
        let ghost k = i - start;
        assert(d.take(k + 1).drop_last() =~= d.take(k));
        assert(d.take(k + 1).last() == c);
        let next = value * 10 + ((c as u32) - ('0' as u32)) as u128;
        if next > usize::MAX as u128 {
            proof {
                assert(forall|j: int| 0 <= j < k + 1 ==> is_digit(#[trigger] d.take(k + 1)[j]));
                if forall|j: int| 0 <= j < d.len() ==> is_digit(#[trigger] d[j]) {
                    lemma_digits_value_monotone(d, k + 1);
                    assert(digits_value(d) > usize::MAX);
                }
            }
            return None;
        }
        value = next;
        i = i + 1;
    }
    assert(d.take(d.len() as int) =~= d);
    Some(value as usize)
}

fn length_header_exec(line: &Vec<char>) -> (r: Option<usize>)
    ensures
        r == length_header(line@),
{
    match split_once_chars(line, ':') {
        None => None,
        Some((name, value)) => {
            let lname = crate::text::lower_chars(&name);
            let want = chars_of("content-length");
            if crate::text::chars_eq(&lname, &want) {
                parse_usize(&trim_chars(&value))
            } else {
                None
            }
        },
    }
}

/// Reads the method, the target and the `Content-Length` of a request head (the bytes
/// before the blank line, read as UTF-8 with invalid sequences replaced).
pub fn parse_doh_head(head: &[u8]) -> (r: DohHead)
    ensures
        r@ == doh_head_spec(lossy_text(head@)),
{
    let text = utf8_lossy(head);
    let h = chars_of(text.as_str());
    let lines = split_crlf(&h);
    let ghost ls = lines@.map_values(|x: Vec<char>| x@);
    let first = &lines[0];
    let a0 = skip_space_exec(first, 0);
    let a1 = word_end_exec(first, a0);
    let b0 = skip_space_exec(first, a1);
    let b1 = word_end_exec(first, b0);
    let method = string_from_chars(slice_chars(first, a0, a1).as_slice());
    let target = string_from_chars(slice_chars(first, b0, b1).as_slice());
    assert(ls[0] == first@);
    assert(method@ == first_two_words(ls[0]).0);
    assert(target@ == first_two_words(ls[0]).1);
    assert(ls.drop_first() =~= ls.skip(1));
    let mut k: usize = 1;
    while k < lines.len()
        invariant
            1 <= k <= lines@.len(),
            ls == lines@.map_values(|x: Vec<char>| x@),
            ls == head_lines(lossy_text(head@)),
            method@ == first_two_words(ls[0]).0,
            target@ == first_two_words(ls[0]).1,
            content_length_of(ls.drop_first()) == content_length_of(ls.skip(k as int)),
        decreases lines@.len() - k,
    {
        assert(ls.skip(k as int)[0] == lines@[k as int]@);
        match length_header_exec(&lines[k]) {
            Some(n) => {
                assert(content_length_of(ls.skip(k as int)) == n);
                return DohHead { method, target, content_length: n };
            },
            None => {},
        }
        assert(ls.skip(k as int).drop_first() =~= ls.skip(k + 1));
        k = k + 1;
    }
    assert(ls.skip(k as int) =~= Seq::<Seq<char>>::empty());
    DohHead { method, target, content_length: 0 }
}

/// What a request asks for: a GET with its `dns` parameter decoded (or none), a POST
/// whose body must be read, or a method that is not allowed.
#[derive(Clone, Debug)]
pub enum DohRoute {
    Payload(Option<Vec<u8>>),
    ReadBody,
    MethodNotAllowed,
}

/// The path of a target: the text before its first `?`.
pub open spec fn target_path(target: Seq<char>) -> Seq<char> {
    match split_once(target, '?') {
        Some((p, _)) => p,
        None => target,
    }
}

/// What a request asks for: GET carries its query in the target, POST in its body when
/// the target's path is the served path (else it carries none), anything else is not
/// allowed.
pub open spec fn doh_route_spec(head: DohHeadView, expected_path: Seq<char>) -> Option<Option<Option<Seq<u8>>>> {
    if head.method == "GET"@ {
        Some(Some(doh_get_payload_spec(head.target, expected_path)))
    } else if head.method == "POST"@ {
        if target_path(head.target) == expected_path {
            Some(None)
        } else {
            Some(Some(None))
        }
    } else {
        None
    }
}

/// What a request asks for.
pub fn doh_route(head: &DohHead, expected_path: &str) -> (r: DohRoute)
    ensures
        match (r, doh_route_spec(head@, expected_path@)) {
            (DohRoute::Payload(Some(p)), Some(Some(Some(q)))) => p@ == q,
            (DohRoute::Payload(None), Some(Some(None))) => true,
            (DohRoute::ReadBody, Some(None)) => true,
            (DohRoute::MethodNotAllowed, None) => true,
            _ => false,
        },
{
    if crate::text::str_eq(head.method.as_str(), "GET") {
        DohRoute::Payload(doh_get_payload(head.target.as_str(), expected_path))
    } else if crate::text::str_eq(head.method.as_str(), "POST") {
        let t = chars_of(head.target.as_str());
        let path = match split_once_chars(&t, '?') {
            Some((p, _)) => p,
            None => t,
        };
        let want = chars_of(expected_path);
        if crate::text::chars_eq(&path, &want) {
            DohRoute::ReadBody
        } else {
            DohRoute::Payload(None)
        }
    } else {
        DohRoute::MethodNotAllowed
    }
}

/// The body of a POST: the bytes after the blank line, at most `content_length` of them.
pub fn doh_post_body(buffer: &[u8], header_end: usize, content_length: usize) -> (r: Vec<u8>)
    requires
        header_end + 4 <= buffer@.len(),
        header_end + 4 + content_length <= usize::MAX,
    ensures
        r@ == buffer@.subrange(
            header_end + 4,
            if buffer@.len() < header_end + 4 + content_length {
                buffer@.len() as int
            } else {
                header_end + 4 + content_length
            },
        ),
{
    let start = header_end + 4;
    let end = if buffer.len() < start + content_length {
        buffer.len()
    } else {
        start + content_length
    };
    let mut r: Vec<u8> = Vec::new();
    let mut i = start;
    while i < end
        invariant
            start <= i <= end <= buffer@.len(),
            r@ == buffer@.subrange(start as int, i as int),
        decreases end - i,
    {
        r.push(buffer[i]);
        i = i + 1;
        assert(r@ =~= buffer@.subrange(start as int, i as int));
    }
    r
}

/// How the listener answers a request that carries `payload` (or none): 400 without a
/// query, 413 when the query is larger than a DNS message can be, else the query is
/// resolved.
#[derive(Clone, Copy, Debug, PartialEq, Eq, Structural)]
pub enum DohVerdict {
    BadRequest,
    PayloadTooLarge,
    Resolve,
}

/// How the listener answers a request that carries `payload`.
pub fn doh_verdict(payload: &Option<Vec<u8>>) -> (v: DohVerdict)
    ensures
        v == match payload {
            None => DohVerdict::BadRequest,
            Some(p) => if p@.len() > DNS_WIRE_LIMIT {
                DohVerdict::PayloadTooLarge
            } else {
                DohVerdict::Resolve
            },
        },
{
    match payload {
        None => DohVerdict::BadRequest,
        Some(p) => if p.len() > DNS_WIRE_LIMIT {
            DohVerdict::PayloadTooLarge
        } else {
            DohVerdict::Resolve
        },
    }
}

/// The head of a response: status line, content type, length and `Connection: close`.
pub open spec fn response_head_spec(status: u16, reason: Seq<char>, content_type: Seq<char>, length: usize) -> Seq<char> {
    "HTTP/1.1 "@ + decimal(status as nat) + seq![' '] + reason + "\r\nContent-Type: "@ + content_type
        + "\r\nContent-Length: "@ + decimal(length as nat) + "\r\nConnection: close\r\n\r\n"@
}

/// The bytes of a response: its head, then the body.
pub fn http_response(status: u16, reason: &str, content_type: &str, body: &[u8]) -> (r: Vec<u8>)
    ensures
        r@ == utf8_bytes(response_head_spec(status, reason@, content_type@, body@.len() as usize)) + body@,
{
    let mut head: Vec<char> = Vec::new();
    append_str(&mut head, "HTTP/1.1 ");
    append_str(&mut head, decimal_string(status as u64).as_str());
    head.push(' ');
    append_str(&mut head, reason);
    append_str(&mut head, "\r\nContent-Type: ");
    append_str(&mut head, content_type);
    append_str(&mut head, "\r\nContent-Length: ");
    append_str(&mut head, decimal_string(body.len() as u64).as_str());
    append_str(&mut head, "\r\nConnection: close\r\n\r\n");
    let text = string_from_chars(head.as_slice());
    assert(text@ =~= response_head_spec(status, reason@, content_type@, body@.len() as usize));
    let mut out: Vec<u8> = Vec::new();
    crate::upstream::append_bytes(&mut out, text.as_str().as_bytes());
    crate::upstream::append_bytes(&mut out, body);
    out
}

/// A DNS answer over HTTPS: 200 with the `application/dns-message` body.
pub fn doh_response(body: &[u8]) -> (r: Vec<u8>)
    ensures
        r@ == utf8_bytes(response_head_spec(200, "OK"@, "application/dns-message"@, body@.len() as usize)) + body@,
{
    http_response(200, "OK", "application/dns-message", body)
}

/// A plain-text error response.
pub fn http_error_response(status: u16, reason: &str, body: &[u8]) -> (r: Vec<u8>)
    ensures
        r@ == utf8_bytes(response_head_spec(status, reason@, "text/plain; charset=utf-8"@, body@.len() as usize))
            + body@,
{
    http_response(status, reason, "text/plain; charset=utf-8", body)
}

} // verus!
