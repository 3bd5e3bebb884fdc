//! The DNS wire format, read and patched byte by byte: header fields, question names
//! with compression pointers, the offsets of every resource record TTL, and TTL
//! rewriting for cached responses.
use crate::text::{
    chars_of, lower_chars, lower_seq, string_from_chars, trim, trim_chars, trim_end_char,
    trim_end_char_chars,
};
use crate::text::{debug_quoted, debug_text};
use vstd::prelude::*;
use vstd::utf8::*;

verus! {

pub const TYPE_A: u16 = 1;

pub const TYPE_NS: u16 = 2;

pub const TYPE_CNAME: u16 = 5;

pub const TYPE_SOA: u16 = 6;

pub const TYPE_MX: u16 = 15;

pub const TYPE_TXT: u16 = 16;

pub const TYPE_AAAA: u16 = 28;

pub const TYPE_HTTPS: u16 = 65;

pub const CLASS_IN: u16 = 1;

pub const RCODE_SUCCESS: u8 = 0;

pub const RCODE_SERVER_FAILURE: u8 = 2;

pub const RCODE_NAME_ERROR: u8 = 3;

pub const RCODE_REFUSED: u8 = 5;

pub const DNS_WIRE_LIMIT: usize = 65535;

/// Why a DNS message could not be read.
#[derive(Clone, Debug, PartialEq, Eq)]
pub enum WireError {
    QueryTooShort,
    MultipleQuestions,
    NameTruncated,
    PointerTruncated,
    PointerOutOfBounds,
    PointerLoop,
    UnsupportedLabelType,
    LabelTruncated,
    LabelNotUtf8,
    QuestionTruncated,
    NameRejected,
    ResponseTooShort,
    RrHeaderTruncated,
    RrDataTruncated,
    TrailingBytes,
    TtlTruncated,
    TtlCountMismatch,
    InvalidIdna,
    UnsupportedRecordType(String),
}

/// The human-readable text of an error.
pub open spec fn wire_error_text(e: WireError) -> Seq<char> {
    match e {
        WireError::QueryTooShort => "dns query is too short"@,
        WireError::MultipleQuestions => "resolver only supports single-question requests"@,
        WireError::NameTruncated => "dns name is truncated"@,
        WireError::PointerTruncated => "dns compression pointer is truncated"@,
        WireError::PointerOutOfBounds => "dns compression pointer is out of bounds"@,
        WireError::PointerLoop => "dns compression pointer loop detected"@,
        WireError::UnsupportedLabelType => "unsupported dns name label type"@,
        WireError::LabelTruncated => "dns name label is truncated"@,
        WireError::LabelNotUtf8 => "dns name label is not valid utf-8"@,
        WireError::QuestionTruncated => "dns question is truncated"@,
        WireError::NameRejected => "decode dns question name"@,
        WireError::ResponseTooShort => "dns response is too short"@,
        WireError::RrHeaderTruncated => "dns rr header is truncated"@,
        WireError::RrDataTruncated => "dns rr data is truncated"@,
        WireError::TrailingBytes => "dns response contains trailing bytes"@,
        WireError::TtlTruncated => "dns rr ttl is truncated"@,
        WireError::TtlCountMismatch => "dns cached ttl count mismatch"@,
        WireError::InvalidIdna => "invalid IDNA domain"@,
        WireError::UnsupportedRecordType(v) => "unsupported DNS record type "@ + debug_quoted(v@),
    }
}

impl WireError {
    /// The human-readable text of the error.
    pub fn message(&self) -> (m: String)
        ensures
            m@ == wire_error_text(*self),
    {
        match self {
            WireError::QueryTooShort => String::from_str("dns query is too short"),
            WireError::MultipleQuestions => String::from_str(
                "resolver only supports single-question requests",
            ),
            WireError::NameTruncated => String::from_str("dns name is truncated"),
            WireError::PointerTruncated => String::from_str("dns compression pointer is truncated"),
            WireError::PointerOutOfBounds => String::from_str(
                "dns compression pointer is out of bounds",
            ),
            WireError::PointerLoop => String::from_str("dns compression pointer loop detected"),
            WireError::UnsupportedLabelType => String::from_str("unsupported dns name label type"),
            WireError::LabelTruncated => String::from_str("dns name label is truncated"),
            WireError::LabelNotUtf8 => String::from_str("dns name label is not valid utf-8"),
            WireError::QuestionTruncated => String::from_str("dns question is truncated"),
            WireError::NameRejected => String::from_str("decode dns question name"),
            WireError::ResponseTooShort => String::from_str("dns response is too short"),
            WireError::RrHeaderTruncated => String::from_str("dns rr header is truncated"),
            WireError::RrDataTruncated => String::from_str("dns rr data is truncated"),
            WireError::TrailingBytes => String::from_str("dns response contains trailing bytes"),
            WireError::TtlTruncated => String::from_str("dns rr ttl is truncated"),
            WireError::TtlCountMismatch => String::from_str("dns cached ttl count mismatch"),
            WireError::InvalidIdna => String::from_str("invalid IDNA domain"),
            WireError::UnsupportedRecordType(value) => {
                let head = String::from_str("unsupported DNS record type ");
                head.concat(debug_text(value.as_str()).as_str())
            },
        }
    }
}

/// A big-endian 16-bit field.
pub open spec fn be16(hi: u8, lo: u8) -> int {
    hi as int * 256 + lo as int
}

/// The big-endian 16-bit field of `msg` at `at`.
pub open spec fn u16_at(msg: Seq<u8>, at: int) -> int {
    be16(msg[at], msg[at + 1])
}

/// The big-endian 32-bit field of `msg` at `at`.
pub open spec fn u32_at(msg: Seq<u8>, at: int) -> int {
    msg[at] as int * 16777216 + msg[at + 1] as int * 65536 + msg[at + 2] as int * 256
        + msg[at + 3] as int
}

/// The four bytes that encode `v` big-endian.
pub open spec fn be32_bytes(v: u32) -> Seq<u8> {
    seq![
        (v / 16777216) as u8,
        ((v / 65536) % 256) as u8,
        ((v / 256) % 256) as u8,
        (v % 256) as u8,
    ]
}

pub fn read_u16(msg: &[u8], at: usize) -> (r: u16)
    requires
        at + 1 < msg@.len(),
    ensures
        r == u16_at(msg@, at as int),
{
    (msg[at] as u16) * 256 + (msg[at + 1] as u16)
}

pub fn read_u32(msg: &[u8], at: usize) -> (r: u32)
    requires
        at + 3 < msg@.len(),
    ensures
        r == u32_at(msg@, at as int),
{
    (msg[at] as u32) * 16777216 + (msg[at + 1] as u32) * 65536 + (msg[at + 2] as u32) * 256 + (
    msg[at + 3] as u32)
}

pub proof fn lemma_be32_roundtrip(v: u32)
    ensures
        u32_at(be32_bytes(v), 0) == v,
{
    let b = be32_bytes(v);
    assert(b[0] == v / 16777216);
    assert(b[1] == (v / 65536) % 256);
    assert(b[2] == (v / 256) % 256);
    assert(b[3] == v % 256);
    assert((v / 16777216) * 16777216 + ((v / 65536) % 256) * 65536 + ((v / 256) % 256) * 256 + v
        % 256 == v) by (nonlinear_arith);
}

/// The response code in the header, when the header reaches it.
pub open spec fn rcode_spec(msg: Seq<u8>) -> Option<u8> {
    if msg.len() >= 4 {
        Some(msg[3] % 16)
    } else {
        None
    }
}

/// The answer count in the header, when the header reaches it.
pub open spec fn answer_count_spec(msg: Seq<u8>) -> Option<u16> {
    if msg.len() >= 8 {
        Some(u16_at(msg, 6) as u16)
    } else {
        None
    }
}

/// The message id, when the message holds one.
pub open spec fn message_id_spec(msg: Seq<u8>) -> Option<u16> {
    if msg.len() >= 2 {
        Some(u16_at(msg, 0) as u16)
    } else {
        None
    }
}

pub fn rcode(resp: &[u8]) -> (r: Option<u8>)
    ensures
        r == rcode_spec(resp@),
{
    if resp.len() >= 4 {
        Some(resp[3] % 16)
    } else {
        None
    }
}

pub fn answer_count(resp: &[u8]) -> (r: Option<u16>)
    ensures
        r == answer_count_spec(resp@),
{
    if resp.len() >= 8 {
        Some(read_u16(resp, 6))
    } else {
        None
    }
}

pub fn dns_message_id(msg: &[u8]) -> (r: Option<u16>)
    ensures
        r == message_id_spec(msg@),
{
    if msg.len() >= 2 {
        Some(read_u16(msg, 0))
    } else {
        None
    }
}

/// Writes `id` into the first two bytes of a message that is long enough to hold one.
pub fn set_id(resp: &mut [u8], id: u16)
    ensures
        final(resp)@.len() == old(resp)@.len(),
        old(resp)@.len() >= 2 ==> final(resp)@ == old(resp)@.update(0, (id / 256) as u8).update(
            1,
            (id % 256) as u8,
        ),
        old(resp)@.len() < 2 ==> final(resp)@ == old(resp)@,
{
    if resp.len() >= 2 {
        resp[0] = (id / 256) as u8;
        resp[1] = (id % 256) as u8;
    }
}

/// How an upstream reply is treated by the ordered fallback.
#[derive(Clone, Copy, Debug, PartialEq, Eq)]
pub enum ResponseClass {
    Answer,
    Negative,
    Retry,
}

/// NOERROR with answers is an answer; NOERROR without, or NXDOMAIN, is negative;
/// anything else (or a header too short to read) asks for the next upstream.
pub open spec fn classify_spec(msg: Seq<u8>) -> ResponseClass {
    match (rcode_spec(msg), answer_count_spec(msg)) {
        (Some(c), Some(n)) if c == RCODE_SUCCESS && n > 0 => ResponseClass::Answer,
        (Some(c), _) if c == RCODE_SUCCESS || c == RCODE_NAME_ERROR => ResponseClass::Negative,
        _ => ResponseClass::Retry,
    }
}

/// How a response is taken, read off its header bytes: with a response code of 0 and a
/// nonzero answer count it is an answer; with a response code of 0 and no answers (or no
/// answer count), or a response code of 3 (NXDOMAIN) whatever the count, it is negative;
/// with any other code, or a header too short to hold one, the next upstream is tried.
pub proof fn law_classify_reads_the_header(msg: Seq<u8>)
    ensures
        msg.len() < 4 ==> classify_spec(msg) == ResponseClass::Retry,
        msg.len() >= 4 && msg[3] % 16 == 3 ==> classify_spec(msg) == ResponseClass::Negative,
        msg.len() >= 4 && msg[3] % 16 != 0 && msg[3] % 16 != 3 ==> classify_spec(msg) == ResponseClass::Retry,
        msg.len() >= 8 && msg[3] % 16 == 0 ==> classify_spec(msg) == if msg[6] as int * 256 + msg[7] as int > 0 {
            ResponseClass::Answer
        } else {
            ResponseClass::Negative
        },
        4 <= msg.len() < 8 && msg[3] % 16 == 0 ==> classify_spec(msg) == ResponseClass::Negative,
{
    if msg.len() >= 8 {
        assert(u16_at(msg, 6) == msg[6] as int * 256 + msg[7] as int);
    }
}

pub fn classify(resp: &[u8]) -> (r: ResponseClass)
    ensures
        r == classify_spec(resp@),
{
    let code = rcode(resp);
    let count = answer_count(resp);
    match code {
        Some(c) => {
            if c == RCODE_SUCCESS {
                match count {
                    Some(n) => {
                        if n > 0 {
                            return ResponseClass::Answer;
                        }
                    },
                    None => {},
                }
                ResponseClass::Negative
            } else if c == RCODE_NAME_ERROR {
                ResponseClass::Negative
            } else {
                ResponseClass::Retry
            }
        },
        None => ResponseClass::Retry,
    }
}

/// A label appended to a dotted name.
pub open spec fn join_label(acc: Seq<char>, label: Seq<char>) -> Seq<char> {
    if acc.len() == 0 {
        label
    } else {
        acc + seq!['.'] + label
    }
}

/// Reading a (possibly compressed) name from `msg`, starting at `pos`, after `jumps`
/// compression pointers, with `next` the offset after the first pointer and `acc` the
/// labels read so far. The result is the dotted name and the offset just after the name
/// in the original position.
pub open spec fn name_walk(msg: Seq<u8>, pos: int, jumps: int, next: Option<int>, acc: Seq<char>) -> Result<
    (Seq<char>, int),
    WireError,
>
    decreases msg.len() + 1 - jumps, msg.len() - pos,
{
    if !(0 <= pos < msg.len()) {
        Err(WireError::NameTruncated)
    } else {
        let len = msg[pos] as int;
        if len >= 192 {
            if pos + 1 >= msg.len() {
                Err(WireError::PointerTruncated)
            } else {
                let pointer = (len - 192) * 256 + msg[pos + 1] as int;
                if pointer >= msg.len() {
                    Err(WireError::PointerOutOfBounds)
                } else if jumps + 1 > msg.len() || jumps < 0 {
                    Err(WireError::PointerLoop)
                } else {
                    name_walk(
                        msg,
                        pointer,
                        jumps + 1,
                        if next is Some {
                            next
                        } else {
                            Some(pos + 2)
                        },
                        acc,
                    )
                }
            }
        } else if len >= 64 {
            Err(WireError::UnsupportedLabelType)
        } else if len == 0 {
            Ok(
                (
                    acc,
                    match next {
                        Some(n) => n,
                        None => pos + 1,
                    },
                ),
            )
        } else {
            let end = pos + 1 + len;
            if end > msg.len() {
                Err(WireError::LabelTruncated)
            } else if !valid_utf8(msg.subrange(pos + 1, end)) {
                Err(WireError::LabelNotUtf8)
            } else {
                name_walk(
                    msg,
                    end,
                    jumps,
                    next,
                    join_label(acc, decode_utf8(msg.subrange(pos + 1, end))),
                )
            }
        }
    }
}

/// The name at `offset` and the offset after it.
pub open spec fn question_name_spec(msg: Seq<u8>, offset: int) -> Result<(Seq<char>, int), WireError> {
    name_walk(msg, offset, 0, None, Seq::empty())
}

/// The text `String::from_utf8_lossy` makes of some bytes.
pub uninterp spec fn lossy_text(bytes: Seq<u8>) -> Seq<char>;

/// `String::from_utf8_lossy`: the bytes read as UTF-8 with each invalid sequence
/// replaced by U+FFFD. Claimed: the result is the named function of the bytes, and for
/// valid UTF-8 it is the text the bytes encode, as the function's documentation says.
#[verifier::external_body]
pub(crate) fn utf8_lossy(bytes: &[u8]) -> (r: String)
    ensures
        r@ == lossy_text(bytes@),
        valid_utf8(bytes@) ==> r@ == decode_utf8(bytes@),
{
    String::from_utf8_lossy(bytes).into_owned()
}

/// `std::str::from_utf8`: the text the bytes encode, when they are valid UTF-8.
#[verifier::external_body]
fn utf8_text(bytes: &[u8]) -> (r: Option<&str>)
    ensures
        r is Some <==> valid_utf8(bytes@),
        r matches Some(s) ==> s@ == decode_utf8(bytes@),
{
    std::str::from_utf8(bytes).ok()
}

/// Reads the possibly compressed name at `offset`; returns the dotted name and the offset
/// just past the name where it starts (past the first compression pointer, if any).
pub fn parse_question_name(req: &[u8], offset: usize) -> (r: Result<(String, usize), WireError>)
    ensures
        match r {
            Ok((name, next)) => question_name_spec(req@, offset as int) == Ok::<
                (Seq<char>, int),
                WireError,
            >((name@, next as int)),
            Err(e) => question_name_spec(req@, offset as int) == Err::<(Seq<char>, int), WireError>(
                e,
            ),
        },
{
    let n = req.len();
    let mut name = String::new();
    let mut pos = offset;
    let mut next_offset: Option<usize> = None;
    let mut jumps: usize = 0;
    assert(name@ =~= Seq::<char>::empty());
    loop
        invariant
            n == req@.len(),
            jumps <= n,
            next_offset matches Some(x) ==> x <= n + 1,
            question_name_spec(req@, offset as int) == name_walk(
                req@,
                pos as int,
                jumps as int,
                match next_offset {
                    Some(x) => Some(x as int),
                    None => None,
                },
                name@,
            ),
        decreases n + 1 - jumps, n - pos,
    {
        if pos >= n {
            return Err(WireError::NameTruncated);
        }
        let len = req[pos];
        if len >= 192 {
            if pos + 1 >= n {
                return Err(WireError::PointerTruncated);
            }
            let pointer = ((len - 192) as usize) * 256 + (req[pos + 1] as usize);
            if pointer >= n {
                return Err(WireError::PointerOutOfBounds);
            }
            if jumps >= n {
                return Err(WireError::PointerLoop);
            }
            if next_offset.is_none() {
                next_offset = Some(pos + 2);
            }
            pos = pointer;
            jumps = jumps + 1;
            continue ;
        }
        if len >= 64 {
            return Err(WireError::UnsupportedLabelType);
        }
        if len == 0 {
            let after = match next_offset {
                Some(x) => x,
                None => pos + 1,
            };
            return Ok((name, after));
        }
        let start = pos + 1;
        if (len as usize) > n - start {
            return Err(WireError::LabelTruncated);
        }
        let end = start + len as usize;
        let label = match utf8_text(&req[start..end]) {
            Some(text) => text,
            None => {
                return Err(WireError::LabelNotUtf8);
            },
        };
        let ghost before = name@;
        if name.as_str().unicode_len() > 0 {
            name.append(".");
        }
        name.append(label);
        proof {
            reveal_strlit(".");
            if before.len() > 0 {
                assert(name@ =~= before + seq!['.'] + label@);
            } else {
                assert(name@ =~= label@);
            }
        }
        pos = end;
    }
}

/// Skipping a name without reading it: the offset just past it (past the first pointer).
pub open spec fn skip_name_spec(msg: Seq<u8>, offset: int) -> Result<int, WireError>
    decreases msg.len() - offset,
{
    if !(0 <= offset < msg.len()) {
        Err(WireError::NameTruncated)
    } else {
        let len = msg[offset] as int;
        let after = offset + 1;
        if len >= 192 {
            if after >= msg.len() {
                Err(WireError::PointerTruncated)
            } else {
                Ok(after + 1)
            }
        } else if len >= 64 {
            Err(WireError::UnsupportedLabelType)
        } else if len == 0 {
            Ok(after)
        } else if after + len > msg.len() {
            Err(WireError::LabelTruncated)
        } else {
            skip_name_spec(msg, after + len)
        }
    }
}

pub fn skip_dns_name(msg: &[u8], offset: usize) -> (r: Result<usize, WireError>)
    ensures
        match r {
            Ok(o) => skip_name_spec(msg@, offset as int) == Ok::<int, WireError>(o as int) && o
                <= msg@.len(),
            Err(e) => skip_name_spec(msg@, offset as int) == Err::<int, WireError>(e),
        },
{
    let n = msg.len();
    let mut pos = offset;
    loop
        invariant
            n == msg@.len(),
            skip_name_spec(msg@, offset as int) == skip_name_spec(msg@, pos as int),
        decreases n - pos,
    {
        if pos >= n {
            return Err(WireError::NameTruncated);
        }
        let len = msg[pos];
        let after = pos + 1;
        if len >= 192 {
            if after >= n {
                return Err(WireError::PointerTruncated);
            }
            return Ok(after + 1);
        }
        if len >= 64 {
            return Err(WireError::UnsupportedLabelType);
        }
        if len == 0 {
            return Ok(after);
        }
        if (len as usize) > n - after {
            return Err(WireError::LabelTruncated);
        }
        pos = after + len as usize;
    }
}

/// Skipping `count` questions (name, type, class) from `offset`.
pub open spec fn skip_questions_spec(msg: Seq<u8>, offset: int, count: nat) -> Result<int, WireError>
    decreases count,
{
    if count == 0 {
        Ok(offset)
    } else {
        match skip_name_spec(msg, offset) {
            Err(e) => Err(e),
            Ok(o) => if o + 4 > msg.len() {
                Err(WireError::QuestionTruncated)
            } else {
                skip_questions_spec(msg, o + 4, (count - 1) as nat)
            },
        }
    }
}

/// Walking `count` resource records from `offset`: the offset after the last one and the
/// offset of the TTL of each record, in order.
pub open spec fn scan_records_spec(msg: Seq<u8>, offset: int, count: nat) -> Result<
    (int, Seq<int>),
    WireError,
>
    decreases count,
{
    if count == 0 {
        Ok((offset, Seq::empty()))
    } else {
        match skip_name_spec(msg, offset) {
            Err(e) => Err(e),
            Ok(o) => if o + 10 > msg.len() {
                Err(WireError::RrHeaderTruncated)
            } else {
                let data = o + 10;
                let rdlen = u16_at(msg, o + 8);
                if data + rdlen > msg.len() {
                    Err(WireError::RrDataTruncated)
                } else {
                    match scan_records_spec(msg, data + rdlen, (count - 1) as nat) {
                        Err(e) => Err(e),
                        Ok((end, rest)) => Ok((end, seq![o + 4] + rest)),
                    }
                }
            },
        }
    }
}

/// The TTL offsets of the whole message (all three record sections), or, with
/// `answers_only`, of the answer section alone. The message must be exactly the header,
/// the questions and the records.
pub open spec fn section_ttl_offsets_spec(msg: Seq<u8>, answers_only: bool) -> Result<
    Seq<int>,
    WireError,
> {
    if msg.len() < 12 {
        Err(WireError::ResponseTooShort)
    } else {
        let qd = u16_at(msg, 4) as nat;
        let an = u16_at(msg, 6) as nat;
        let total = (u16_at(msg, 6) + u16_at(msg, 8) + u16_at(msg, 10)) as nat;
        match skip_questions_spec(msg, 12, qd) {
            Err(e) => Err(e),
            Ok(o) => match scan_records_spec(msg, o, total) {
                Err(e) => Err(e),
                Ok((end, offsets)) => if end != msg.len() {
                    Err(WireError::TrailingBytes)
                } else if answers_only {
                    Ok(offsets.take(an as int))
                } else {
                    Ok(offsets)
                },
            },
        }
    }
}

pub proof fn lemma_scan_records_split(msg: Seq<u8>, offset: int, a: nat, b: nat)
    ensures
        scan_records_spec(msg, offset, a + b) == match scan_records_spec(msg, offset, a) {
            Err(e) => Err(e),
            Ok((mid, first)) => match scan_records_spec(msg, mid, b) {
                Err(e) => Err(e),
                Ok((end, rest)) => Ok((end, first + rest)),
            },
        },
    decreases a,
{
    if a == 0 {
        match scan_records_spec(msg, offset, b) {
            Err(e) => {},
            Ok((end, rest)) => {
                assert(Seq::<int>::empty() + rest =~= rest);
            },
        }
    } else {
        match skip_name_spec(msg, offset) {
            Err(e) => {},
            Ok(o) => {
                if o + 10 <= msg.len() {
                    let data = o + 10;
                    let rdlen = u16_at(msg, o + 8);
                    if data + rdlen <= msg.len() {
                        lemma_scan_records_split(msg, data + rdlen, (a - 1) as nat, b);
                        assert((a + b - 1) as nat == ((a - 1) as nat + b) as nat);
                        match scan_records_spec(msg, data + rdlen, (a - 1) as nat) {
                            Err(e) => {},
                            Ok((mid, first)) => {
                                match scan_records_spec(msg, mid, b) {
                                    Err(e) => {},
                                    Ok((end, rest)) => {
                                        assert(seq![o + 4] + (first + rest) =~= (seq![o + 4]
                                            + first) + rest);
                                    },
                                }
                            },
                        }
                    }
                }
            },
        }
    }
}

pub proof fn lemma_scan_records_len(msg: Seq<u8>, offset: int, count: nat)
    ensures
        scan_records_spec(msg, offset, count) matches Ok((end, offsets)) ==> offsets.len() == count
            && end >= offset,
    decreases count,
{
    if count > 0 {
        match skip_name_spec(msg, offset) {
            Err(e) => {},
            Ok(o) => {
                lemma_skip_name_advances(msg, offset);
                if o + 10 <= msg.len() {
                    let data = o + 10;
                    let rdlen = u16_at(msg, o + 8);
                    lemma_scan_records_len(msg, data + rdlen, (count - 1) as nat);
                }
            },
        }
    }
}

pub proof fn lemma_skip_name_advances(msg: Seq<u8>, offset: int)
    ensures
        skip_name_spec(msg, offset) matches Ok(o) ==> offset < o <= msg.len(),
    decreases msg.len() - offset,
{
    if 0 <= offset < msg.len() {
        let len = msg[offset] as int;
        let after = offset + 1;
        if len < 64 && len != 0 && after + len <= msg.len() {
            lemma_skip_name_advances(msg, after + len);
        }
    }
}

/// The TTL offsets of the message; see [`section_ttl_offsets_spec`].
pub fn section_ttl_offsets(resp: &[u8], answers_only: bool) -> (r: Result<Vec<usize>, WireError>)
    ensures
        match r {
            Ok(v) => section_ttl_offsets_spec(resp@, answers_only) == Ok::<Seq<int>, WireError>(
                v@.map_values(|x: usize| x as int),
            ),
            Err(e) => section_ttl_offsets_spec(resp@, answers_only) == Err::<Seq<int>, WireError>(
                e,
            ),
        },
{
    let n = resp.len();
    if n < 12 {
        return Err(WireError::ResponseTooShort);
    }
    let qdcount = read_u16(resp, 4) as usize;
    let ancount = read_u16(resp, 6) as usize;
    let nscount = read_u16(resp, 8) as usize;
    let arcount = read_u16(resp, 10) as usize;
    let total = ancount + nscount + arcount;
    let mut offset: usize = 12;
    let mut i: usize = 0;
    while i < qdcount
        invariant
            n == resp@.len(),
            n >= 12,
            qdcount == u16_at(resp@, 4),
            ancount == u16_at(resp@, 6),
            total == ancount + nscount + arcount,
            total == u16_at(resp@, 6) + u16_at(resp@, 8) + u16_at(resp@, 10),
            i <= qdcount,
            offset <= n,
            skip_questions_spec(resp@, 12, qdcount as nat) == skip_questions_spec(
                resp@,
                offset as int,
                (qdcount - i) as nat,
            ),
        decreases qdcount - i,
    {
        let o = match skip_dns_name(resp, offset) {
            Ok(o) => o,
            Err(e) => {
                return Err(e);
            },
        };
        if o > n - 4 {
            return Err(WireError::QuestionTruncated);
        }
        offset = o + 4;
        i = i + 1;
    }
    let ghost qend = offset;
    assert(skip_questions_spec(resp@, 12, qdcount as nat) == Ok::<int, WireError>(qend as int));
    let mut ttl_offsets: Vec<usize> = Vec::new();
    let mut k: usize = 0;
    while k < total
        invariant
            n == resp@.len(),
            n >= 12,
            qdcount == u16_at(resp@, 4),
            ancount == u16_at(resp@, 6),
            total == u16_at(resp@, 6) + u16_at(resp@, 8) + u16_at(resp@, 10),
            skip_questions_spec(resp@, 12, qdcount as nat) == Ok::<int, WireError>(qend as int),
            k <= total,
            offset <= n,
            total == ancount + nscount + arcount,
            scan_records_spec(resp@, qend as int, total as nat) == match scan_records_spec(
                resp@,
                offset as int,
                (total - k) as nat,
            ) {
                Err(e) => Err(e),
                Ok((end, rest)) => Ok((end, ttl_offsets@.map_values(|x: usize| x as int) + rest)),
            },
        decreases total - k,
    {
        let o = match skip_dns_name(resp, offset) {
            Ok(o) => o,
            Err(e) => {
                return Err(e);
            },
        };
        if o > n - 10 {
            return Err(WireError::RrHeaderTruncated);
        }
        let ttl_offset = o + 4;
        let rdlen = read_u16(resp, o + 8) as usize;
        let data = o + 10;
        if rdlen > n - data {
            return Err(WireError::RrDataTruncated);
        }
        let ghost before = ttl_offsets@.map_values(|x: usize| x as int);
        ttl_offsets.push(ttl_offset);
        proof {
            assert(ttl_offsets@.map_values(|x: usize| x as int) =~= before.push(ttl_offset as int));
            match scan_records_spec(resp@, (data + rdlen) as int, (total - k - 1) as nat) {
                Err(e) => {},
                Ok((end, rest)) => {
                    assert(before + (seq![ttl_offset as int] + rest) =~= before.push(
                        ttl_offset as int,
                    ) + rest);
                },
            }
        }
        offset = data + rdlen;
        k = k + 1;
    }
    assert(ttl_offsets@.map_values(|x: usize| x as int) + Seq::<int>::empty() =~= ttl_offsets@.map_values(
        |x: usize| x as int,
    ));
    if offset != n {
        return Err(WireError::TrailingBytes);
    }
    if answers_only {
        proof {
            lemma_scan_records_len(resp@, qend as int, total as nat);
        }
        let mut answers: Vec<usize> = Vec::new();
        let mut j: usize = 0;
        while j < ancount
            invariant
                j <= ancount <= ttl_offsets@.len(),
                answers@ == ttl_offsets@.take(j as int),
            decreases ancount - j,
        {
            answers.push(ttl_offsets[j]);
            j = j + 1;
            assert(answers@ =~= ttl_offsets@.take(j as int));
        }
        assert(answers@.map_values(|x: usize| x as int) =~= ttl_offsets@.map_values(
            |x: usize| x as int,
        ).take(ancount as int));
        Ok(answers)
    } else {
        Ok(ttl_offsets)
    }
}

/// The TTL offsets of every record in the message.
pub fn rr_ttl_offsets(resp: &[u8]) -> (r: Result<Vec<usize>, WireError>)
    ensures
        match r {
            Ok(v) => section_ttl_offsets_spec(resp@, false) == Ok::<Seq<int>, WireError>(
                v@.map_values(|x: usize| x as int),
            ),
            Err(e) => section_ttl_offsets_spec(resp@, false) == Err::<Seq<int>, WireError>(e),
        },
{
    section_ttl_offsets(resp, false)
}

/// Every TTL offset of a well-formed message leaves room for the four TTL bytes.
pub proof fn lemma_ttl_offsets_in_bounds(msg: Seq<u8>, offset: int, count: nat)
    requires
        offset >= 0,
    ensures
        scan_records_spec(msg, offset, count) matches Ok((end, offsets)) ==> forall|i: int|
            0 <= i < offsets.len() ==> offset <= #[trigger] offsets[i] && offsets[i] + 4 <= end
                <= msg.len(),
    decreases count,
{
    if count > 0 {
        match skip_name_spec(msg, offset) {
            Err(e) => {},
            Ok(o) => {
                lemma_skip_name_advances(msg, offset);
                if o + 10 <= msg.len() {
                    let data = o + 10;
                    let rdlen = u16_at(msg, o + 8);
                    lemma_scan_records_len(msg, data + rdlen, (count - 1) as nat);
                    lemma_ttl_offsets_in_bounds(msg, data + rdlen, (count - 1) as nat);
                    lemma_scan_records_end(msg, data + rdlen, (count - 1) as nat);
                }
            },
        }
    }
}

pub proof fn lemma_scan_records_end(msg: Seq<u8>, offset: int, count: nat)
    ensures
        scan_records_spec(msg, offset, count) matches Ok((end, offsets)) ==> offset <= end && (
        count == 0 || end <= msg.len()),
    decreases count,
{
    if count > 0 {
        match skip_name_spec(msg, offset) {
            Err(e) => {},
            Ok(o) => {
                lemma_skip_name_advances(msg, offset);
                if o + 10 <= msg.len() {
                    let data = o + 10;
                    let rdlen = u16_at(msg, o + 8);
                    lemma_scan_records_end(msg, data + rdlen, (count - 1) as nat);
                }
            },
        }
    }
}


/// Whether byte position `p` lies inside the TTL of one of the records at `offsets`.
pub open spec fn in_ttl_region(offsets: Seq<int>, p: int) -> bool {
    exists|i: int| 0 <= i < offsets.len() && #[trigger] offsets[i] <= p < offsets[i] + 4
}

pub proof fn lemma_skip_name_frame(a: Seq<u8>, b: Seq<u8>, off: int, o: int)
    requires
        skip_name_spec(a, off) == Ok::<int, WireError>(o),
        a.len() == b.len(),
        forall|p: int| off <= p < o ==> a[p] == b[p],
    ensures
        skip_name_spec(b, off) == Ok::<int, WireError>(o),
    decreases a.len() - off,
{
    lemma_skip_name_advances(a, off);
    let len = a[off] as int;
    assert(a[off] == b[off]);
    let after = off + 1;
    if len >= 192 {
    } else if len >= 64 {
    } else if len == 0 {
    } else {
        lemma_skip_name_advances(a, after + len);
        lemma_skip_name_frame(a, b, after + len, o);
    }
}

pub proof fn lemma_skip_questions_frame(a: Seq<u8>, b: Seq<u8>, off: int, count: nat, o: int)
    requires
        off >= 0,
        skip_questions_spec(a, off, count) == Ok::<int, WireError>(o),
        a.len() == b.len(),
        forall|p: int| off <= p < o ==> a[p] == b[p],
    ensures
        skip_questions_spec(b, off, count) == Ok::<int, WireError>(o),
        off <= o,
    decreases count,
{
    if count > 0 {
        let o1 = skip_name_spec(a, off)->Ok_0;
        lemma_skip_name_advances(a, off);
        lemma_skip_questions_nonneg(a, o1 + 4, (count - 1) as nat);
        lemma_skip_questions_frame(a, b, o1 + 4, (count - 1) as nat, o);
        lemma_skip_name_frame(a, b, off, o1);
    }
}

/// The TTL offsets found by a scan are increasing, four bytes apart at least, and lie
/// after the place the scan started.
pub proof fn lemma_scan_records_sorted(msg: Seq<u8>, offset: int, count: nat)
    requires
        offset >= 0,
    ensures
        scan_records_spec(msg, offset, count) matches Ok((end, offs)) ==> (forall|i: int, j: int|
            0 <= i < j < offs.len() ==> #[trigger] offs[i] + 4 <= #[trigger] offs[j]) && (forall|
            i: int,
        | 0 <= i < offs.len() ==> offset < #[trigger] offs[i]),
    decreases count,
{
    if count > 0 {
        match skip_name_spec(msg, offset) {
            Err(e) => {},
            Ok(o) => {
                lemma_skip_name_advances(msg, offset);
                if o + 10 <= msg.len() {
                    let data = o + 10;
                    let rdlen = u16_at(msg, o + 8);
                    lemma_scan_records_sorted(msg, data + rdlen, (count - 1) as nat);
                    lemma_ttl_offsets_in_bounds(msg, data + rdlen, (count - 1) as nat);
                    match scan_records_spec(msg, data + rdlen, (count - 1) as nat) {
                        Err(e) => {},
                        Ok((end, rest)) => {
                            let offs = seq![o + 4] + rest;
                            assert forall|i: int, j: int|
                                0 <= i < j < offs.len() implies #[trigger] offs[i] + 4
                                <= #[trigger] offs[j] by {
                                if i == 0 {
                                    assert(offs[j] == rest[j - 1]);
                                } else {
                                    assert(offs[j] == rest[j - 1]);
                                    assert(offs[i] == rest[i - 1]);
                                }
                            }
                            assert forall|i: int| 0 <= i < offs.len() implies offset
                                < #[trigger] offs[i] by {
                                if i > 0 {
                                    assert(offs[i] == rest[i - 1]);
                                }
                            }
                        },
                    }
                }
            },
        }
    }
}

pub proof fn lemma_scan_records_frame(a: Seq<u8>, b: Seq<u8>, off: int, count: nat)
    requires
        off >= 0,
        scan_records_spec(a, off, count) is Ok,
        a.len() == b.len(),
        forall|p: int|
            off <= p < scan_records_spec(a, off, count)->Ok_0.0 && !in_ttl_region(
                scan_records_spec(a, off, count)->Ok_0.1,
                p,
            ) ==> a[p] == b[p],
    ensures
        scan_records_spec(b, off, count) == scan_records_spec(a, off, count),
    decreases count,
{
    if count > 0 {
        let o = skip_name_spec(a, off)->Ok_0;
        lemma_skip_name_advances(a, off);
        let data = o + 10;
        let rdlen = u16_at(a, o + 8);
        let (end, rest) = scan_records_spec(a, data + rdlen, (count - 1) as nat)->Ok_0;
        let offs = seq![o + 4] + rest;
        lemma_scan_records_end(a, data + rdlen, (count - 1) as nat);
        lemma_ttl_offsets_in_bounds(a, data + rdlen, (count - 1) as nat);
        assert forall|p: int| off <= p < o + 4 || o + 8 <= p < data + rdlen implies !in_ttl_region(
            offs,
            p,
        ) by {
            if in_ttl_region(offs, p) {
                let i = choose|i: int| 0 <= i < offs.len() && #[trigger] offs[i] <= p < offs[i] + 4;
                if i > 0 {
                    assert(offs[i] == rest[i - 1]);
                }
            }
        }
        assert forall|p: int| off <= p < o implies a[p] == b[p] by {
            assert(!in_ttl_region(offs, p));
        }
        lemma_skip_name_frame(a, b, off, o);
        assert(a[o + 8] == b[o + 8]) by {
            assert(!in_ttl_region(offs, o + 8));
        }
        assert(a[o + 9] == b[o + 9]) by {
            assert(!in_ttl_region(offs, o + 9));
        }
        assert forall|p: int|
            data + rdlen <= p < end && !in_ttl_region(rest, p) implies a[p] == b[p] by {
            if in_ttl_region(offs, p) {
                let i = choose|i: int| 0 <= i < offs.len() && #[trigger] offs[i] <= p < offs[i] + 4;
                if i > 0 {
                    assert(offs[i] == rest[i - 1]);
                    assert(in_ttl_region(rest, p));
                }
            }
        }
        lemma_scan_records_frame(a, b, data + rdlen, (count - 1) as nat);
    }
}

pub proof fn lemma_write_ttls(msg: Seq<u8>, offs: Seq<int>, ttls: Seq<u32>)
    requires
        offs.len() == ttls.len(),
        forall|i: int| 0 <= i < offs.len() ==> 0 <= #[trigger] offs[i] && offs[i] + 4 <= msg.len(),
        forall|i: int, j: int| 0 <= i < j < offs.len() ==> #[trigger] offs[i] + 4 <= #[trigger] offs[j],
    ensures
        write_ttls(msg, offs, ttls).len() == msg.len(),
        forall|p: int|
            0 <= p < msg.len() && !in_ttl_region(offs, p) ==> #[trigger] write_ttls(
                msg,
                offs,
                ttls,
            )[p] == msg[p],
        ttls_at(write_ttls(msg, offs, ttls), offs) == ttls,
    decreases offs.len(),
{
    let out = write_ttls(msg, offs, ttls);
    if offs.len() == 0 {
        assert(ttls_at(out, offs) =~= ttls);
    } else {
        let po = offs.drop_last();
        let pt = ttls.drop_last();
        lemma_write_ttls(msg, po, pt);
        let prev = write_ttls(msg, po, pt);
        let o = offs.last();
        let v = ttls.last();
        let bytes = be32_bytes(v);
        lemma_be32_roundtrip(v);
        assert forall|p: int|
            0 <= p < msg.len() && !in_ttl_region(offs, p) implies #[trigger] out[p] == msg[p] by {
            assert(!(o <= p < o + 4)) by {
                if o <= p < o + 4 {
                    assert(in_ttl_region(offs, p));
                }
            }
            if in_ttl_region(po, p) {
                let i = choose|i: int| 0 <= i < po.len() && #[trigger] po[i] <= p < po[i] + 4;
                assert(offs[i] == po[i]);
                assert(in_ttl_region(offs, p));
            }
        }
        assert forall|i: int| 0 <= i < offs.len() implies #[trigger] ttls_at(out, offs)[i]
            == ttls[i] by {
            if i < offs.len() - 1 {
                assert(po[i] == offs[i]);
                assert(offs[i] + 4 <= o);
                assert(ttls_at(prev, po)[i] == pt[i]);
                assert(out[offs[i]] == prev[offs[i]]);
                assert(out[offs[i] + 1] == prev[offs[i] + 1]);
                assert(out[offs[i] + 2] == prev[offs[i] + 2]);
                assert(out[offs[i] + 3] == prev[offs[i] + 3]);
            } else {
                assert(out[o] == bytes[0]);
                assert(out[o + 1] == bytes[1]);
                assert(out[o + 2] == bytes[2]);
                assert(out[o + 3] == bytes[3]);
                assert(u32_at(out, o) == u32_at(bytes, 0));
            }
        }
        assert(ttls_at(out, offs) =~= ttls);
    }
}

/// A cached response keeps its shape when its TTLs are rewritten: reading the rewritten
/// message finds the same records, each TTL now the original one capped at the remaining
/// lifetime, and no other byte changes.
pub proof fn law_rewritten_ttls_read_back(msg: Seq<u8>, remaining: u32)
    requires
        section_ttl_offsets_spec(msg, false) is Ok,
    ensures
        ({
            let offs = section_ttl_offsets_spec(msg, false)->Ok_0;
            let out = write_ttls(msg, offs, capped_ttls(ttls_at(msg, offs), remaining));
            &&& out.len() == msg.len()
            &&& section_ttl_offsets_spec(out, false) == Ok::<Seq<int>, WireError>(offs)
            &&& ttls_at(out, offs) == capped_ttls(ttls_at(msg, offs), remaining)
            &&& forall|p: int|
                0 <= p < msg.len() && !in_ttl_region(offs, p) ==> #[trigger] out[p] == msg[p]
        }),
{
    let offs = section_ttl_offsets_spec(msg, false)->Ok_0;
    let caps = capped_ttls(ttls_at(msg, offs), remaining);
    let out = write_ttls(msg, offs, caps);
    let qd = u16_at(msg, 4) as nat;
    let total = (u16_at(msg, 6) + u16_at(msg, 8) + u16_at(msg, 10)) as nat;
    let qend = skip_questions_spec(msg, 12, qd)->Ok_0;
    lemma_skip_questions_nonneg(msg, 12, qd);
    lemma_offsets_in_bounds(msg);
    lemma_scan_records_sorted(msg, qend, total);
    lemma_write_ttls(msg, offs, caps);
    assert forall|p: int| 0 <= p < qend implies !in_ttl_region(offs, p) by {
        if in_ttl_region(offs, p) {
            let i = choose|i: int| 0 <= i < offs.len() && #[trigger] offs[i] <= p < offs[i] + 4;
        }
    }
    assert forall|p: int| 0 <= p < qend implies msg[p] == out[p] by {
        assert(!in_ttl_region(offs, p));
    }
    lemma_skip_questions_frame(msg, out, 12, qd, qend);
    assert(msg[4] == out[4] && msg[5] == out[5] && msg[6] == out[6] && msg[7] == out[7]);
    assert(msg[8] == out[8] && msg[9] == out[9] && msg[10] == out[10] && msg[11] == out[11]);
    assert(u16_at(out, 4) == u16_at(msg, 4));
    assert(u16_at(out, 6) == u16_at(msg, 6));
    assert(u16_at(out, 8) == u16_at(msg, 8));
    assert(u16_at(out, 10) == u16_at(msg, 10));
    assert forall|p: int|
        qend <= p < scan_records_spec(msg, qend, total)->Ok_0.0 && !in_ttl_region(
            scan_records_spec(msg, qend, total)->Ok_0.1,
            p,
        ) implies msg[p] == out[p] by {
        lemma_scan_records_end(msg, qend, total);
    }
    lemma_scan_records_frame(msg, out, qend, total);
}

/// The TTL values at the given offsets.
pub open spec fn ttls_at(msg: Seq<u8>, offsets: Seq<int>) -> Seq<u32> {
    offsets.map_values(|o: int| u32_at(msg, o) as u32)
}

/// Reads the TTL of every record, together with where each TTL sits.
pub fn rr_ttls_with_offsets(resp: &[u8]) -> (r: Result<(Vec<u32>, Vec<usize>), WireError>)
    ensures
        match r {
            Ok((ttls, offsets)) => section_ttl_offsets_spec(resp@, false) == Ok::<
                Seq<int>,
                WireError,
            >(offsets@.map_values(|x: usize| x as int)) && ttls@ == ttls_at(
                resp@,
                offsets@.map_values(|x: usize| x as int),
            ),
            Err(e) => section_ttl_offsets_spec(resp@, false) == Err::<Seq<int>, WireError>(e),
        },
{
    let offsets = match rr_ttl_offsets(resp) {
        Ok(o) => o,
        Err(e) => {
            return Err(e);
        },
    };
    let ghost spec_offsets = offsets@.map_values(|x: usize| x as int);
    proof {
        lemma_offsets_in_bounds(resp@);
        assert(section_ttl_offsets_spec(resp@, false) == Ok::<Seq<int>, WireError>(spec_offsets));
        let so = section_ttl_offsets_spec(resp@, false)->Ok_0;
        assert(so == spec_offsets);
        assert forall|j: int| 0 <= j < spec_offsets.len() implies 0 <= #[trigger] spec_offsets[j]
            && spec_offsets[j] + 4 <= resp@.len() by {
            assert(so[j] == spec_offsets[j]);
        }
    }
    let mut ttls: Vec<u32> = Vec::new();
    let mut i: usize = 0;
    while i < offsets.len()
        invariant
            i <= offsets@.len(),
            spec_offsets == offsets@.map_values(|x: usize| x as int),
            forall|j: int|
                0 <= j < spec_offsets.len() ==> 0 <= #[trigger] spec_offsets[j] && spec_offsets[j]
                    + 4 <= resp@.len(),
            ttls@ == ttls_at(resp@, spec_offsets.take(i as int)),
        decreases offsets@.len() - i,
    {
        let o = offsets[i];
        assert(spec_offsets[i as int] == o);
        ttls.push(read_u32(resp, o));
        i = i + 1;
        assert(ttls@ =~= ttls_at(resp@, spec_offsets.take(i as int)));
    }
    assert(spec_offsets.take(offsets@.len() as int) =~= spec_offsets);
    Ok((ttls, offsets))
}

/// The TTL of every record.
pub fn rr_ttls(resp: &[u8]) -> (r: Result<Vec<u32>, WireError>)
    ensures
        match r {
            Ok(ttls) => exists|offsets: Seq<int>|
                section_ttl_offsets_spec(resp@, false) == Ok::<Seq<int>, WireError>(offsets)
                    && ttls@ == ttls_at(resp@, offsets),
            Err(e) => section_ttl_offsets_spec(resp@, false) == Err::<Seq<int>, WireError>(e),
        },
{
    match rr_ttls_with_offsets(resp) {
        Ok((ttls, offsets)) => {
            assert(ttls@ == ttls_at(resp@, offsets@.map_values(|x: usize| x as int)));
            Ok(ttls)
        },
        Err(e) => Err(e),
    }
}

/// The smallest of a list of TTLs; zero for an empty list.
pub open spec fn min_ttl_spec(ttls: Seq<u32>) -> u32
    decreases ttls.len(),
{
    if ttls.len() == 0 {
        0
    } else if ttls.len() == 1 {
        ttls[0]
    } else {
        let rest = min_ttl_spec(ttls.drop_last());
        if ttls.last() < rest {
            ttls.last()
        } else {
            rest
        }
    }
}

pub proof fn lemma_min_ttl_is_min(ttls: Seq<u32>)
    ensures
        ttls.len() > 0 ==> (exists|i: int| 0 <= i < ttls.len() && ttls[i] == min_ttl_spec(ttls)),
        forall|i: int| 0 <= i < ttls.len() ==> min_ttl_spec(ttls) <= #[trigger] ttls[i],
    decreases ttls.len(),
{
    if ttls.len() > 1 {
        let d = ttls.drop_last();
        lemma_min_ttl_is_min(d);
        assert forall|i: int| 0 <= i < ttls.len() implies min_ttl_spec(ttls) <= #[trigger] ttls[i] by {
            if i < ttls.len() - 1 {
                assert(d[i] == ttls[i]);
            }
        }
        if ttls.last() < min_ttl_spec(d) {
            assert(ttls[ttls.len() - 1] == min_ttl_spec(ttls));
        } else {
            let k = choose|i: int| 0 <= i < d.len() && d[i] == min_ttl_spec(d);
            assert(ttls[k] == min_ttl_spec(ttls));
        }
    } else if ttls.len() == 1 {
        assert(ttls[0] == min_ttl_spec(ttls));
    }
}

pub fn min_ttl_from_values(ttls: &[u32]) -> (r: u32)
    ensures
        r == min_ttl_spec(ttls@),
{
    if ttls.len() == 0 {
        return 0;
    }
    let mut m = ttls[0];
    let mut i: usize = 1;
    assert(ttls@.take(1).drop_last() =~= Seq::<u32>::empty());
    while i < ttls.len()
        invariant
            1 <= i <= ttls@.len(),
            m == min_ttl_spec(ttls@.take(i as int)),
        decreases ttls@.len() - i,
    {
        assert(ttls@.take(i + 1).drop_last() =~= ttls@.take(i as int));
        if ttls[i] < m {
            m = ttls[i];
        }
        i = i + 1;
    }
    assert(ttls@.take(ttls@.len() as int) =~= ttls@);
    m
}

/// The smallest TTL in the answer section, when the message is well formed; `None` when
/// it has no answers.
pub open spec fn answer_min_ttl_spec(msg: Seq<u8>) -> Result<Option<u32>, WireError> {
    match section_ttl_offsets_spec(msg, true) {
        Err(e) => Err(e),
        Ok(offsets) => {
            let ttls = ttls_at(msg, offsets);
            if ttls.len() == 0 {
                Ok(None)
            } else {
                Ok(Some(min_ttl_spec(ttls)))
            }
        },
    }
}

pub proof fn lemma_answer_offsets_in_bounds(msg: Seq<u8>)
    ensures
        section_ttl_offsets_spec(msg, true) matches Ok(offsets) ==> forall|i: int|
            0 <= i < offsets.len() ==> 0 <= #[trigger] offsets[i] && offsets[i] + 4 <= msg.len(),
{
    if msg.len() >= 12 {
        let qd = u16_at(msg, 4) as nat;
        let total = (u16_at(msg, 6) + u16_at(msg, 8) + u16_at(msg, 10)) as nat;
        match skip_questions_spec(msg, 12, qd) {
            Err(e) => {},
            Ok(o) => {
                lemma_skip_questions_nonneg(msg, 12, qd);
                lemma_ttl_offsets_in_bounds(msg, o, total);
                lemma_scan_records_len(msg, o, total);
                match scan_records_spec(msg, o, total) {
                    Err(e) => {},
                    Ok((end, offs)) => {
                        let an = u16_at(msg, 6);
                        let t = offs.take(an);
                        assert forall|i: int| 0 <= i < t.len() implies 0 <= #[trigger] t[i] && t[i]
                            + 4 <= msg.len() by {
                            assert(t[i] == offs[i]);
                        }
                    },
                }
            },
        }
    }
}

pub proof fn lemma_offsets_in_bounds(msg: Seq<u8>)
    ensures
        section_ttl_offsets_spec(msg, false) matches Ok(offsets) ==> forall|i: int|
            0 <= i < offsets.len() ==> 0 <= #[trigger] offsets[i] && offsets[i] + 4 <= msg.len(),
{
    if msg.len() >= 12 {
        let qd = u16_at(msg, 4) as nat;
        let total = (u16_at(msg, 6) + u16_at(msg, 8) + u16_at(msg, 10)) as nat;
        match skip_questions_spec(msg, 12, qd) {
            Err(e) => {},
            Ok(o) => {
                lemma_skip_questions_nonneg(msg, 12, qd);
                lemma_ttl_offsets_in_bounds(msg, o, total);
            },
        }
    }
}

pub proof fn lemma_skip_questions_nonneg(msg: Seq<u8>, offset: int, count: nat)
    requires
        offset >= 0,
    ensures
        skip_questions_spec(msg, offset, count) matches Ok(o) ==> o >= 0,
    decreases count,
{
    if count > 0 {
        match skip_name_spec(msg, offset) {
            Err(e) => {},
            Ok(o) => {
                lemma_skip_name_advances(msg, offset);
                lemma_skip_questions_nonneg(msg, o + 4, (count - 1) as nat);
            },
        }
    }
}

/// The smallest TTL among the answers.
pub fn answer_min_ttl(resp: &[u8]) -> (r: Result<Option<u32>, WireError>)
    ensures
        r == answer_min_ttl_spec(resp@),
{
    let offsets = match section_ttl_offsets(resp, true) {
        Ok(o) => o,
        Err(e) => {
            return Err(e);
        },
    };
    let ghost spec_offsets = offsets@.map_values(|x: usize| x as int);
    proof {
        lemma_answer_offsets_in_bounds(resp@);
    }
    let mut ttls: Vec<u32> = Vec::new();
    let mut i: usize = 0;
    while i < offsets.len()
        invariant
            i <= offsets@.len(),
            spec_offsets == offsets@.map_values(|x: usize| x as int),
            forall|j: int|
                0 <= j < spec_offsets.len() ==> 0 <= #[trigger] spec_offsets[j] && spec_offsets[j]
                    + 4 <= resp@.len(),
            ttls@ == ttls_at(resp@, spec_offsets.take(i as int)),
        decreases offsets@.len() - i,
    {
        let o = offsets[i];
        assert(spec_offsets[i as int] == o);
        ttls.push(read_u32(resp, o));
        i = i + 1;
        assert(ttls@ =~= ttls_at(resp@, spec_offsets.take(i as int)));
    }
    assert(spec_offsets.take(offsets@.len() as int) =~= spec_offsets);
    if ttls.len() == 0 {
        Ok(None)
    } else {
        Ok(Some(min_ttl_from_values(ttls.as_slice())))
    }
}

/// `msg` with the TTL at each offset replaced by the matching TTL.
pub open spec fn write_ttls(msg: Seq<u8>, offsets: Seq<int>, ttls: Seq<u32>) -> Seq<u8>
    decreases offsets.len(),
{
    if offsets.len() == 0 || ttls.len() == 0 {
        msg
    } else {
        let prev = write_ttls(msg, offsets.drop_last(), ttls.drop_last());
        let o = offsets.last();
        let b = be32_bytes(ttls.last());
        prev.update(o, b[0]).update(o + 1, b[1]).update(o + 2, b[2]).update(o + 3, b[3])
    }
}

/// Each TTL capped at `remaining`.
pub open spec fn capped_ttls(ttls: Seq<u32>, remaining: u32) -> Seq<u32> {
    ttls.map_values(|t: u32| if t < remaining { t } else { remaining })
}

/// Writes `min(original, remaining)` into the TTL at each offset. Fails, writing nothing
/// more, when the two lists differ in length or an offset leaves no room for a TTL.
pub fn rewrite_ttls(resp: &mut [u8], original_ttls: &[u32], ttl_offsets: &[usize], remaining: u32) -> (r:
    Result<(), WireError>)
    ensures
        final(resp)@.len() == old(resp)@.len(),
        original_ttls@.len() != ttl_offsets@.len() ==> r == Err::<(), WireError>(
            WireError::TtlCountMismatch,
        ) && final(resp)@ == old(resp)@,
        original_ttls@.len() == ttl_offsets@.len() && (forall|i: int|
            0 <= i < ttl_offsets@.len() ==> #[trigger] ttl_offsets@[i] + 4 <= old(resp)@.len())
            ==> r is Ok && final(resp)@ == write_ttls(
            old(resp)@,
            ttl_offsets@.map_values(|x: usize| x as int),
            capped_ttls(original_ttls@, remaining),
        ),
        original_ttls@.len() == ttl_offsets@.len() && !(forall|i: int|
            0 <= i < ttl_offsets@.len() ==> #[trigger] ttl_offsets@[i] + 4 <= old(resp)@.len())
            ==> r == Err::<(), WireError>(WireError::TtlTruncated),
{
    if ttl_offsets.len() != original_ttls.len() {
        return Err(WireError::TtlCountMismatch);
    }
    let ghost start = resp@;
    let ghost offs = ttl_offsets@.map_values(|x: usize| x as int);
    let ghost caps = capped_ttls(original_ttls@, remaining);
    let n = resp.len();
    let mut i: usize = 0;
    while i < ttl_offsets.len()
        invariant
            n == resp@.len() == start.len(),
            start == old(resp)@,
            i <= ttl_offsets@.len() == original_ttls@.len(),
            offs == ttl_offsets@.map_values(|x: usize| x as int),
            caps == capped_ttls(original_ttls@, remaining),
            forall|j: int| 0 <= j < i ==> #[trigger] ttl_offsets@[j] + 4 <= n,
            resp@ == write_ttls(start, offs.take(i as int), caps.take(i as int)),
        decreases ttl_offsets@.len() - i,
    {
        let offset = ttl_offsets[i];
        if offset > n || n - offset < 4 {
            assert(ttl_offsets@[i as int] + 4 > old(resp)@.len());
            return Err(WireError::TtlTruncated);
        }
        let original = original_ttls[i];
        let ttl = if original < remaining {
            original
        } else {
            remaining
        };
        resp[offset] = (ttl / 16777216) as u8;
        resp[offset + 1] = ((ttl / 65536) % 256) as u8;
        resp[offset + 2] = ((ttl / 256) % 256) as u8;
        resp[offset + 3] = (ttl % 256) as u8;
        proof {
            assert(offs.take(i + 1).drop_last() =~= offs.take(i as int));
            assert(caps.take(i + 1).drop_last() =~= caps.take(i as int));
            assert(caps.take(i + 1).last() == ttl);
            assert(offs.take(i + 1).last() == offset as int);
        }
        i = i + 1;
    }
    proof {
        assert(offs.take(ttl_offsets@.len() as int) =~= offs);
        assert(caps.take(ttl_offsets@.len() as int) =~= caps);
    }
    Ok(())
}

/// `ttl` raised to `min` and lowered to `max`, each bound applying only when nonzero.
pub open spec fn clamp_ttl_spec(ttl: u32, min: u32, max: u32) -> u32 {
    let raised = if min > 0 && ttl < min {
        min
    } else {
        ttl
    };
    if max > 0 && raised > max {
        max
    } else {
        raised
    }
}

pub fn clamp_ttl(ttl: u32, min: u32, max: u32) -> (r: u32)
    ensures
        r == clamp_ttl_spec(ttl, min, max),
        max > 0 ==> r <= max,
        min > 0 && (max == 0 || min <= max) ==> r >= min,
        (min == 0 || ttl >= min) && (max == 0 || ttl <= max) ==> r == ttl,
{
    let ttl = if min > 0 && ttl < min {
        min
    } else {
        ttl
    };
    if max > 0 && ttl > max {
        max
    } else {
        ttl
    }
}

/// Appends the header of a resource record whose name points back to the question.
pub fn write_rr_header(resp: &mut Vec<u8>, qtype: u16, qclass: u16, ttl: u32, rdlen: u16)
    ensures
        final(resp)@ == old(resp)@ + seq![0xc0u8, 0x0cu8] + seq![
            (qtype / 256) as u8,
            (qtype % 256) as u8,
        ] + seq![(qclass / 256) as u8, (qclass % 256) as u8] + be32_bytes(ttl) + seq![
            (rdlen / 256) as u8,
            (rdlen % 256) as u8,
        ],
{
    resp.push(0xc0);
    resp.push(0x0c);
    resp.push((qtype / 256) as u8);
    resp.push((qtype % 256) as u8);
    resp.push((qclass / 256) as u8);
    resp.push((qclass % 256) as u8);
    resp.push((ttl / 16777216) as u8);
    resp.push(((ttl / 65536) % 256) as u8);
    resp.push(((ttl / 256) % 256) as u8);
    resp.push((ttl % 256) as u8);
    resp.push((rdlen / 256) as u8);
    resp.push((rdlen % 256) as u8);
    assert(resp@ =~= old(resp)@ + seq![0xc0u8, 0x0cu8] + seq![
        (qtype / 256) as u8,
        (qtype % 256) as u8,
    ] + seq![(qclass / 256) as u8, (qclass % 256) as u8] + be32_bytes(ttl) + seq![
        (rdlen / 256) as u8,
        (rdlen % 256) as u8,
    ]);
}

/// What `idna::domain_to_ascii` returns for a domain: its ASCII (punycode) form, or
/// `None` when the crate rejects it.
pub uninterp spec fn idna_ascii(domain: Seq<char>) -> Option<Seq<char>>;

/// `idna::domain_to_ascii`: the ASCII form of a domain, or `None` when the idna crate
/// rejects it. The result is the named function of the domain; nothing more is claimed.
#[verifier::external_body]
pub(crate) fn domain_to_ascii(domain: &str) -> (r: Option<String>)
    ensures
        match r {
            Some(s) => idna_ascii(domain@) == Some(s@),
            None => idna_ascii(domain@) is None,
        },
{
    idna::domain_to_ascii(domain).ok()
}

/// A domain in the form the resolver keys on: trimmed, trailing dots dropped, converted to
/// its IDNA ASCII form and lower-cased; the empty domain stays empty.
pub open spec fn normalize_domain_spec(domain: Seq<char>) -> Result<Seq<char>, WireError> {
    let trimmed = trim_end_char(trim(domain), '.');
    if trimmed.len() == 0 {
        Ok(Seq::empty())
    } else {
        match idna_ascii(trimmed) {
            None => Err(WireError::InvalidIdna),
            Some(a) => Ok(lower_seq(trim_end_char(a, '.'))),
        }
    }
}

pub fn normalize_domain(domain: &str) -> (r: Result<String, WireError>)
    ensures
        match r {
            Ok(s) => normalize_domain_spec(domain@) == Ok::<Seq<char>, WireError>(s@),
            Err(e) => normalize_domain_spec(domain@) == Err::<Seq<char>, WireError>(e),
        },
{
    let v = chars_of(domain);
    let trimmed = trim_end_char_chars(&trim_chars(&v), '.');
    if trimmed.len() == 0 {
        let empty = String::new();
        assert(empty@ =~= Seq::<char>::empty());
        return Ok(empty);
    }
    let text = string_from_chars(trimmed.as_slice());
    match domain_to_ascii(text.as_str()) {
        None => Err(WireError::InvalidIdna),
        Some(ascii) => {
            let a = chars_of(ascii.as_str());
            let l = lower_chars(&trim_end_char_chars(&a, '.'));
            Ok(string_from_chars(l.as_slice()))
        },
    }
}

/// The normalized domain, or, when IDNA rejects it, the trimmed domain with trailing dots
/// dropped and ASCII letters lower-cased.
pub open spec fn normalize_domain_lossy_spec(domain: Seq<char>) -> Seq<char> {
    match normalize_domain_spec(domain) {
        Ok(d) => d,
        Err(_) => lower_seq(trim_end_char(trim(domain), '.')),
    }
}

pub fn normalize_domain_lossy(domain: &str) -> (r: String)
    ensures
        r@ == normalize_domain_lossy_spec(domain@),
{
    match normalize_domain(domain) {
        Ok(d) => d,
        Err(_) => {
            let v = chars_of(domain);
            let l = lower_chars(&trim_end_char_chars(&trim_chars(&v), '.'));
            string_from_chars(l.as_slice())
        },
    }
}

/// Reading back an id just written gives that id.
pub proof fn law_set_id_read_back(msg: Seq<u8>, id: u16)
    requires
        msg.len() >= 2,
    ensures
        message_id_spec(msg.update(0, (id / 256) as u8).update(1, (id % 256) as u8)) == Some(id),
{
    let out = msg.update(0, (id / 256) as u8).update(1, (id % 256) as u8);
    assert(out[0] == (id / 256) as u8);
    assert(out[1] == (id % 256) as u8);
}

/// The smallest answer TTL is one of the answer TTLs and no answer TTL is smaller.
pub proof fn law_answer_min_ttl_is_least(msg: Seq<u8>)
    requires
        answer_min_ttl_spec(msg) matches Ok(Some(_)),
    ensures
        ({
            let ttls = ttls_at(msg, section_ttl_offsets_spec(msg, true)->Ok_0);
            let m = answer_min_ttl_spec(msg)->Ok_0->Some_0;
            &&& exists|i: int| 0 <= i < ttls.len() && ttls[i] == m
            &&& forall|i: int| 0 <= i < ttls.len() ==> m <= #[trigger] ttls[i]
        }),
{
    let ttls = ttls_at(msg, section_ttl_offsets_spec(msg, true)->Ok_0);
    lemma_min_ttl_is_min(ttls);
}

/// The query type a record type name stands for (trimmed, any case), or the name refused.
pub open spec fn lookup_qtype_spec(record_type: Seq<char>) -> Result<u16, Seq<char>> {
    let v = crate::text::upper_seq(crate::text::trim(record_type));
    if v == "A"@ {
        Ok(TYPE_A)
    } else if v == "AAAA"@ {
        Ok(TYPE_AAAA)
    } else if v == "CNAME"@ {
        Ok(TYPE_CNAME)
    } else if v == "MX"@ {
        Ok(TYPE_MX)
    } else if v == "TXT"@ {
        Ok(TYPE_TXT)
    } else if v == "NS"@ {
        Ok(TYPE_NS)
    } else if v == "SOA"@ {
        Ok(TYPE_SOA)
    } else if v == "HTTPS"@ {
        Ok(TYPE_HTTPS)
    } else {
        Err(v)
    }
}

/// The query type for a record type name given by the user.
pub fn lookup_qtype(record_type: &str) -> (r: Result<u16, WireError>)
    ensures
        match r {
            Ok(t) => lookup_qtype_spec(record_type@) == Ok::<u16, Seq<char>>(t),
            Err(e) => e matches WireError::UnsupportedRecordType(v) && lookup_qtype_spec(record_type@) == Err::<
                u16,
                Seq<char>,
            >(v@),
        },
{
    let v = crate::text::upper_chars(&crate::text::trim_chars(&crate::text::chars_of(record_type)));
    let t = crate::text::string_from_chars(v.as_slice());
    let s = t.as_str();
    if crate::text::str_eq(s, "A") {
        Ok(TYPE_A)
    } else if crate::text::str_eq(s, "AAAA") {
        Ok(TYPE_AAAA)
    } else if crate::text::str_eq(s, "CNAME") {
        Ok(TYPE_CNAME)
    } else if crate::text::str_eq(s, "MX") {
        Ok(TYPE_MX)
    } else if crate::text::str_eq(s, "TXT") {
        Ok(TYPE_TXT)
    } else if crate::text::str_eq(s, "NS") {
        Ok(TYPE_NS)
    } else if crate::text::str_eq(s, "SOA") {
        Ok(TYPE_SOA)
    } else if crate::text::str_eq(s, "HTTPS") {
        Ok(TYPE_HTTPS)
    } else {
        Err(WireError::UnsupportedRecordType(t))
    }
}

/// The name of a query type, `UNKNOWN` for the others.
pub open spec fn qtype_label_spec(qtype: u16) -> Seq<char> {
    if qtype == TYPE_A {
        "A"@
    } else if qtype == TYPE_AAAA {
        "AAAA"@
    } else if qtype == TYPE_CNAME {
        "CNAME"@
    } else if qtype == TYPE_MX {
        "MX"@
    } else if qtype == TYPE_TXT {
        "TXT"@
    } else if qtype == TYPE_NS {
        "NS"@
    } else if qtype == TYPE_SOA {
        "SOA"@
    } else if qtype == TYPE_HTTPS {
        "HTTPS"@
    } else {
        "UNKNOWN"@
    }
}

/// The name of a query type.
pub fn qtype_label(qtype: u16) -> (r: &'static str)
    ensures
        r@ == qtype_label_spec(qtype),
{
    if qtype == TYPE_A {
        "A"
    } else if qtype == TYPE_AAAA {
        "AAAA"
    } else if qtype == TYPE_CNAME {
        "CNAME"
    } else if qtype == TYPE_MX {
        "MX"
    } else if qtype == TYPE_TXT {
        "TXT"
    } else if qtype == TYPE_NS {
        "NS"
    } else if qtype == TYPE_SOA {
        "SOA"
    } else if qtype == TYPE_HTTPS {
        "HTTPS"
    } else {
        "UNKNOWN"
    }
}

/// The name of a response code: NOERROR, NXDOMAIN, SERVFAIL, REFUSED, `RCODE n` for the
/// others, INVALID without one.
pub open spec fn response_code_label_spec(code: Option<u8>) -> Seq<char> {
    match code {
        Some(c) => if c == RCODE_SUCCESS {
            "NOERROR"@
        } else if c == RCODE_NAME_ERROR {
            "NXDOMAIN"@
        } else if c == RCODE_SERVER_FAILURE {
            "SERVFAIL"@
        } else if c == RCODE_REFUSED {
            "REFUSED"@
        } else {
            "RCODE "@ + crate::text::decimal(c as nat)
        },
        None => "INVALID"@,
    }
}

/// The name of a response code.
pub fn response_code_label(code: Option<u8>) -> (r: String)
    ensures
        r@ == response_code_label_spec(code),
{
    match code {
        Some(c) => if c == RCODE_SUCCESS {
            String::from_str("NOERROR")
        } else if c == RCODE_NAME_ERROR {
            String::from_str("NXDOMAIN")
        } else if c == RCODE_SERVER_FAILURE {
            String::from_str("SERVFAIL")
        } else if c == RCODE_REFUSED {
            String::from_str("REFUSED")
        } else {
            let mut r = String::from_str("RCODE ");
            r.append(crate::text::decimal_string(c as u64).as_str());
            r
        },
        None => String::from_str("INVALID"),
    }
}

} // verus!
