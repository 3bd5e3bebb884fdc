//! DNS messages the resolver builds and reads through `hickory_proto`: the question
//! read from a query's header and question section, queries for lookups, responses
//! for local answers and failures, and the answer records of a lookup. The decisions
//! (which checks a query must pass, which answers a hosts entry gives, how records
//! are shown) are made here; encoding and decoding are hickory's.
use crate::desktop::{texts_of, DnsLookupRecord, DnsLookupResult};
use crate::hosts::{lookup_host, HostEntry, Hosts};
use crate::net::{parse_ip, parse_ip_spec, IpAddress};
use crate::text::{append_str, decimal, decimal_string, string_from_chars};
use crate::wire::{
    answer_count, answer_count_spec, dns_message_id, lookup_qtype, lookup_qtype_spec, normalize_domain,
    normalize_domain_lossy, normalize_domain_lossy_spec, normalize_domain_spec, parse_question_name,
    qtype_label, qtype_label_spec, question_name_spec, rcode, rcode_spec, read_u16, response_code_label,
    response_code_label_spec, u16_at, WireError, TYPE_A, TYPE_AAAA,
};
use hickory_proto::op::{Message, MessageType, OpCode, Query, ResponseCode};
use hickory_proto::rr::rdata::{A, AAAA};
use hickory_proto::rr::{DNSClass, Name, RData, Record, RecordType};
use crate::text::{debug_quoted, debug_text};
use vstd::prelude::*;

verus! {

/// The query id of the queries the application sends for lookups.
pub const LOOKUP_QUERY_ID: u16 = 0x1234;

/// The TTL of the answers given from the hosts table.
pub const HOSTS_TTL: u32 = 60;

/// The single question of a query, with the header fields a response echoes.
#[derive(Clone, Debug)]
pub struct Question {
    pub id: u16,
    pub qname: String,
    pub normalized_qname: String,
    pub qtype: u16,
    pub qclass: u16,
    pub op_code: u8,
    pub recursion_desired: bool,
    pub checking_disabled: bool,
}

/// A question as values.
pub struct QuestionView {
    pub id: u16,
    pub qname: Seq<char>,
    pub normalized_qname: Seq<char>,
    pub qtype: u16,
    pub qclass: u16,
    pub op_code: u8,
    pub recursion_desired: bool,
    pub checking_disabled: bool,
}

impl View for Question {
    type V = QuestionView;

    open spec fn view(&self) -> QuestionView {
        QuestionView {
            id: self.id,
            qname: self.qname@,
            normalized_qname: self.normalized_qname@,
            qtype: self.qtype,
            qclass: self.qclass,
            op_code: self.op_code,
            recursion_desired: self.recursion_desired,
            checking_disabled: self.checking_disabled,
        }
    }
}

/// Whether `hickory_proto::rr::Name::from_ascii` accepts a dotted name.
pub uninterp spec fn ascii_name_valid(name: Seq<char>) -> bool;

/// `Name::from_ascii(name).is_ok()`: whether hickory reads the dotted name. The answer
/// is the named function of the name; nothing more is claimed.
#[verifier::external_body]
fn ascii_name_accepted(name: &str) -> (b: bool)
    ensures
        b == ascii_name_valid(name@),
{
    Name::from_ascii(name).is_ok()
}

/// The question of a query: the header must be complete and hold exactly one
/// question, whose name must be readable (and accepted by hickory unless it is the
/// root) and be followed by its type and class.
pub open spec fn question_spec(req: Seq<u8>) -> Result<QuestionView, WireError> {
    if req.len() < 12 {
        Err(WireError::QueryTooShort)
    } else if u16_at(req, 4) != 1 {
        Err(WireError::MultipleQuestions)
    } else {
        match question_name_spec(req, 12) {
            Err(e) => Err(e),
            Ok((qname, off)) => if off + 4 > req.len() {
                Err(WireError::QuestionTruncated)
            } else if qname.len() > 0 && !ascii_name_valid(qname) {
                Err(WireError::NameRejected)
            } else {
                let flags = u16_at(req, 2);
                Ok(
                    QuestionView {
                        id: u16_at(req, 0) as u16,
                        qname,
                        normalized_qname: normalize_domain_lossy_spec(qname),
                        qtype: u16_at(req, off) as u16,
                        qclass: u16_at(req, off + 2) as u16,
                        op_code: ((flags / 2048) % 16) as u8,
                        recursion_desired: (flags / 256) % 2 == 1,
                        checking_disabled: (flags / 16) % 2 == 1,
                    },
                )
            },
        }
    }
}

/// Reads the single question of a query without decoding the whole message.
pub fn parse_question(req: &[u8]) -> (r: Result<Question, WireError>)
    ensures
        match r {
            Ok(q) => question_spec(req@) == Ok::<QuestionView, WireError>(q@),
            Err(e) => question_spec(req@) == Err::<QuestionView, WireError>(e),
        },
{
    if req.len() < 12 {
        return Err(WireError::QueryTooShort);
    }
    if read_u16(req, 4) != 1 {
        return Err(WireError::MultipleQuestions);
    }
    let id = read_u16(req, 0);
    let flags = read_u16(req, 2);
    let (qname, offset) = match parse_question_name(req, 12) {
        Ok(p) => p,
        Err(e) => return Err(e),
    };
    if offset > req.len() || req.len() - offset < 4 {
        return Err(WireError::QuestionTruncated);
    }
    let qtype = read_u16(req, offset);
    let qclass = read_u16(req, offset + 2);
    if !qname.as_str().is_empty() && !ascii_name_accepted(qname.as_str()) {
        return Err(WireError::NameRejected);
    }
    let normalized_qname = normalize_domain_lossy(qname.as_str());
    Ok(
        Question {
            id,
            qname,
            normalized_qname,
            qtype,
            qclass,
            op_code: ((flags / 2048) % 16) as u8,
            recursion_desired: (flags / 256) % 2 == 1,
            checking_disabled: (flags / 16) % 2 == 1,
        },
    )
}

/// The bytes hickory encodes for a recursive query with id `id` for the name `name`
/// (read with `Name::from_ascii`, the root when it is not accepted) and type `qtype`.
pub uninterp spec fn query_encoding(id: u16, name: Seq<char>, qtype: u16) -> Seq<u8>;

/// Builds a query with `Message::new` (id `id`, a query, opcode QUERY, recursion
/// desired), one question for `name` read by `Name::from_ascii` (the root when that
/// fails) and `RecordType::from(qtype)`, and encodes it with `to_vec` (no bytes when
/// that fails). The bytes are the named function of the arguments.
#[verifier::external_body]
fn encode_query(id: u16, name: &str, qtype: u16) -> (r: Vec<u8>)
    ensures
        r@ == query_encoding(id, name@, qtype),
{
    let name = Name::from_ascii(name).unwrap_or_else(|_| Name::root());
    let mut msg = Message::new(id, MessageType::Query, OpCode::Query);
    msg.metadata.recursion_desired = true;
    msg.add_query(Query::query(name, RecordType::from(qtype)));
    msg.to_vec().unwrap_or_default()
}

/// The name a query or response carries for a question name: `.` (the root) for the
/// empty name.
pub open spec fn wire_name(name: Seq<char>) -> Seq<char> {
    if name.len() == 0 {
        "."@
    } else {
        name
    }
}

fn wire_name_of(name: &str) -> (r: String)
    ensures
        r@ == wire_name(name@),
{
    if name.is_empty() {
        ".".to_owned()
    } else {
        name.to_owned()
    }
}

/// The query sent for a lookup of `domain` with type `qtype`: the domain is normalized
/// (or only trimmed and lower-cased when IDNA rejects it).
pub fn build_query(domain: &str, qtype: u16) -> (r: Vec<u8>)
    ensures
        r@ == query_encoding(LOOKUP_QUERY_ID, wire_name(normalize_domain_lossy_spec(domain@)), qtype),
{
    let d = normalize_domain_lossy(domain);
    let name = wire_name_of(d.as_str());
    encode_query(LOOKUP_QUERY_ID, name.as_str(), qtype)
}

/// The type a health probe asks for: NS of the root when the probe domain is `.`, else A.
pub open spec fn probe_qtype_spec(domain: Seq<char>) -> u16 {
    if domain == seq!['.'] {
        crate::wire::TYPE_NS
    } else {
        TYPE_A
    }
}

/// The query a health probe sends for `domain`.
pub fn probe_query(domain: &str) -> (r: Vec<u8>)
    ensures
        r@ == query_encoding(LOOKUP_QUERY_ID, wire_name(normalize_domain_lossy_spec(domain@)), probe_qtype_spec(domain@)),
{
    proof {
        reveal_strlit(".");
        assert("."@ =~= seq!['.']);
    }
    let qtype = if crate::text::str_eq(domain, ".") {
        crate::wire::TYPE_NS
    } else {
        TYPE_A
    };
    build_query(domain, qtype)
}

/// The bytes of the response hickory builds to a question: its id and opcode, its
/// recursion-desired and checking-disabled flags, recursion available as given, the
/// response code, and the question (name `qname`, type and class) repeated; `None`
/// when hickory cannot encode it.
pub uninterp spec fn response_encoding(q: QuestionView, qname: Seq<char>, rcode: u8, recursion_available: bool) -> Option<Seq<u8>>;

/// Builds a response to a question with `Message::response`, sets its flags and
/// response code (`ResponseCode::from_low`), adds the question (`Name::from_ascii(qname)`,
/// `RecordType::from`, `DNSClass::from`) and encodes it with `to_vec`; `None` when the
/// name is not accepted or encoding fails. The bytes are the named function of the
/// arguments.
#[verifier::external_body]
fn encode_response(q: &Question, qname: &str, rcode: u8, recursion_available: bool) -> (r: Option<Vec<u8>>)
    ensures
        match r {
            Some(b) => response_encoding(q@, qname@, rcode, recursion_available) == Some(b@),
            None => response_encoding(q@, qname@, rcode, recursion_available) is None,
        },
{
    let mut m = Message::response(q.id, OpCode::from_u8(q.op_code));
    m.metadata.recursion_desired = q.recursion_desired;
    m.metadata.recursion_available = recursion_available;
    m.metadata.checking_disabled = q.checking_disabled;
    m.metadata.response_code = ResponseCode::from_low(rcode);
    let mut query = Query::query(Name::from_ascii(qname).ok()?, RecordType::from(q.qtype));
    query.set_query_class(DNSClass::from(q.qclass));
    m.add_query(query);
    m.to_vec().ok()
}

/// The bytes of the message `base` with answers for `ips` added, each for the name
/// `name` with TTL `ttl`; `None` when hickory cannot decode `base` or encode the result.
pub uninterp spec fn answers_added(base: Seq<u8>, name: Seq<char>, ttl: u32, ips: Seq<IpAddress>) -> Option<Seq<u8>>;

/// Decodes `base` with `Message::from_vec`, adds one `A` or `AAAA` record per address
/// (`Record::from_rdata` with the name read by `Name::from_ascii`, the root when that
/// fails, and TTL `ttl`), and encodes the message with `to_vec`; `None` when decoding
/// or encoding fails. The bytes are the named function of the arguments.
#[verifier::external_body]
fn encode_with_answers(base: &[u8], name: &str, ttl: u32, ips: &Vec<IpAddress>) -> (r: Option<Vec<u8>>)
    ensures
        match r {
            Some(b) => answers_added(base@, name@, ttl, ips@) == Some(b@),
            None => answers_added(base@, name@, ttl, ips@) is None,
        },
{
    let mut m = Message::from_vec(base).ok()?;
    let name = Name::from_ascii(name).unwrap_or_else(|_| Name::root());
    for ip in ips {
        let data = match *ip {
            IpAddress::V4(a, b, c, d) => RData::A(A::new(a, b, c, d)),
            IpAddress::V6(a, b, c, d, e, f, g, h) => RData::AAAA(AAAA::new(a, b, c, d, e, f, g, h)),
        };
        m.add_answer(Record::from_rdata(name.clone(), ttl, data));
    }
    m.to_vec().ok()
}

/// The SERVFAIL response code.
pub const RESPONSE_SERVFAIL: u8 = 2;

/// The NOERROR response code.
pub const RESPONSE_NOERROR: u8 = 0;

/// The response to a question with the given code and no answers, or no bytes when it
/// cannot be encoded.
pub open spec fn plain_response_spec(q: QuestionView, rcode: u8) -> Seq<u8> {
    match response_encoding(q, wire_name(q.qname), rcode, true) {
        Some(b) => b,
        None => Seq::empty(),
    }
}

fn plain_response(q: &Question, rcode: u8) -> (r: Vec<u8>)
    ensures
        r@ == plain_response_spec(q@, rcode),
{
    let name = wire_name_of(q.qname.as_str());
    match encode_response(q, name.as_str(), rcode, true) {
        Some(b) => b,
        None => Vec::new(),
    }
}

/// A SERVFAIL response to a question.
pub fn servfail_response_for_question(q: &Question) -> (r: Vec<u8>)
    ensures
        r@ == plain_response_spec(q@, RESPONSE_SERVFAIL),
{
    plain_response(q, RESPONSE_SERVFAIL)
}

/// The NOERROR response to a question with no answers; the SERVFAIL response to it when
/// that cannot be encoded.
pub open spec fn empty_success_spec(q: QuestionView) -> Seq<u8> {
    match response_encoding(q, wire_name(q.qname), RESPONSE_NOERROR, true) {
        Some(b) => b,
        None => plain_response_spec(q, RESPONSE_SERVFAIL),
    }
}

/// A NOERROR response to a question with no answers.
pub fn empty_success_response(q: &Question) -> (r: Vec<u8>)
    ensures
        r@ == empty_success_spec(q@),
{
    let name = wire_name_of(q.qname.as_str());
    match encode_response(q, name.as_str(), RESPONSE_NOERROR, true) {
        Some(b) => b,
        None => servfail_response_for_question(q),
    }
}

/// The response that answers a question from the hosts table: NOERROR with one record
/// per address for the normalized name, TTL 60; a SERVFAIL response when it cannot be
/// encoded.
pub open spec fn hosts_response_spec(q: QuestionView, ips: Seq<IpAddress>) -> Seq<u8> {
    match response_encoding(q, wire_name(q.qname), RESPONSE_NOERROR, true) {
        None => plain_response_spec(q, RESPONSE_SERVFAIL),
        Some(base) => match answers_added(base, q.normalized_qname, HOSTS_TTL, ips) {
            Some(b) => b,
            None => plain_response_spec(q, RESPONSE_SERVFAIL),
        },
    }
}

/// The response that answers a question with the given addresses.
pub fn hosts_response(q: &Question, ips: &Vec<IpAddress>) -> (r: Vec<u8>)
    ensures
        r@ == hosts_response_spec(q@, ips@),
{
    let name = wire_name_of(q.qname.as_str());
    match encode_response(q, name.as_str(), RESPONSE_NOERROR, true) {
        None => servfail_response_for_question(q),
        Some(base) => match encode_with_answers(base.as_slice(), q.normalized_qname.as_str(), HOSTS_TTL, ips) {
            Some(b) => b,
            None => servfail_response_for_question(q),
        },
    }
}

/// The addresses of a family, in their order.
pub open spec fn of_family(ips: Seq<IpAddress>, v4: bool) -> Seq<IpAddress>
    decreases ips.len(),
{
    if ips.len() == 0 {
        Seq::empty()
    } else if (ips.last() is V4) == v4 {
        of_family(ips.drop_last(), v4).push(ips.last())
    } else {
        of_family(ips.drop_last(), v4)
    }
}

/// The addresses of a family are exactly those of the list that belong to it, all of
/// them, in the list's order: the list filtered by family.
pub proof fn law_family_keeps_every_address(ips: Seq<IpAddress>, v4: bool)
    ensures
        of_family(ips, v4) == ips.filter(|ip: IpAddress| (ip is V4) == v4),
        forall|i: int| 0 <= i < ips.len() && ((ips[i] is V4) == v4) ==> #[trigger] of_family(ips, v4).contains(ips[i]),
        forall|k: int| 0 <= k < of_family(ips, v4).len() ==> (#[trigger] of_family(ips, v4)[k] is V4) == v4
            && ips.contains(of_family(ips, v4)[k]),
    decreases ips.len(),
{
    let pred = |ip: IpAddress| (ip is V4) == v4;
    reveal_with_fuel(Seq::filter, 1);
    if ips.len() > 0 {
        law_family_keeps_every_address(ips.drop_last(), v4);
        assert(ips.drop_last().filter(pred) == of_family(ips.drop_last(), v4));
    } else {
        assert(ips.filter(pred) =~= Seq::<IpAddress>::empty());
    }
    ips.filter_lemma(pred);
    assert forall|i: int| 0 <= i < ips.len() && ((ips[i] is V4) == v4) implies #[trigger] of_family(ips, v4).contains(
        ips[i],
    ) by {
        assert(pred(ips[i]));
        assert(ips.contains(ips[i]));
    }
}

/// The hosts answer to an `A` (`AAAA`) question holds every IPv4 (IPv6) address of the
/// entry, in the configured order, and no other; there is one exactly when the entry has
/// an address of that family.
pub proof fn law_hosts_answer_holds_all_addresses(q: QuestionView, ips: Seq<IpAddress>)
    ensures
        q.qtype == TYPE_A ==> hosts_answer_spec(q, ips) == if exists|i: int| 0 <= i < ips.len() && #[trigger] ips[i] is V4 {
            Some(hosts_response_spec(q, ips.filter(|ip: IpAddress| ip is V4)))
        } else {
            None::<Seq<u8>>
        },
        q.qtype == TYPE_AAAA ==> hosts_answer_spec(q, ips) == if exists|i: int| 0 <= i < ips.len() && #[trigger] ips[i] is V6 {
            Some(hosts_response_spec(q, ips.filter(|ip: IpAddress| ip is V6)))
        } else {
            None::<Seq<u8>>
        },
{
    law_family_keeps_every_address(ips, true);
    law_family_keeps_every_address(ips, false);
    assert((|ip: IpAddress| (ip is V4) == true) =~= (|ip: IpAddress| ip is V4));
    assert((|ip: IpAddress| (ip is V4) == false) =~= (|ip: IpAddress| ip is V6));
    assert(of_family(ips, true) == ips.filter(|ip: IpAddress| ip is V4));
    assert(of_family(ips, false) == ips.filter(|ip: IpAddress| ip is V6));
    if exists|i: int| 0 <= i < ips.len() && #[trigger] ips[i] is V4 {
        let i = choose|i: int| 0 <= i < ips.len() && #[trigger] ips[i] is V4;
        assert(of_family(ips, true).contains(ips[i]));
    } else if of_family(ips, true).len() > 0 {
        let x = of_family(ips, true)[0];
        assert(ips.contains(x));
        let j = choose|j: int| 0 <= j < ips.len() && ips[j] == x;
        assert(ips[j] is V4);
    }
    if exists|i: int| 0 <= i < ips.len() && #[trigger] ips[i] is V6 {
        let i = choose|i: int| 0 <= i < ips.len() && #[trigger] ips[i] is V6;
        assert(of_family(ips, false).contains(ips[i]));
    } else if of_family(ips, false).len() > 0 {
        let x = of_family(ips, false)[0];
        assert(ips.contains(x));
        let j = choose|j: int| 0 <= j < ips.len() && ips[j] == x;
        assert(ips[j] is V6);
    }
}

fn family_only(ips: &Vec<IpAddress>, v4: bool) -> (r: Vec<IpAddress>)
    ensures
        r@ == of_family(ips@, v4),
{
    let mut r: Vec<IpAddress> = Vec::new();
    let mut i: usize = 0;
    while i < ips.len()
        invariant
            i <= ips@.len(),
            r@ == of_family(ips@.take(i as int), v4),
        decreases ips@.len() - i,
    {
        assert(ips@.take(i + 1).drop_last() =~= ips@.take(i as int));
        assert(ips@.take(i + 1).last() == ips@[i as int]);
        let is_v4 = match ips[i] {
            IpAddress::V4(..) => true,
            IpAddress::V6(..) => false,
        };
        if is_v4 == v4 {
            r.push(ips[i]);
        }
        i = i + 1;
    }
    assert(ips@.take(ips@.len() as int) =~= ips@);
    r
}

/// The local answer to a question from a hosts entry with the given addresses: an `A`
/// question with IPv4 addresses is answered with them, an `AAAA` question with IPv6
/// addresses with those; any other question is not answered locally.
pub open spec fn hosts_answer_spec(q: QuestionView, ips: Seq<IpAddress>) -> Option<Seq<u8>> {
    if q.qtype == TYPE_A && of_family(ips, true).len() > 0 {
        Some(hosts_response_spec(q, of_family(ips, true)))
    } else if q.qtype == TYPE_AAAA && of_family(ips, false).len() > 0 {
        Some(hosts_response_spec(q, of_family(ips, false)))
    } else {
        None
    }
}

/// The local answer to a question from the hosts table, if it has one: the entry of the
/// normalized name decides, as `hosts_answer_spec` says.
pub fn resolve_hosts(hosts: &Hosts, q: &Question) -> (r: Option<Vec<u8>>)
    ensures
        match lookup_host(hosts@, q@.normalized_qname) {
            Some(e) => match (r, hosts_answer_spec(q@, e.ips)) {
                (Some(b), Some(t)) => b@ == t,
                (None, None) => true,
                _ => false,
            },
            None => r is None,
        },
{
    let entry: &HostEntry = match hosts.get(q.normalized_qname.as_str()) {
        Some(e) => e,
        None => return None,
    };
    let v4 = family_only(&entry.ips, true);
    let v6 = family_only(&entry.ips, false);
    if q.qtype == TYPE_A && v4.len() > 0 {
        Some(hosts_response(q, &v4))
    } else if q.qtype == TYPE_AAAA && v6.len() > 0 {
        Some(hosts_response(q, &v6))
    } else {
        None
    }
}

/// The bytes of hickory's response to a query it can decode: the query's id, opcode,
/// recursion-desired and checking-disabled flags and questions, recursion available as
/// given, and the response code; the outer `None` when the query cannot be decoded,
/// the inner one when the response cannot be encoded.
pub uninterp spec fn query_response_encoding(req: Seq<u8>, rcode: u8, recursion_available: bool) -> Option<Option<Seq<u8>>>;

/// Decodes a query with `Message::from_vec` and encodes, with `to_vec`, the response
/// `Message::response` builds from its id and opcode, with its flags and questions,
/// recursion available as given and `ResponseCode::from_low(rcode)`. The result is the
/// named function of the arguments.
#[verifier::external_body]
fn encode_query_response(req: &[u8], rcode: u8, recursion_available: bool) -> (r: Option<Option<Vec<u8>>>)
    ensures
        match r {
            None => query_response_encoding(req@, rcode, recursion_available) is None,
            Some(None) => query_response_encoding(req@, rcode, recursion_available) == Some(None::<Seq<u8>>),
            Some(Some(b)) => query_response_encoding(req@, rcode, recursion_available) == Some(Some(b@)),
        },
{
    let query = Message::from_vec(req).ok()?;
    let mut m = Message::response(query.metadata.id, query.metadata.op_code);
    m.metadata.recursion_desired = query.metadata.recursion_desired;
    m.metadata.recursion_available = recursion_available;
    m.metadata.checking_disabled = query.metadata.checking_disabled;
    m.metadata.response_code = ResponseCode::from_low(rcode);
    m.add_queries(query.queries);
    Some(m.to_vec().ok())
}

/// The bytes of a response with only an id, opcode QUERY and a response code; `None`
/// when hickory cannot encode it.
pub uninterp spec fn bare_response_encoding(id: u16, rcode: u8) -> Option<Seq<u8>>;

/// Encodes, with `to_vec`, the response `Message::response(id, OpCode::Query)` with
/// `ResponseCode::from_low(rcode)`. The bytes are the named function of the arguments.
#[verifier::external_body]
fn encode_bare_response(id: u16, rcode: u8) -> (r: Option<Vec<u8>>)
    ensures
        match r {
            Some(b) => bare_response_encoding(id, rcode) == Some(b@),
            None => bare_response_encoding(id, rcode) is None,
        },
{
    let mut m = Message::response(id, OpCode::Query);
    m.metadata.response_code = ResponseCode::from_low(rcode);
    m.to_vec().ok()
}

/// The SERVFAIL response to a raw query: the response hickory builds to it when it can
/// decode it, else a bare response with the query's id (0 when it has none); the query's
/// own bytes when encoding fails.
pub open spec fn servfail_response_spec(req: Seq<u8>) -> Seq<u8> {
    match query_response_encoding(req, RESPONSE_SERVFAIL, true) {
        Some(Some(b)) => b,
        Some(None) => req,
        None => {
            let id: u16 = if req.len() >= 2 { u16_at(req, 0) as u16 } else { 0 };
            match bare_response_encoding(id, RESPONSE_SERVFAIL) {
                Some(b) => b,
                None => req,
            }
        },
    }
}

fn bytes_copy(b: &[u8]) -> (r: Vec<u8>)
    ensures
        r@ == b@,
{
    let mut r: Vec<u8> = Vec::new();
    crate::upstream::append_bytes(&mut r, b);
    assert(r@ =~= b@);
    r
}

/// The SERVFAIL response to a raw query.
pub fn servfail_response(req: &[u8]) -> (r: Vec<u8>)
    ensures
        r@ == servfail_response_spec(req@),
{
    match encode_query_response(req, RESPONSE_SERVFAIL, true) {
        Some(Some(b)) => b,
        Some(None) => bytes_copy(req),
        None => {
            let id = match dns_message_id(req) {
                Some(id) => id,
                None => 0,
            };
            match encode_bare_response(id, RESPONSE_SERVFAIL) {
                Some(b) => b,
                None => bytes_copy(req),
            }
        },
    }
}

/// The data of an answer record as the lookup shows it: an SOA record's primary name
/// server, responsible mailbox and serial, or the text hickory displays for any other.
#[derive(Clone, Debug)]
pub enum AnswerData {
    Soa(String, String, u32),
    Text(String),
}

/// Record data as values.
pub enum AnswerDataView {
    Soa(Seq<char>, Seq<char>, u32),
    Text(Seq<char>),
}

impl View for AnswerData {
    type V = AnswerDataView;

    open spec fn view(&self) -> AnswerDataView {
        match self {
            AnswerData::Soa(m, r, s) => AnswerDataView::Soa(m@, r@, *s),
            AnswerData::Text(t) => AnswerDataView::Text(t@),
        }
    }
}

/// One answer record of a response, as hickory decodes it: the owner name in ASCII,
/// the type number, the TTL and the data.
#[derive(Clone, Debug)]
pub struct AnswerRecord {
    pub name: String,
    pub rr_type: u16,
    pub ttl: u32,
    pub data: AnswerData,
}

/// An answer record as values.
pub struct AnswerRecordView {
    pub name: Seq<char>,
    pub rr_type: u16,
    pub ttl: u32,
    pub data: AnswerDataView,
}

impl View for AnswerRecord {
    type V = AnswerRecordView;

    open spec fn view(&self) -> AnswerRecordView {
        AnswerRecordView { name: self.name@, rr_type: self.rr_type, ttl: self.ttl, data: self.data@ }
    }
}

/// The views of a list of answer records.
pub open spec fn answer_views(v: Seq<AnswerRecord>) -> Seq<AnswerRecordView> {
    v.map_values(|a: AnswerRecord| a@)
}

/// The answer records hickory decodes from a response, or `None` when it cannot decode
/// it.
pub uninterp spec fn decoded_answers(resp: Seq<u8>) -> Option<Seq<AnswerRecordView>>;

/// Decodes a response with `Message::from_vec` and lists its answer records: the owner
/// name (`Name::to_ascii`), the type number, the TTL, and for SOA data its `mname`,
/// `rname` (in ASCII) and `serial`, for other data its `Display` text. The list is the
/// named function of the bytes.
#[verifier::external_body]
fn decode_answers(resp: &[u8]) -> (r: Option<Vec<AnswerRecord>>)
    ensures
        match r {
            Some(v) => decoded_answers(resp@) == Some(answer_views(v@)),
            None => decoded_answers(resp@) is None,
        },
{
    let msg = Message::from_vec(resp).ok()?;
    Some(msg.answers.iter().map(|r| AnswerRecord {
        name: r.name.to_ascii(),
        rr_type: u16::from(r.record_type()),
        ttl: r.ttl,
        data: match &r.data {
            RData::SOA(s) => AnswerData::Soa(s.mname.to_ascii(), s.rname.to_ascii(), s.serial),
            d => AnswerData::Text(d.to_string()),
        },
    }).collect())
}

/// The value a lookup shows for record data: `mname rname serial=N` for SOA (names
/// normalized), the normalized text for other data.
pub open spec fn record_value_spec(d: AnswerDataView) -> Seq<char> {
    match d {
        AnswerDataView::Soa(m, r, s) => normalize_domain_lossy_spec(m) + seq![' '] + normalize_domain_lossy_spec(r)
            + " serial="@ + decimal(s as nat),
        AnswerDataView::Text(t) => normalize_domain_lossy_spec(t),
    }
}

fn record_value(d: &AnswerData) -> (r: String)
    ensures
        r@ == record_value_spec(d@),
{
    match d {
        AnswerData::Soa(m, rn, s) => {
            let mut out: Vec<char> = Vec::new();
            append_str(&mut out, normalize_domain_lossy(m.as_str()).as_str());
            out.push(' ');
            append_str(&mut out, normalize_domain_lossy(rn.as_str()).as_str());
            append_str(&mut out, " serial=");
            append_str(&mut out, decimal_string(*s as u64).as_str());
            string_from_chars(out.as_slice())
        },
        AnswerData::Text(t) => normalize_domain_lossy(t.as_str()),
    }
}

/// A lookup record as values.
pub struct LookupRecordView {
    pub name: Seq<char>,
    pub record_type: Seq<char>,
    pub ttl: u32,
    pub value: Seq<char>,
}

/// The lookup record shown for an answer record.
pub open spec fn lookup_record_spec(a: AnswerRecordView) -> LookupRecordView {
    LookupRecordView {
        name: normalize_domain_lossy_spec(a.name),
        record_type: qtype_label_spec(a.rr_type),
        ttl: a.ttl,
        value: record_value_spec(a.data),
    }
}

/// The views of a list of lookup records.
pub open spec fn lookup_record_views(v: Seq<DnsLookupRecord>) -> Seq<LookupRecordView> {
    v.map_values(|r: DnsLookupRecord| LookupRecordView { name: r.name@, record_type: r.record_type@, ttl: r.ttl, value: r.value@ })
}

/// The records a lookup shows for a response, one per answer record in order; an
/// error when the response cannot be decoded.
pub fn parse_lookup_records(resp: &[u8]) -> (r: Result<Vec<DnsLookupRecord>, String>)
    ensures
        match r {
            Ok(v) => decoded_answers(resp@) matches Some(a) && lookup_record_views(v@) == a.map_values(
                |x: AnswerRecordView| lookup_record_spec(x),
            ),
            Err(e) => decoded_answers(resp@) is None && e@ == "decode dns response"@,
        },
{
    let answers = match decode_answers(resp) {
        Some(a) => a,
        None => return Err("decode dns response".to_owned()),
    };
    let ghost av = answer_views(answers@);
    let mut out: Vec<DnsLookupRecord> = Vec::new();
    let mut i: usize = 0;
    while i < answers.len()
        invariant
            i <= answers@.len(),
            av == answer_views(answers@),
            lookup_record_views(out@) == av.take(i as int).map_values(|x: AnswerRecordView| lookup_record_spec(x)),
        decreases answers@.len() - i,
    {
        let a = &answers[i];
        let rec = DnsLookupRecord {
            name: normalize_domain_lossy(a.name.as_str()),
            record_type: qtype_label(a.rr_type).to_owned(),
            ttl: a.ttl,
            value: record_value(&a.data),
        };
        let ghost before = lookup_record_views(out@);
        assert(av[i as int] == a@);
        out.push(rec);
        assert(lookup_record_views(out@) =~= before.push(lookup_record_spec(a@)));
        assert(av.take(i + 1).map_values(|x: AnswerRecordView| lookup_record_spec(x)) =~= av.take(i as int).map_values(
            |x: AnswerRecordView| lookup_record_spec(x),
        ).push(lookup_record_spec(a@)));
        i = i + 1;
    }
    assert(av.take(answers@.len() as int) =~= av);
    Ok(out)
}

/// The addresses a bootstrap server's response gives for `qtype`: those answer
/// records of that type whose shown value reads as an address, in order.
pub open spec fn bootstrap_ips_from(answers: Seq<AnswerRecordView>, qtype: u16) -> Seq<IpAddress>
    decreases answers.len(),
{
    if answers.len() == 0 {
        Seq::empty()
    } else {
        let a = answers.last();
        let rest = bootstrap_ips_from(answers.drop_last(), qtype);
        if a.rr_type == qtype {
            match parse_ip_spec(record_value_spec(a.data)) {
                Some(ip) => rest.push(ip),
                None => rest,
            }
        } else {
            rest
        }
    }
}

/// The addresses a bootstrap server answered for `qtype`: none unless the response
/// code is NOERROR; an error when the response cannot be decoded.
pub fn bootstrap_response_ips(resp: &[u8], qtype: u16) -> (r: Result<Vec<IpAddress>, String>)
    ensures
        match r {
            Ok(v) => decoded_answers(resp@) matches Some(a) && v@ == if rcode_spec(resp@) == Some(0u8) {
                bootstrap_ips_from(a, qtype)
            } else {
                Seq::empty()
            },
            Err(e) => decoded_answers(resp@) is None && e@ == "decode bootstrap DNS response"@,
        },
{
    let answers = match decode_answers(resp) {
        Some(a) => a,
        None => return Err("decode bootstrap DNS response".to_owned()),
    };
    let mut out: Vec<IpAddress> = Vec::new();
    match rcode(resp) {
        Some(c) => if c != 0 {
            return Ok(out);
        },
        None => return Ok(out),
    }
    let ghost av = answer_views(answers@);
    let mut i: usize = 0;
    while i < answers.len()
        invariant
            i <= answers@.len(),
            av == answer_views(answers@),
            out@ == bootstrap_ips_from(av.take(i as int), qtype),
        decreases answers@.len() - i,
    {
        assert(av.take(i + 1).drop_last() =~= av.take(i as int));
        assert(av.take(i + 1).last() == answers@[i as int]@);
        if answers[i].rr_type == qtype {
            let text = record_value(&answers[i].data);
            match parse_ip(text.as_str()) {
                Some(ip) => out.push(ip),
                None => {},
            }
        }
        i = i + 1;
    }
    assert(av.take(answers@.len() as int) =~= av);
    Ok(out)
}

/// What a lookup request asks for: the normalized domain and the query type.
pub open spec fn lookup_request_spec(domain: Seq<char>, record_type: Seq<char>) -> Result<(Seq<char>, u16), Seq<char>> {
    match lookup_qtype_spec(record_type) {
        Err(v) => Err("unsupported DNS record type "@ + debug_quoted(v)),
        Ok(t) => match normalize_domain_spec(domain) {
            Err(_) => Err("invalid IDNA domain"@),
            Ok(d) => if d.len() == 0 {
                Err("domain must not be empty"@)
            } else {
                Ok((d, t))
            },
        },
    }
}

/// Checks a lookup request: the record type must be supported and the domain must
/// normalize to a non-empty name.
pub fn lookup_request(domain: &str, record_type: &str) -> (r: Result<(String, u16), String>)
    ensures
        match (r, lookup_request_spec(domain@, record_type@)) {
            (Ok((d, t)), Ok((sd, st))) => d@ == sd && t == st,
            (Err(e), Err(se)) => e@ == se,
            _ => false,
        },
{
    let qtype = match lookup_qtype(record_type) {
        Ok(t) => t,
        Err(e) => {
            let mut out: Vec<char> = Vec::new();
            append_str(&mut out, "unsupported DNS record type ");
            match &e {
                WireError::UnsupportedRecordType(v) => append_str(&mut out, debug_text(v.as_str()).as_str()),
                _ => {},
            }
            return Err(string_from_chars(out.as_slice()));
        },
    };
    let d = match normalize_domain(domain) {
        Ok(d) => d,
        Err(_) => return Err("invalid IDNA domain".to_owned()),
    };
    if d.as_str().is_empty() {
        return Err("domain must not be empty".to_owned());
    }
    Ok((d, qtype))
}


/// The most answer values a history entry lists.
pub const HISTORY_MAX_ANSWERS: usize = 32;

/// Texts joined with `sep` between them.
pub open spec fn joined(items: Seq<Seq<char>>, sep: Seq<char>) -> Seq<char>
    decreases items.len(),
{
    if items.len() == 0 {
        Seq::empty()
    } else if items.len() == 1 {
        items[0]
    } else {
        joined(items.drop_last(), sep) + sep + items.last()
    }
}

/// The values of the first answers shown, and an ellipsis when there are more.
pub open spec fn summary_parts(a: Seq<AnswerRecordView>) -> Seq<Seq<char>> {
    let n = if a.len() > HISTORY_MAX_ANSWERS { HISTORY_MAX_ANSWERS as int } else { a.len() as int };
    let shown = a.take(n).map_values(|x: AnswerRecordView| record_value_spec(x.data));
    if a.len() > HISTORY_MAX_ANSWERS {
        shown.push(seq!['\u{2026}'])
    } else {
        shown
    }
}

/// The answers of a response as a history entry shows them: the values of at most
/// `HISTORY_MAX_ANSWERS` answer records separated by `, `, an ellipsis after them when
/// there are more; empty when hickory cannot decode the response.
pub open spec fn answer_summary_spec(resp: Seq<u8>) -> Seq<char> {
    match decoded_answers(resp) {
        None => Seq::empty(),
        Some(a) => joined(summary_parts(a), ", "@),
    }
}

/// Summarizes the answers of a response for the history.
pub fn summarize_answers(resp: &[u8]) -> (s: String)
    ensures
        s@ == answer_summary_spec(resp@),
{
    let answers = match decode_answers(resp) {
        None => {
            return string_from_chars(&[]);
        },
        Some(a) => a,
    };
    let ghost all = answer_views(answers@);
    let ghost parts = summary_parts(all);
    let n: usize = if answers.len() > HISTORY_MAX_ANSWERS { HISTORY_MAX_ANSWERS } else { answers.len() };
    let ghost shown = all.take(n as int).map_values(|x: AnswerRecordView| record_value_spec(x.data));
    proof {
        reveal_strlit(", ");
    }
    let mut out: Vec<char> = Vec::new();
    let mut i: usize = 0;
    while i < n
        invariant
            i <= n,
            n <= answers@.len(),
            all == answer_views(answers@),
            shown == all.take(n as int).map_values(|x: AnswerRecordView| record_value_spec(x.data)),
            out@ == joined(shown.take(i as int), ", "@),
            ", "@ == seq![',', ' '],
        decreases n - i,
    {
        assert(shown.take(i + 1).drop_last() =~= shown.take(i as int));
        if i > 0 {
            append_str(&mut out, ", ");
        }
        let v = record_value(&answers[i].data);
        append_str(&mut out, v.as_str());
        assert(shown[i as int] == record_value_spec(answers@[i as int]@.data));
        i = i + 1;
    }
    assert(shown.take(n as int) =~= shown);
    if answers.len() > HISTORY_MAX_ANSWERS {
        append_str(&mut out, ", \u{2026}");
        proof {
            reveal_strlit(", \u{2026}");
            assert(parts == shown.push(seq!['\u{2026}']));
            assert(parts.drop_last() =~= shown);
        }
    } else {
        assert(parts == shown);
    }
    string_from_chars(out.as_slice())
}

/// The records of one section of a decoded response, held as hickory's records.
#[verifier::external_body]
pub struct RecordSection {
    records: Vec<Record>,
}

/// What a section holds: for each record in order, its type number and its wire form.
pub uninterp spec fn section_items(s: RecordSection) -> Seq<(u16, Seq<u8>)>;

/// The answer, authority and additional sections of a response as hickory decodes it,
/// each record as its type number and its wire form; `None` when it cannot decode it.
pub uninterp spec fn decoded_sections(resp: Seq<u8>) -> Option<(Seq<(u16, Seq<u8>)>, Seq<(u16, Seq<u8>)>, Seq<(u16, Seq<u8>)>)>;

/// The response hickory encodes after decoding `resp` and putting the given records in
/// place of its answer, authority and additional sections; `None` when it cannot decode or
/// encode.
pub uninterp spec fn sections_encoding(
    resp: Seq<u8>,
    answers: Seq<(u16, Seq<u8>)>,
    authorities: Seq<(u16, Seq<u8>)>,
    additionals: Seq<(u16, Seq<u8>)>,
) -> Option<Seq<u8>>;

/// `Message::from_vec`, then its answer, authority and additional records, each section
/// as decoded.
#[verifier::external_body]
fn decode_sections(resp: &[u8]) -> (r: Option<(RecordSection, RecordSection, RecordSection)>)
    ensures
        match r {
            Some((a, b, c)) => decoded_sections(resp@) == Some((section_items(a), section_items(b), section_items(c))),
            None => decoded_sections(resp@) is None,
        },
{
    let msg = Message::from_vec(resp).ok()?;
    Some((
        RecordSection { records: msg.answers },
        RecordSection { records: msg.authorities },
        RecordSection { records: msg.additionals },
    ))
}

/// A section with no records (`Vec::new`).
#[verifier::external_body]
fn empty_section() -> (s: RecordSection)
    ensures
        section_items(s) == Seq::<(u16, Seq<u8>)>::empty(),
{
    RecordSection { records: Vec::new() }
}

/// How many records a section holds (`Vec::len`).
#[verifier::external_body]
fn section_len(s: &RecordSection) -> (n: usize)
    ensures
        n == section_items(*s).len(),
{
    s.records.len()
}

/// The type number of a section's first record (`u16::from(Record::record_type)`).
#[verifier::external_body]
fn front_type(s: &RecordSection) -> (t: u16)
    requires
        section_items(*s).len() > 0,
    ensures
        t == section_items(*s)[0].0,
{
    u16::from(s.records[0].record_type())
}

/// Moves a section's first record to the end of another (`Vec::remove` of the first,
/// `Vec::push` of it).
#[verifier::external_body]
fn move_front(from: &mut RecordSection, to: &mut RecordSection)
    requires
        section_items(*old(from)).len() > 0,
    ensures
        section_items(*final(from)) == section_items(*old(from)).drop_first(),
        section_items(*final(to)) == section_items(*old(to)).push(section_items(*old(from))[0]),
{
    let record = from.records.remove(0);
    to.records.push(record)
}

/// Drops a section's first record (`Vec::remove`).
#[verifier::external_body]
fn drop_front(from: &mut RecordSection)
    requires
        section_items(*old(from)).len() > 0,
    ensures
        section_items(*final(from)) == section_items(*old(from)).drop_first(),
{
    from.records.remove(0);
}

/// `Message::from_vec`, the given sections put in place of the answer, authority and
/// additional sections, then `Message::to_vec`. The result is the named function of the
/// bytes and the sections' records.
#[verifier::external_body]
fn encode_sections(resp: &[u8], answers: RecordSection, authorities: RecordSection, additionals: RecordSection) -> (r:
    Option<Vec<u8>>)
    ensures
        match r {
            Some(b) => sections_encoding(
                resp@,
                section_items(answers),
                section_items(authorities),
                section_items(additionals),
            ) == Some(b@),
            None => sections_encoding(
                resp@,
                section_items(answers),
                section_items(authorities),
                section_items(additionals),
            ) is None,
        },
{
    let mut msg = Message::from_vec(resp).ok()?;
    msg.answers = answers.records;
    msg.authorities = authorities.records;
    msg.additionals = additionals.records;
    msg.to_vec().ok()
}

/// The records of a section that stay when AAAA records are dropped, in order.
pub open spec fn non_aaaa(s: Seq<(u16, Seq<u8>)>) -> Seq<(u16, Seq<u8>)>
    decreases s.len(),
{
    if s.len() == 0 {
        s
    } else if s.last().0 != TYPE_AAAA {
        non_aaaa(s.drop_last()).push(s.last())
    } else {
        non_aaaa(s.drop_last())
    }
}

fn drop_aaaa(records: RecordSection) -> (r: RecordSection)
    ensures
        section_items(r) == non_aaaa(section_items(records)),
{
    let ghost all = section_items(records);
    let mut rest = records;
    let mut kept = empty_section();
    let ghost mut i: int = 0;
    assert(all.take(0) =~= Seq::<(u16, Seq<u8>)>::empty());
    assert(all.skip(0) =~= all);
    while section_len(&rest) > 0
        invariant
            0 <= i <= all.len(),
            section_items(rest) == all.skip(i),
            section_items(kept) == non_aaaa(all.take(i)),
        decreases section_items(rest).len(),
    {
        let t = front_type(&rest);
        assert(all.take(i + 1).drop_last() =~= all.take(i));
        assert(all.take(i + 1).last() == all[i]);
        assert(section_items(rest)[0] == all[i]);
        if t != TYPE_AAAA {
            move_front(&mut rest, &mut kept);
        } else {
            drop_front(&mut rest);
        }
        proof {
            i = i + 1;
        }
        assert(all.skip(i - 1).drop_first() =~= all.skip(i));
    }
    assert(all.take(i) =~= all);
    kept
}

/// A response with the AAAA records of its three record sections left out.
pub open spec fn stripped_spec(resp: Seq<u8>) -> Option<Seq<u8>> {
    match decoded_sections(resp) {
        None => None,
        Some((a, b, c)) => sections_encoding(resp, non_aaaa(a), non_aaaa(b), non_aaaa(c)),
    }
}

/// Leaves every AAAA record out of a response's answer, authority and additional
/// sections; `None` when the response cannot be decoded or encoded again.
pub fn strip_aaaa_records(resp: &[u8]) -> (r: Option<Vec<u8>>)
    ensures
        match r {
            Some(b) => stripped_spec(resp@) == Some(b@),
            None => stripped_spec(resp@) is None,
        },
{
    let (a, b, c) = match decode_sections(resp) {
        None => return None,
        Some(t) => t,
    };
    let ka = drop_aaaa(a);
    let kb = drop_aaaa(b);
    let kc = drop_aaaa(c);
    encode_sections(resp, ka, kb, kc)
}

/// An upstream response as it is answered: unchanged while IPv6 is on; with IPv6 off, with
/// its AAAA records left out, or unchanged when that cannot be done.
pub fn filter_response(ipv6_enabled: bool, resp: Vec<u8>) -> (r: Vec<u8>)
    ensures
        ipv6_enabled ==> r@ == resp@,
        !ipv6_enabled ==> r@ == match stripped_spec(resp@) {
            Some(b) => b,
            None => resp@,
        },
{
    if ipv6_enabled {
        return resp;
    }
    match strip_aaaa_records(resp.as_slice()) {
        Some(b) => b,
        None => resp,
    }
}

} // verus!
