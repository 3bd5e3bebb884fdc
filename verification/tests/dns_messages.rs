use autodns::resolve::{upstream_reply, ExchangeOutcome};
use autodns::dns_message::{
    bootstrap_response_ips, build_query, empty_success_response, hosts_response, lookup_request, parse_lookup_records,
    parse_question, resolve_hosts, servfail_response, servfail_response_for_question, summarize_answers,
    filter_response, strip_aaaa_records,
    HISTORY_MAX_ANSWERS,
};
use autodns::hosts::compile_hosts;
use autodns::net::IpAddress;
use autodns::routes::{compile_routes, Routes};
use autodns::wire::{lookup_qtype, 
    answer_count, answer_min_ttl, dns_message_id, normalize_domain_lossy, rcode, set_id, write_rr_header, CLASS_IN,
    RCODE_SERVER_FAILURE, RCODE_SUCCESS, TYPE_A, TYPE_AAAA, TYPE_CNAME, TYPE_TXT,
};
use hickory_proto::op::{Message as DnsMessage, MessageType as DnsMessageType, OpCode as DnsOpCode, Query as DnsQuery};
use hickory_proto::rr::{DNSClass, Name as DnsName, RecordType as DnsRecordType};

fn expect_route(routes: &Routes, domain: &str, expected_id: i32, expected_upstreams: &[&str]) {
    let (route_id, upstreams) = routes.select(domain, &[]);
    let expected = expected_upstreams.iter().copied().map(ToString::to_string).collect::<Vec<_>>();
    assert_eq!(route_id, expected_id);
    assert_eq!(upstreams, expected.as_slice());
}

fn write_a_rr_with_ttl(resp: &mut Vec<u8>, ttl: u32) {
    write_rr_header(resp, TYPE_A, CLASS_IN, ttl, 4);
    resp.extend_from_slice(&[192, 0, 2, 10]);
}

fn message_id_case() {
    let mut query = build_query("id.example", TYPE_A);

    let original_id = dns_message_id(&query).expect("query id");
    set_id(&mut query, 0xbeef);

    assert_eq!(original_id, 0x1234);
    assert_eq!(dns_message_id(&query), Some(0xbeef));
}

#[test]
fn tests_dns_message_id_reads_and_rewrites_wire_id() {
    message_id_case();
}

#[test]
fn dns_dns_message_id_reads_and_rewrites_wire_id() {
    message_id_case();
}

fn header_question_case() {
    let mut msg = DnsMessage::new(0xbeef, DnsMessageType::Query, DnsOpCode::Status);
    msg.metadata.recursion_desired = true;
    msg.metadata.checking_disabled = true;
    let name = DnsName::from_ascii("Case.Example").expect("name");
    let mut query = DnsQuery::query(name, DnsRecordType::from(TYPE_TXT));
    query.set_query_class(DNSClass::CH);
    msg.add_query(query);
    let raw = msg.to_vec().expect("encode query");

    let parsed = parse_question(&raw).expect("parse question");

    assert_eq!(parsed.id, 0xbeef);
    assert_eq!(parsed.normalized_qname, "case.example");
    assert_eq!(parsed.qtype, TYPE_TXT);
    assert_eq!(parsed.qclass, 3);
    assert_eq!(DnsOpCode::from_u8(parsed.op_code), DnsOpCode::Status);
    assert!(parsed.recursion_desired);
    assert!(parsed.checking_disabled);
    assert_eq!(DNSClass::from(parsed.qclass), DNSClass::CH);
}

#[test]
fn tests_parse_question_reads_header_and_question_without_full_message_decode() {
    header_question_case();
}

#[test]
fn dns_parse_question_reads_header_and_question_without_full_message_decode() {
    header_question_case();
}

fn multiple_questions_case() {
    let mut raw = build_query("multi.example", TYPE_A);
    raw[4..6].copy_from_slice(&2u16.to_be_bytes());

    let err = match parse_question(&raw) {
        Ok(_) => panic!("multiple questions must fail"),
        Err(err) => err,
    };

    assert!(err.message().contains("single-question"));
}

#[test]
fn tests_parse_question_rejects_multiple_questions() {
    multiple_questions_case();
}

#[test]
fn dns_parse_question_rejects_multiple_questions() {
    multiple_questions_case();
}

fn truncated_question_case() {
    let mut raw = build_query("truncated.example", TYPE_A);
    raw.truncate(raw.len() - 1);

    let err = match parse_question(&raw) {
        Ok(_) => panic!("truncated question must fail"),
        Err(err) => err,
    };

    assert!(err.message().contains("truncated"));
}

#[test]
fn tests_parse_question_rejects_truncated_question() {
    truncated_question_case();
}

#[test]
fn dns_parse_question_rejects_truncated_question() {
    truncated_question_case();
}

#[test]
fn parse_question_rejects_short_query() {
    assert_eq!(parse_question(&[0, 1, 2]).err().map(|e| e.message()), Some("dns query is too short".to_string()));
}

fn lookup_a_answer_case() {
    let query = build_query("answer.example", TYPE_A);
    let question = parse_question(&query).expect("parse question");
    let response = hosts_response(&question, &vec![IpAddress::V4(192, 0, 2, 44)]);
    let records = parse_lookup_records(&response).expect("parse records");

    assert_eq!(records.len(), 1);
    assert_eq!(records[0].name, "answer.example");
    assert_eq!(records[0].record_type, "A");
    assert_eq!(records[0].ttl, 60);
    assert_eq!(records[0].value, "192.0.2.44");
}

#[test]
fn tests_parse_lookup_records_extracts_a_answer() {
    lookup_a_answer_case();
}

#[test]
fn dns_parse_lookup_records_extracts_a_answer() {
    lookup_a_answer_case();
}

fn lookup_cname_case() {
    let query = build_query("alias.example", TYPE_CNAME);
    let mut response = query.clone();
    response[2] = 0x81;
    response[3] = 0x80;
    response[6..8].copy_from_slice(&1u16.to_be_bytes());
    write_rr_header(&mut response, TYPE_CNAME, CLASS_IN, 300, 9);
    response.extend_from_slice(&[6]);
    response.extend_from_slice(b"target");
    response.extend_from_slice(&[0xc0, 0x12]);

    let records = parse_lookup_records(&response).expect("parse records");

    assert_eq!(records.len(), 1);
    assert_eq!(records[0].name, "alias.example");
    assert_eq!(records[0].record_type, "CNAME");
    assert_eq!(records[0].ttl, 300);
    assert_eq!(records[0].value, "target.example");
}

#[test]
fn tests_parse_lookup_records_extracts_compressed_cname() {
    lookup_cname_case();
}

#[test]
fn dns_parse_lookup_records_extracts_compressed_cname() {
    lookup_cname_case();
}

#[test]
fn parse_lookup_records_rejects_garbage() {
    assert_eq!(parse_lookup_records(&[1, 2, 3]).err(), Some("decode dns response".to_string()));
}

#[test]
fn answer_min_ttl_ignores_additional_records() {
    let mut resp = build_query("ttl.example", TYPE_A);
    resp[2] = 0x81;
    resp[3] = 0x80;
    resp[6..8].copy_from_slice(&1u16.to_be_bytes());
    resp[10..12].copy_from_slice(&1u16.to_be_bytes());
    write_a_rr_with_ttl(&mut resp, 45);
    write_a_rr_with_ttl(&mut resp, 5);

    assert_eq!(answer_min_ttl(&resp).expect("parse answer ttl"), Some(45));
}

#[test]
fn tests_idna_domains_match_hosts_and_routes() {
    let hosts = compile_hosts(&["bücher.test=192.0.2.20".to_string()]).expect("compile hosts");
    assert!(hosts.get("xn--bcher-kva.test").is_some());

    let upstreams: Vec<String> = ["cn"].into_iter().map(ToString::to_string).collect();
    let routes = compile_routes(&["suffix:bücher.test=cn".to_string()], &upstreams).expect("compile routes");
    expect_route(&routes, "www.xn--bcher-kva.test", 1, &["cn"]);
    expect_route(&routes, &normalize_domain_lossy("www.bücher.test"), 1, &["cn"]);
}

#[test]
fn dns_idna_domains_match_hosts_and_routes() {
    let hosts = compile_hosts(&["例子.测试=192.0.2.20".to_string()]).expect("compile hosts");
    assert!(hosts.get("xn--fsqu00a.xn--0zwm56d").is_some());

    let upstreams: Vec<String> = ["cn"].into_iter().map(ToString::to_string).collect();
    let routes = compile_routes(&["suffix:例子.测试=cn".to_string()], &upstreams).expect("compile routes");
    expect_route(&routes, "www.xn--fsqu00a.xn--0zwm56d", 1, &["cn"]);
    expect_route(&routes, &normalize_domain_lossy("www.例子.测试"), 1, &["cn"]);
}

#[test]
fn build_query_normalizes_the_domain() {
    let query = build_query(" Example.COM. ", TYPE_AAAA);
    let question = parse_question(&query).expect("parse");
    assert_eq!(question.qname, "example.com");
    assert_eq!(question.qtype, TYPE_AAAA);
    assert!(question.recursion_desired);
    let root = build_query("", TYPE_A);
    assert_eq!(parse_question(&root).expect("root").qname, "");
}

#[test]
fn local_responses_echo_the_question() {
    let query = build_query("local.example", TYPE_A);
    let question = parse_question(&query).expect("parse");

    let fail = servfail_response_for_question(&question);
    assert_eq!(rcode(&fail), Some(RCODE_SERVER_FAILURE));
    assert_eq!(dns_message_id(&fail), Some(0x1234));
    assert_eq!(parse_question(&fail).expect("question").qname, "local.example");

    let empty = empty_success_response(&question);
    assert_eq!(rcode(&empty), Some(RCODE_SUCCESS));
    assert_eq!(answer_count(&empty), Some(0));

    let from_raw = servfail_response(&query);
    assert_eq!(rcode(&from_raw), Some(RCODE_SERVER_FAILURE));
    assert_eq!(answer_count(&from_raw), Some(0));

    let garbage = servfail_response(&[0xab, 0xcd, 0xff]);
    assert_eq!(dns_message_id(&garbage), Some(0xabcd));
    assert_eq!(rcode(&garbage), Some(RCODE_SERVER_FAILURE));
}

#[test]
fn hosts_table_answers_by_family() {
    let hosts = compile_hosts(&["dual.test=192.0.2.1, 2001:db8::1".to_string()]).expect("hosts");
    let a = parse_question(&build_query("dual.test", TYPE_A)).expect("a");
    let aaaa = parse_question(&build_query("dual.test", TYPE_AAAA)).expect("aaaa");
    let txt = parse_question(&build_query("dual.test", TYPE_TXT)).expect("txt");
    let other = parse_question(&build_query("other.test", TYPE_A)).expect("other");

    let v4 = parse_lookup_records(&resolve_hosts(&hosts, &a).expect("v4 answer")).expect("records");
    assert_eq!(v4.len(), 1);
    assert_eq!(v4[0].value, "192.0.2.1");
    let v6 = parse_lookup_records(&resolve_hosts(&hosts, &aaaa).expect("v6 answer")).expect("records");
    assert_eq!(v6.len(), 1);
    assert_eq!(v6[0].record_type, "AAAA");
    assert_eq!(v6[0].value, "2001:db8::1");
    assert!(resolve_hosts(&hosts, &txt).is_none());
    assert!(resolve_hosts(&hosts, &other).is_none());
}

#[test]
fn bootstrap_answers_give_addresses_of_the_asked_type() {
    let question = parse_question(&build_query("boot.example", TYPE_A)).expect("q");
    let resp = hosts_response(&question, &vec![IpAddress::V4(192, 0, 2, 7), IpAddress::V4(192, 0, 2, 8)]);
    assert_eq!(
        bootstrap_response_ips(&resp, TYPE_A),
        Ok(vec![IpAddress::V4(192, 0, 2, 7), IpAddress::V4(192, 0, 2, 8)])
    );
    assert_eq!(bootstrap_response_ips(&resp, TYPE_AAAA), Ok(Vec::new()));
    let fail = servfail_response_for_question(&question);
    assert_eq!(bootstrap_response_ips(&fail, TYPE_A), Ok(Vec::new()));
    assert_eq!(bootstrap_response_ips(&[0], TYPE_A), Err("decode bootstrap DNS response".to_string()));
}

#[test]
fn lookup_requests_are_checked() {
    assert_eq!(lookup_request(" Example.com ", "aaaa"), Ok(("example.com".to_string(), TYPE_AAAA)));
    assert_eq!(lookup_request("example.com", "SRV"), Err("unsupported DNS record type \"SRV\"".to_string()));
    assert_eq!(lookup_request("  ", "A"), Err("domain must not be empty".to_string()));
}

#[test]
fn answer_summary_lists_values_and_marks_overflow() {
    let query = build_query("many.example", TYPE_A);
    let question = parse_question(&query).expect("parse question");
    let two = hosts_response(&question, &vec![IpAddress::V4(192, 0, 2, 1), IpAddress::V4(192, 0, 2, 2)]);
    assert_eq!(summarize_answers(&two), "192.0.2.1, 192.0.2.2");

    let ips: Vec<IpAddress> = (0..40u8).map(|i| IpAddress::V4(10, 0, 0, i)).collect();
    let many = hosts_response(&question, &ips);
    let summary = summarize_answers(&many);
    let parts: Vec<&str> = summary.split(", ").collect();
    assert_eq!(parts.len(), HISTORY_MAX_ANSWERS + 1);
    assert_eq!(parts[0], "10.0.0.0");
    assert_eq!(parts[31], "10.0.0.31");
    assert_eq!(parts[32], "\u{2026}");

    assert_eq!(summarize_answers(&empty_success_response(&question)), "");
    assert_eq!(summarize_answers(&[1, 2, 3]), "");
}

fn strip_dns_name(domain: &str) -> Vec<u8> {
    let mut out = Vec::new();
    for label in domain.split('.') {
        out.push(label.len() as u8);
        out.extend_from_slice(label.as_bytes());
    }
    out.push(0);
    out
}

fn strip_write_cname_rr(resp: &mut Vec<u8>) {
    resp.extend_from_slice(&[0xc0, 0x0c]);
    resp.extend_from_slice(&5u16.to_be_bytes());
    resp.extend_from_slice(&CLASS_IN.to_be_bytes());
    resp.extend_from_slice(&60u32.to_be_bytes());
    let cname = strip_dns_name("target.example.com");
    resp.extend_from_slice(&(cname.len() as u16).to_be_bytes());
    resp.extend_from_slice(&cname);
}

fn strip_write_aaaa_rr(resp: &mut Vec<u8>) {
    write_rr_header(resp, TYPE_AAAA, CLASS_IN, 60, 16);
    resp.extend_from_slice(&[0x20, 0x01, 0x0d, 0xb8, 0, 0, 0, 0, 0, 0, 0, 0, 0, 0, 0, 1]);
}

fn strip_aaaa_case() {
    let query = build_query("www.example.com", TYPE_A);
    let mut resp = query[..12].to_vec();
    resp[2] = 0x81;
    resp[3] = 0x80;
    resp[6..8].copy_from_slice(&3u16.to_be_bytes());
    resp[10..12].copy_from_slice(&1u16.to_be_bytes());
    resp.extend_from_slice(&query[12..]);
    strip_write_cname_rr(&mut resp);
    write_a_rr_with_ttl(&mut resp, 60);
    strip_write_aaaa_rr(&mut resp);
    strip_write_aaaa_rr(&mut resp);

    let filtered = strip_aaaa_records(&resp).expect("filter response");

    assert_eq!(answer_count(&filtered), Some(2));
    assert_eq!(u16::from_be_bytes([filtered[10], filtered[11]]), 0);
    assert!(filtered.len() < resp.len());
    assert!(filtered.windows(4).any(|window| window == [192, 0, 2, 10]));

    assert_eq!(filter_response(true, resp.clone()), resp);
    assert_eq!(filter_response(false, resp.clone()), filtered);
    assert_eq!(filter_response(false, vec![1, 2, 3]), vec![1, 2, 3]);
    assert!(strip_aaaa_records(&[1, 2, 3]).is_none());
}

#[test]
fn tests_strip_aaaa_records_preserves_cname_and_a_records() {
    strip_aaaa_case();
}

#[test]
fn dns_strip_aaaa_records_preserves_cname_and_a_records() {
    strip_aaaa_case();
}

#[test]
fn unsupported_record_type_is_quoted_as_debug_does() {
    let err = match lookup_qtype("a\"b") {
        Err(e) => e,
        Ok(_) => panic!("type accepted"),
    };
    assert_eq!(err.message(), "unsupported DNS record type \"A\\\"B\"");
}

#[test]
fn upstream_reply_without_ipv6_reads_the_outcome_after_stripping() {
    let query = build_query("v6only.example.com", TYPE_AAAA);
    let mut resp = query[..12].to_vec();
    resp[2] = 0x81;
    resp[3] = 0x80;
    resp[6..8].copy_from_slice(&1u16.to_be_bytes());
    resp.extend_from_slice(&query[12..]);
    strip_write_aaaa_rr(&mut resp);

    let (kept, outcome) = upstream_reply(true, resp.clone());
    assert_eq!(kept, resp);
    assert!(matches!(outcome, ExchangeOutcome::Answer));

    let (kept, outcome) = upstream_reply(false, resp.clone());
    assert_eq!(answer_count(&kept), Some(0));
    assert!(matches!(outcome, ExchangeOutcome::Negative { name_error: false }));
}
