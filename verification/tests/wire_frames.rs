use autodns::upstream::{
    len_prefixed_dns_message, parse_len_prefixed_dns_message, parse_socks5_udp_payload, socks5_udp_packet,
};
use autodns::wire::parse_question_name;

fn socks5_packet_case() {
    let payload = [0x12, 0x34, 0x01, 0x00];

    let packet = socks5_udp_packet("dns.example:53", &payload).expect("build packet");

    assert_eq!(&packet[..5], &[0x00, 0x00, 0x00, 0x03, 11]);
    assert_eq!(&packet[5..16], b"dns.example");
    assert_eq!(&packet[16..18], &53u16.to_be_bytes());
    assert_eq!(&packet[18..], &payload);
}

fn socks5_payload_case() {
    let payload = [0xab, 0xcd, 0x80, 0x00];
    let mut packet = vec![0x00, 0x00, 0x00, 0x01, 1, 1, 1, 1];
    packet.extend_from_slice(&53u16.to_be_bytes());
    packet.extend_from_slice(&payload);

    let parsed = parse_socks5_udp_payload(&packet).expect("parse payload");

    assert_eq!(parsed, payload);
}

fn socks5_fragment_case() {
    let packet = [0x00, 0x00, 0x01, 0x01, 1, 1, 1, 1, 0, 53];

    let err = match parse_socks5_udp_payload(&packet) {
        Ok(_) => panic!("fragmented packet must fail"),
        Err(err) => err,
    };

    assert!(err.message().contains("fragmentation"));
}

fn len_prefixed_round_trip_case() {
    let payload = [0xde, 0xad, 0xbe, 0xef];

    let framed = len_prefixed_dns_message(&payload).expect("frame message");
    let parsed = parse_len_prefixed_dns_message(&framed).expect("parse message");

    assert_eq!(&framed[..2], &4u16.to_be_bytes());
    assert_eq!(parsed, payload);
}

fn len_prefixed_truncated_case() {
    let raw = [0x00, 0x04, 0xaa, 0xbb];

    let err = match parse_len_prefixed_dns_message(&raw) {
        Ok(_) => panic!("truncated payload must fail"),
        Err(err) => err,
    };

    assert!(err.message().contains("truncated"));
}

fn compressed_name_case() {
    let raw = [
        0x00, 0x00, 0x00, 0x00, 0x03, b'w', b'w', b'w', 0xc0, 0x0b, 0x00, 0x07, b'e', b'x', b'a', b'm', b'p', b'l',
        b'e', 0x03, b'c', b'o', b'm', 0x00,
    ];

    let (name, next_offset) = parse_question_name(&raw, 4).expect("parse compressed name");

    assert_eq!(name, "www.example.com");
    assert_eq!(next_offset, 10);
}

#[test]
fn dns_socks5_udp_packet_wraps_domain_target() {
    socks5_packet_case();
}

#[test]
fn tests_socks5_udp_packet_wraps_domain_target() {
    socks5_packet_case();
}

#[test]
fn dns_parse_socks5_udp_payload_extracts_dns_message() {
    socks5_payload_case();
}

#[test]
fn tests_parse_socks5_udp_payload_extracts_dns_message() {
    socks5_payload_case();
}

#[test]
fn dns_parse_socks5_udp_payload_rejects_fragmented_packets() {
    socks5_fragment_case();
}

#[test]
fn tests_parse_socks5_udp_payload_rejects_fragmented_packets() {
    socks5_fragment_case();
}

#[test]
fn dns_len_prefixed_dns_message_round_trips() {
    len_prefixed_round_trip_case();
}

#[test]
fn tests_len_prefixed_dns_message_round_trips() {
    len_prefixed_round_trip_case();
}

#[test]
fn dns_parse_len_prefixed_dns_message_rejects_truncated_payload() {
    len_prefixed_truncated_case();
}

#[test]
fn tests_parse_len_prefixed_dns_message_rejects_truncated_payload() {
    len_prefixed_truncated_case();
}

#[test]
fn dns_parse_question_name_reads_compressed_labels() {
    compressed_name_case();
}

#[test]
fn tests_parse_question_name_reads_compressed_labels() {
    compressed_name_case();
}

#[test]
fn address_errors_name_the_address_as_debug_does() {
    let missing_port = autodns::upstream::split_host_port("example").err().expect("no port");
    assert_eq!(missing_port.message_for("example"), "address \"example\" is missing port");
    let bad_port = autodns::upstream::split_host_port("host:99999").err().expect("bad port");
    assert_eq!(bad_port.message_for("host:99999"), "parse port in \"host:99999\"");
    let missing_host = autodns::upstream::split_host_port("[]:53").err().expect("no host");
    assert_eq!(missing_host.message_for("[]:53"), "address \"[]:53\" is missing host");
}
