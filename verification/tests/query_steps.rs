use autodns::dns_message::{build_query, parse_question};
use autodns::query::{source_label, AnswerSource, QueryAction, QueryEvent, QueryPhase, QueryState, SelectedUpstream};
use autodns::resolve::{Candidate, HealthEffect};
use autodns::wire::{TYPE_A, TYPE_AAAA};

fn query_of(name: &str, qtype: u16, id: u16) -> (Vec<u8>, QueryState) {
    let mut req = build_query(name, qtype);
    req[0..2].copy_from_slice(&id.to_be_bytes());
    let question = parse_question(&req).ok().expect("question");
    (req.clone(), QueryState::new(req, question, true))
}

fn selected(name: &str) -> SelectedUpstream {
    SelectedUpstream {
        name: name.to_string(),
        protocol: "udp".to_string(),
        candidate: Candidate { present: true, eligible: true, connecting: false },
    }
}

fn negative_reply(req: &[u8]) -> Vec<u8> {
    let mut resp = req.to_vec();
    resp[0..2].copy_from_slice(&0xbeefu16.to_be_bytes());
    resp[2] = 0x81;
    resp[3] = 0x80;
    resp
}

#[test]
fn query_goes_to_route_cache_then_upstreams_and_falls_back_to_the_negative_answer() {
    let (req, mut query) = query_of("neg.example", TYPE_A, 0x0102);
    assert!(matches!(query.step(QueryEvent::Begin { host_families: None }), QueryAction::SelectRoute));
    let key = match query.step(QueryEvent::Routed { route_id: 3, upstreams: vec![selected("a"), selected("b")] }) {
        QueryAction::LookUpCache(key) => key,
        other => panic!("unexpected {other:?}"),
    };
    assert_eq!(key.qname, "neg.example");
    assert_eq!(key.qtype, TYPE_A);
    assert_eq!(key.route_id, 3);
    assert!(matches!(query.step(QueryEvent::CacheAnswer(None)), QueryAction::Ask { upstream: 0, health: None }));
    let negative = negative_reply(&req);
    match query.step(QueryEvent::Reply { result: Ok(negative.clone()), connecting: false }) {
        QueryAction::Ask { upstream: 1, health: Some((0, HealthEffect::NegativeResponse)) } => {}
        other => panic!("unexpected {other:?}"),
    }
    match query.step(QueryEvent::Reply { result: Err("timed out".to_string()), connecting: false }) {
        QueryAction::Respond { answer, health } => {
            assert!(matches!(health, Some((1, HealthEffect::TransportFailure))));
            assert_eq!(&answer.response[..2], &[0x01, 0x02]);
            assert_eq!(&answer.response[2..], &negative[2..]);
            let (stored_key, is_negative) = answer.store.expect("offered to the cache");
            assert_eq!(stored_key.route_id, 3);
            assert!(is_negative);
            assert_eq!(answer.provenance.source, AnswerSource::Upstream);
            assert_eq!(answer.provenance.upstream_name, "a");
            assert_eq!(answer.provenance.attempt_count, 2);
            assert_eq!(answer.provenance.error, "upstream returned no answer");
        }
        other => panic!("unexpected {other:?}"),
    }
    assert_eq!(query.phase(), QueryPhase::Done);
    assert!(matches!(query.step(QueryEvent::CacheAnswer(None)), QueryAction::Ignore));
}

#[test]
fn query_without_ipv6_answers_aaaa_locally() {
    let mut req = build_query("v6.example", TYPE_AAAA);
    req[0..2].copy_from_slice(&7u16.to_be_bytes());
    let question = parse_question(&req).ok().expect("question");
    let mut query = QueryState::new(req, question, false);
    match query.step(QueryEvent::Begin { host_families: Some((true, true)) }) {
        QueryAction::Respond { answer, health: None } => {
            assert_eq!(answer.provenance.source, AnswerSource::Local);
            assert_eq!(source_label(answer.provenance.source), "local");
            assert_eq!(answer.provenance.route_id, -1);
            assert!(answer.store.is_none());
            assert_eq!(&answer.response[..2], &[0, 7]);
        }
        other => panic!("unexpected {other:?}"),
    }
}

#[test]
fn query_with_hosts_entry_asks_the_hosts_table_first() {
    let (_, mut query) = query_of("h.example", TYPE_A, 1);
    assert!(matches!(query.step(QueryEvent::Begin { host_families: Some((true, false)) }), QueryAction::LookUpHosts));
    match query.step(QueryEvent::HostsAnswer(Some(vec![0, 1, 2]))) {
        QueryAction::Respond { answer, .. } => {
            assert_eq!(answer.response, vec![0, 1, 2]);
            assert_eq!(source_label(answer.provenance.source), "hosts");
        }
        other => panic!("unexpected {other:?}"),
    }
}

#[test]
fn query_with_every_upstream_failing_answers_servfail_with_the_last_error() {
    let (_, mut query) = query_of("fail.example", TYPE_A, 9);
    query.step(QueryEvent::Begin { host_families: None });
    query.step(QueryEvent::Routed { route_id: 0, upstreams: vec![selected("a")] });
    query.step(QueryEvent::CacheAnswer(None));
    match query.step(QueryEvent::Reply { result: Err("refused".to_string()), connecting: false }) {
        QueryAction::Respond { answer, health } => {
            assert!(matches!(health, Some((0, HealthEffect::TransportFailure))));
            assert!(answer.store.is_none());
            assert_eq!(answer.provenance.source, AnswerSource::Error);
            assert_eq!(answer.provenance.error, "refused");
            assert_eq!(answer.provenance.attempt_count, 1);
            assert_eq!(&answer.response[..2], &[0, 9]);
            assert_eq!(answer.response[3] & 0x0f, 2);
        }
        other => panic!("unexpected {other:?}"),
    }
}
