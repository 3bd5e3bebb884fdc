//! One query from start to end as a step function: the caller performs each action (a
//! hosts lookup, a route selection, a cache lookup, an exchange with an upstream) and hands
//! back what came of it; the step decides what comes next. A query is answered locally
//! when IPv6 is off, else from the hosts table, else from the cache under its route, else
//! by the selected upstreams in their order; the response carries the query's id, upstream
//! answers are offered to the cache, and the history learns where the response came from.
use crate::cache::{with_id, CacheKey, CachedResponse, CachedView};
use crate::dns_message::{empty_success_response, empty_success_spec, servfail_response, servfail_response_spec, stripped_spec, Question, QuestionView};
use crate::resolve::{
    all_failed_text, local_answer, local_answer_spec, next_spec, outcome_spec, response_outcome_spec, start_spec,
    upstream_reply, Candidate, ExchangeOutcome, Fallback, FallbackView, HealthEffect, LocalAnswer, OutcomeView, Step,
};
use crate::wire::set_id;
use vstd::prelude::*;

verus! {

/// Where a query stands.
#[derive(Clone, Copy, Debug, PartialEq, Eq, Structural)]
pub enum QueryPhase {
    /// Nothing decided yet.
    Start,
    /// Waiting for the hosts table's answer.
    Hosts,
    /// Waiting for the route.
    Route,
    /// Waiting for the cache lookup.
    Cache,
    /// Waiting for the reply of the upstream asked last.
    Upstreams,
    /// Answered.
    Done,
}

/// Where a response came from, as the query history notes it.
#[derive(Clone, Copy, Debug, PartialEq, Eq, Structural)]
pub enum AnswerSource {
    Local,
    Hosts,
    Cache,
    Upstream,
    Error,
}

/// The history's label of a source.
pub open spec fn source_label_spec(s: AnswerSource) -> Seq<char> {
    match s {
        AnswerSource::Local => "local"@,
        AnswerSource::Hosts => "hosts"@,
        AnswerSource::Cache => "cache"@,
        AnswerSource::Upstream => "upstream"@,
        AnswerSource::Error => "error"@,
    }
}

/// The history's label of a source.
pub fn source_label(s: AnswerSource) -> (r: &'static str)
    ensures
        r@ == source_label_spec(s),
{
    match s {
        AnswerSource::Local => "local",
        AnswerSource::Hosts => "hosts",
        AnswerSource::Cache => "cache",
        AnswerSource::Upstream => "upstream",
        AnswerSource::Error => "error",
    }
}

/// How a response came about: its source, the route (-1 before one was selected), the
/// upstream it came from, how many upstreams were asked, and the error noted.
#[derive(Clone, Debug)]
pub struct Provenance {
    pub source: AnswerSource,
    pub route_id: i32,
    pub upstream_name: String,
    pub upstream_protocol: String,
    pub attempt_count: usize,
    pub error: String,
}

/// A provenance as values.
pub struct ProvenanceView {
    pub source: AnswerSource,
    pub route_id: i32,
    pub upstream_name: Seq<char>,
    pub upstream_protocol: Seq<char>,
    pub attempt_count: int,
    pub error: Seq<char>,
}

impl View for Provenance {
    type V = ProvenanceView;

    open spec fn view(&self) -> ProvenanceView {
        ProvenanceView {
            source: self.source,
            route_id: self.route_id,
            upstream_name: self.upstream_name@,
            upstream_protocol: self.upstream_protocol@,
            attempt_count: self.attempt_count as int,
            error: self.error@,
        }
    }
}

/// One upstream of the selected route: its name, its protocol, and what is known of it.
#[derive(Clone, Debug)]
pub struct SelectedUpstream {
    pub name: String,
    pub protocol: String,
    pub candidate: Candidate,
}

/// What came of an action.
#[derive(Debug)]
pub enum QueryEvent {
    /// The query is taken up; whether the hosts table has IPv4 and IPv6 addresses for the
    /// name, when it has the name.
    Begin { host_families: Option<(bool, bool)> },
    /// The hosts table's response, when it made one.
    HostsAnswer(Option<Vec<u8>>),
    /// The route selected for the name: its id and its upstreams in order.
    Routed { route_id: i32, upstreams: Vec<SelectedUpstream> },
    /// The cache's answer.
    CacheAnswer(Option<CachedResponse>),
    /// What the upstream asked last sent back, or why nothing came (`connecting` when its
    /// connection was still being established).
    Reply { result: Result<Vec<u8>, String>, connecting: bool },
}

/// An event as values.
pub enum QueryEventView {
    Begin { host_families: Option<(bool, bool)> },
    HostsAnswer(Option<Seq<u8>>),
    Routed { route_id: i32, upstreams: Seq<(Seq<char>, Seq<char>, Candidate)> },
    CacheAnswer(Option<CachedView>),
    Reply { result: Result<Seq<u8>, Seq<char>>, connecting: bool },
}

impl View for QueryEvent {
    type V = QueryEventView;

    open spec fn view(&self) -> QueryEventView {
        match self {
            QueryEvent::Begin { host_families } => QueryEventView::Begin { host_families: *host_families },
            QueryEvent::HostsAnswer(r) => QueryEventView::HostsAnswer(
                match r {
                    Some(b) => Some(b@),
                    None => None,
                },
            ),
            QueryEvent::Routed { route_id, upstreams } => QueryEventView::Routed {
                route_id: *route_id,
                upstreams: upstreams@.map_values(|u: SelectedUpstream| (u.name@, u.protocol@, u.candidate)),
            },
            QueryEvent::CacheAnswer(c) => QueryEventView::CacheAnswer(
                match c {
                    Some(h) => Some(h@),
                    None => None,
                },
            ),
            QueryEvent::Reply { result, connecting } => QueryEventView::Reply {
                result: match result {
                    Ok(b) => Ok(b@),
                    Err(m) => Err(m@),
                },
                connecting: *connecting,
            },
        }
    }
}

/// The response to send, the entry to offer the cache (its key, and whether the answer
/// is negative), and how the response came about.
#[derive(Debug)]
pub struct QueryResponse {
    pub response: Vec<u8>,
    pub store: Option<(CacheKey, bool)>,
    pub provenance: Provenance,
}

/// What to do next; `health` is the record an upstream's reply calls for, with its
/// position.
#[derive(Debug)]
pub enum QueryAction {
    /// Look the name up in the hosts table.
    LookUpHosts,
    /// Select the route of the name.
    SelectRoute,
    /// Look the key up in the cache.
    LookUpCache(CacheKey),
    /// Ask the upstream at this position.
    Ask { upstream: usize, health: Option<(usize, HealthEffect)> },
    /// Send the response.
    Respond { answer: QueryResponse, health: Option<(usize, HealthEffect)> },
    /// The event does not belong to where the query stands; nothing changes.
    Ignore,
}

/// A cache key as values.
pub type KeyView = (Seq<char>, u16, u16, i32);

/// An action as values.
pub enum QueryActionView {
    LookUpHosts,
    SelectRoute,
    LookUpCache(KeyView),
    Ask { upstream: int, health: Option<(int, HealthEffect)> },
    Respond {
        response: Seq<u8>,
        store: Option<(KeyView, bool)>,
        provenance: ProvenanceView,
        health: Option<(int, HealthEffect)>,
    },
    Ignore,
}

/// A health record with its position, as values.
pub open spec fn health_view(h: Option<(usize, HealthEffect)>) -> Option<(int, HealthEffect)> {
    match h {
        Some((i, e)) => Some((i as int, e)),
        None => None,
    }
}

impl View for QueryAction {
    type V = QueryActionView;

    open spec fn view(&self) -> QueryActionView {
        match self {
            QueryAction::LookUpHosts => QueryActionView::LookUpHosts,
            QueryAction::SelectRoute => QueryActionView::SelectRoute,
            QueryAction::LookUpCache(k) => QueryActionView::LookUpCache(k@),
            QueryAction::Ask { upstream, health } => QueryActionView::Ask {
                upstream: *upstream as int,
                health: health_view(*health),
            },
            QueryAction::Respond { answer, health } => QueryActionView::Respond {
                response: answer.response@,
                store: match &answer.store {
                    Some((k, n)) => Some((k@, *n)),
                    None => None,
                },
                provenance: answer.provenance@,
                health: health_view(*health),
            },
            QueryAction::Ignore => QueryActionView::Ignore,
        }
    }
}

/// A query in progress.
#[derive(Debug)]
pub struct QueryState {
    phase: QueryPhase,
    request: Vec<u8>,
    question: Question,
    ipv6_enabled: bool,
    route_id: i32,
    upstreams: Vec<(String, String)>,
    candidates: Vec<Candidate>,
    fallback: Fallback,
    asking: usize,
    negative: Option<Vec<u8>>,
}

/// A query in progress as values.
pub struct QueryStateView {
    pub phase: QueryPhase,
    pub request: Seq<u8>,
    pub question: QuestionView,
    pub ipv6_enabled: bool,
    pub route_id: i32,
    pub upstreams: Seq<(Seq<char>, Seq<char>)>,
    pub candidates: Seq<Candidate>,
    pub fallback: FallbackView,
    pub asking: int,
    pub negative: Option<Seq<u8>>,
}

impl View for QueryState {
    type V = QueryStateView;

    closed spec fn view(&self) -> QueryStateView {
        QueryStateView {
            phase: self.phase,
            request: self.request@,
            question: self.question@,
            ipv6_enabled: self.ipv6_enabled,
            route_id: self.route_id,
            upstreams: self.upstreams@.map_values(|u: (String, String)| (u.0@, u.1@)),
            candidates: self.candidates@,
            fallback: self.fallback@,
            asking: self.asking as int,
            negative: match &self.negative {
                Some(b) => Some(b@),
                None => None,
            },
        }
    }
}

/// What a query in progress keeps true: the route's names and what is known of them go
/// together, and while upstreams are asked the position asked is one already passed and a
/// kept negative answer has its response.
pub open spec fn query_wf(s: QueryStateView) -> bool {
    &&& s.upstreams.len() == s.candidates.len()
    &&& s.phase == QueryPhase::Upstreams ==> {
        &&& 0 <= s.fallback.attempt_count <= s.fallback.next <= s.candidates.len()
        &&& 0 <= s.asking < s.fallback.next
        &&& s.fallback.last_negative matches Some(j) ==> 0 <= j < s.candidates.len() && s.negative is Some
    }
}

/// The key a query's answer is filed under in the cache: its name, type and class, and
/// its route.
pub open spec fn key_spec(s: QueryStateView) -> KeyView {
    (s.question.normalized_qname, s.question.qtype, s.question.qclass, s.route_id)
}

/// A provenance of a response made without asking an upstream.
pub open spec fn plain_provenance(source: AnswerSource, route_id: i32) -> ProvenanceView {
    ProvenanceView {
        source,
        route_id,
        upstream_name: Seq::empty(),
        upstream_protocol: Seq::empty(),
        attempt_count: 0,
        error: Seq::empty(),
    }
}

/// An upstream response as a query takes it: without its AAAA records when IPv6 is off
/// (unchanged when they cannot be left out).
pub open spec fn kept_reply(ipv6_enabled: bool, resp: Seq<u8>) -> Seq<u8> {
    if ipv6_enabled {
        resp
    } else {
        match stripped_spec(resp) {
            Some(b) => b,
            None => resp,
        }
    }
}

/// How a query ends at `st`: the answer (`answered`) or the kept negative answer of an
/// upstream, with the query's id, offered to the cache (a negative answer as such) and
/// noted with the upstream's name and protocol; else SERVFAIL to the request, noted with
/// the last error (or that all upstreams failed).
pub open spec fn finish_spec(s: QueryStateView, st: Step, answered: Seq<u8>, health: Option<(int, HealthEffect)>) -> (
    QueryStateView,
    QueryActionView,
) {
    let done = QueryStateView { phase: QueryPhase::Done, ..s };
    match st {
        Step::Answer(i) => (
            done,
            QueryActionView::Respond {
                response: with_id(answered, s.question.id),
                store: Some((key_spec(s), false)),
                provenance: ProvenanceView {
                    source: AnswerSource::Upstream,
                    route_id: s.route_id,
                    upstream_name: s.upstreams[i as int].0,
                    upstream_protocol: s.upstreams[i as int].1,
                    attempt_count: s.fallback.attempt_count,
                    error: Seq::empty(),
                },
                health,
            },
        ),
        Step::Negative(j) => (
            done,
            QueryActionView::Respond {
                response: with_id(s.negative->Some_0, s.question.id),
                store: Some((key_spec(s), true)),
                provenance: ProvenanceView {
                    source: AnswerSource::Upstream,
                    route_id: s.route_id,
                    upstream_name: s.upstreams[j as int].0,
                    upstream_protocol: s.upstreams[j as int].1,
                    attempt_count: s.fallback.attempt_count,
                    error: s.fallback.negative_error,
                },
                health,
            },
        ),
        _ => (
            done,
            QueryActionView::Respond {
                response: servfail_response_spec(s.request),
                store: None,
                provenance: ProvenanceView {
                    source: AnswerSource::Error,
                    route_id: s.route_id,
                    upstream_name: Seq::empty(),
                    upstream_protocol: Seq::empty(),
                    attempt_count: s.fallback.attempt_count,
                    error: match s.fallback.last_error {
                        Some(t) => t,
                        None => all_failed_text(),
                    },
                },
                health,
            },
        ),
    }
}

/// Moving on to the next upstream to ask, or to the end of the query.
pub open spec fn advance_spec(s: QueryStateView, health: Option<(int, HealthEffect)>) -> (QueryStateView, QueryActionView) {
    let (f, st) = next_spec(s.fallback, s.candidates);
    let s1 = QueryStateView { fallback: f, ..s };
    match st {
        Step::Query(i) => (
            QueryStateView { phase: QueryPhase::Upstreams, asking: i as int, ..s1 },
            QueryActionView::Ask { upstream: i as int, health },
        ),
        _ => finish_spec(s1, st, Seq::empty(), health),
    }
}

/// One step of a query: what the event makes of where it stands, and what to do next.
pub open spec fn query_step_spec(s: QueryStateView, e: QueryEventView) -> (QueryStateView, QueryActionView) {
    let q = s.question;
    match (s.phase, e) {
        (QueryPhase::Start, QueryEventView::Begin { host_families }) => match local_answer_spec(
            q.qtype,
            s.ipv6_enabled,
            host_families,
        ) {
            LocalAnswer::EmptyIpv6 => (
                QueryStateView { phase: QueryPhase::Done, ..s },
                QueryActionView::Respond {
                    response: empty_success_spec(q),
                    store: None,
                    provenance: plain_provenance(AnswerSource::Local, -1i32),
                    health: None,
                },
            ),
            LocalAnswer::Upstreams => (QueryStateView { phase: QueryPhase::Route, ..s }, QueryActionView::SelectRoute),
            _ => (QueryStateView { phase: QueryPhase::Hosts, ..s }, QueryActionView::LookUpHosts),
        },
        (QueryPhase::Hosts, QueryEventView::HostsAnswer(r)) => match r {
            Some(resp) => (
                QueryStateView { phase: QueryPhase::Done, ..s },
                QueryActionView::Respond {
                    response: resp,
                    store: None,
                    provenance: plain_provenance(AnswerSource::Hosts, -1i32),
                    health: None,
                },
            ),
            None => (QueryStateView { phase: QueryPhase::Route, ..s }, QueryActionView::SelectRoute),
        },
        (QueryPhase::Route, QueryEventView::Routed { route_id, upstreams }) => {
            let s1 = QueryStateView {
                phase: QueryPhase::Cache,
                route_id,
                upstreams: upstreams.map_values(|u: (Seq<char>, Seq<char>, Candidate)| (u.0, u.1)),
                candidates: upstreams.map_values(|u: (Seq<char>, Seq<char>, Candidate)| u.2),
                ..s
            };
            (s1, QueryActionView::LookUpCache(key_spec(s1)))
        },
        (QueryPhase::Cache, QueryEventView::CacheAnswer(c)) => match c {
            Some(hit) => (
                QueryStateView { phase: QueryPhase::Done, ..s },
                QueryActionView::Respond {
                    response: hit.response,
                    store: None,
                    provenance: ProvenanceView {
                        source: AnswerSource::Cache,
                        route_id: s.route_id,
                        upstream_name: hit.upstream_name,
                        upstream_protocol: hit.upstream_protocol,
                        attempt_count: 0,
                        error: Seq::empty(),
                    },
                    health: None,
                },
            ),
            None => advance_spec(
                QueryStateView { fallback: start_spec(s.candidates), negative: None, ..s },
                None,
            ),
        },
        (QueryPhase::Upstreams, QueryEventView::Reply { result, connecting }) => {
            let i = s.asking;
            let kept = match result {
                Ok(resp) => kept_reply(s.ipv6_enabled, resp),
                Err(_) => Seq::empty(),
            };
            let outcome = match result {
                Ok(_) => response_outcome_spec(kept),
                Err(m) => OutcomeView::Failed { connecting, message: m },
            };
            let (f, fin, effect) = outcome_spec(s.fallback, i, outcome);
            let s2 = QueryStateView {
                fallback: f,
                negative: if outcome is Negative { Some(kept) } else { s.negative },
                ..s
            };
            let health = Some((i, effect));
            match fin {
                Some(st) => finish_spec(s2, st, kept, health),
                None => advance_spec(s2, health),
            }
        },
        _ => (s, QueryActionView::Ignore),
    }
}

proof fn lemma_next_query(f: FallbackView, cands: Seq<Candidate>)
    requires
        0 <= f.attempt_count <= f.next <= cands.len(),
    ensures
        next_spec(f, cands).1 matches Step::Query(i) ==> {
            &&& 0 <= i < next_spec(f, cands).0.next
            &&& next_spec(f, cands).0.last_negative == f.last_negative
        },
    decreases cands.len() - f.next,
{
    if f.next < cands.len() {
        let c = cands[f.next];
        if !c.present {
            lemma_next_query(FallbackView { next: f.next + 1, ..f }, cands);
        } else if !c.eligible {
            lemma_next_query(
                FallbackView { next: f.next + 1, last_error: crate::resolve::note_once(f.last_error, crate::resolve::unhealthy_text()), ..f },
                cands,
            );
        } else if f.has_eligible && c.connecting {
            lemma_next_query(
                FallbackView { next: f.next + 1, last_error: crate::resolve::note_once(f.last_error, crate::resolve::connecting_text()), ..f },
                cands,
            );
        }
    }
}

proof fn lemma_next_end(f: FallbackView, cands: Seq<Candidate>)
    requires
        0 <= f.attempt_count <= f.next <= cands.len(),
        f.last_negative matches Some(j) ==> 0 <= j < cands.len(),
        cands.len() <= usize::MAX,
    ensures
        next_spec(f, cands).0.next >= f.next,
        next_spec(f, cands).1 matches Step::Negative(j) ==> f.last_negative == Some(j as int),
        next_spec(f, cands).0.last_negative == f.last_negative,
        !(next_spec(f, cands).1 is Answer),
    decreases cands.len() - f.next,
{
    if f.next < cands.len() {
        let c = cands[f.next];
        if !c.present {
            lemma_next_end(FallbackView { next: f.next + 1, ..f }, cands);
        } else if !c.eligible {
            lemma_next_end(
                FallbackView { next: f.next + 1, last_error: crate::resolve::note_once(f.last_error, crate::resolve::unhealthy_text()), ..f },
                cands,
            );
        } else if f.has_eligible && c.connecting {
            lemma_next_end(
                FallbackView { next: f.next + 1, last_error: crate::resolve::note_once(f.last_error, crate::resolve::connecting_text()), ..f },
                cands,
            );
        }
    }
}

/// The order of a query: no upstream is asked before the cache missed under the route;
/// a response is offered to the cache only when an upstream gave it, under the query's
/// key; and an answer from an upstream carries the query's id.
pub proof fn law_query_order(s: QueryStateView, e: QueryEventView)
    requires
        query_wf(s),
    ensures
        ({
            let (s2, a) = query_step_spec(s, e);
            &&& (a is Ask && s.phase != QueryPhase::Upstreams) ==> s.phase == QueryPhase::Cache
                && e == QueryEventView::CacheAnswer(None)
            &&& a matches QueryActionView::Respond { store: Some((k, _)), provenance, .. } ==> provenance.source
                == AnswerSource::Upstream && k == key_spec(s)
            &&& a matches QueryActionView::Respond { response, provenance, .. } ==> (provenance.source
                == AnswerSource::Upstream ==> exists|b: Seq<u8>| response == with_id(b, s.question.id))
            &&& (s.phase == QueryPhase::Start || s.phase == QueryPhase::Hosts || s.phase == QueryPhase::Route) ==> !(a is Ask)
        }),
{
}

fn bytes_copy(b: &[u8]) -> (r: Vec<u8>)
    ensures
        r@ == b@,
{
    let mut r: Vec<u8> = Vec::new();
    crate::upstream::append_bytes(&mut r, b);
    assert(r@ =~= b@);
    r
}

impl QueryState {
    /// Whether the query keeps its invariant.
    pub closed spec fn wf(&self) -> bool {
        &&& query_wf(self@)
        &&& self.upstreams@.len() == self.candidates@.len()
    }

    /// A query of `request`, whose question is `question`, taken up while IPv6 is on or
    /// off.
    pub fn new(request: Vec<u8>, question: Question, ipv6_enabled: bool) -> (s: QueryState)
        ensures
            s.wf(),
            s@.phase == QueryPhase::Start,
            s@.request == request@,
            s@.question == question@,
            s@.ipv6_enabled == ipv6_enabled,
            s@.route_id == -1,
    {
        let no_candidates: Vec<Candidate> = Vec::new();
        let fallback = Fallback::start(no_candidates.as_slice());
        QueryState {
            phase: QueryPhase::Start,
            request,
            question,
            ipv6_enabled,
            route_id: -1,
            upstreams: Vec::new(),
            candidates: no_candidates,
            fallback,
            asking: 0,
            negative: None,
        }
    }

    /// The state as values.
    pub fn phase(&self) -> (p: QueryPhase)
        ensures
            p == self@.phase,
    {
        self.phase
    }

    fn key(&self) -> (k: CacheKey)
        ensures
            k@ == key_spec(self@),
    {
        CacheKey {
            qname: self.question.normalized_qname.clone(),
            qtype: self.question.qtype,
            qclass: self.question.qclass,
            route_id: self.route_id,
        }
    }

    fn finish(&mut self, st: Step, answered: Vec<u8>, health: Option<(usize, HealthEffect)>) -> (a: QueryAction)
        requires
            old(self).wf(),
            st matches Step::Answer(i) ==> i < old(self)@.upstreams.len(),
            st matches Step::Negative(j) ==> j < old(self)@.upstreams.len() && old(self)@.negative is Some,
        ensures
            final(self).wf(),
            (final(self)@, a@) == finish_spec(old(self)@, st, answered@, health_view(health)),
    {
        let ghost s0 = self@;
        let key = self.key();
        let attempt_count = self.fallback.attempt_count;
        self.phase = QueryPhase::Done;
        proof {
            assert(self@ == QueryStateView { phase: QueryPhase::Done, ..s0 });
        }
        match st {
            Step::Answer(i) => {
                let mut response = answered;
                set_id(response.as_mut_slice(), self.question.id);
                let provenance = Provenance {
                    source: AnswerSource::Upstream,
                    route_id: self.route_id,
                    upstream_name: self.upstreams[i].0.clone(),
                    upstream_protocol: self.upstreams[i].1.clone(),
                    attempt_count,
                    error: String::new(),
                };
                proof {
                    assert(response@ =~= with_id(answered@, s0.question.id));
                }
                QueryAction::Respond { answer: QueryResponse { response, store: Some((key, false)), provenance }, health }
            },
            Step::Negative(j) => {
                let mut response = match &self.negative {
                    Some(b) => bytes_copy(b.as_slice()),
                    None => Vec::new(),
                };
                set_id(response.as_mut_slice(), self.question.id);
                let provenance = Provenance {
                    source: AnswerSource::Upstream,
                    route_id: self.route_id,
                    upstream_name: self.upstreams[j].0.clone(),
                    upstream_protocol: self.upstreams[j].1.clone(),
                    attempt_count,
                    error: self.fallback.negative_error.clone(),
                };
                let ghost kept = s0.negative->Some_0;
                proof {
                    assert(response@ =~= with_id(kept, s0.question.id));
                }
                QueryAction::Respond { answer: QueryResponse { response, store: Some((key, true)), provenance }, health }
            },
            _ => {
                let response = servfail_response(self.request.as_slice());
                let provenance = Provenance {
                    source: AnswerSource::Error,
                    route_id: self.route_id,
                    upstream_name: String::new(),
                    upstream_protocol: String::new(),
                    attempt_count,
                    error: self.fallback.servfail_error(),
                };
                QueryAction::Respond { answer: QueryResponse { response, store: None, provenance }, health }
            },
        }
    }

    fn advance(&mut self, health: Option<(usize, HealthEffect)>) -> (a: QueryAction)
        requires
            old(self).wf(),
            old(self)@.fallback.next <= old(self)@.candidates.len(),
            old(self)@.fallback.attempt_count <= old(self)@.fallback.next,
            old(self)@.fallback.next >= 0,
            old(self)@.fallback.attempt_count >= 0,
            old(self)@.fallback.last_negative matches Some(j) ==> 0 <= j < old(self)@.candidates.len()
                && old(self)@.negative is Some,
        ensures
            final(self).wf(),
            (final(self)@, a@) == advance_spec(old(self)@, health_view(health)),
    {
        let ghost s0 = self@;
        let count = self.candidates.len();
        assert(s0.candidates.len() == count);
        let st = self.fallback.next_step(self.candidates.as_slice());
        match st {
            Step::Query(i) => {
                proof {
                    lemma_next_query(s0.fallback, s0.candidates);
                }
                self.phase = QueryPhase::Upstreams;
                self.asking = i;
                QueryAction::Ask { upstream: i, health }
            },
            _ => {
                proof {
                    lemma_next_end(s0.fallback, s0.candidates);
                }
                self.finish(st, Vec::new(), health)
            },
        }
    }

    /// Takes one event; returns what to do next. An event that does not belong to where
    /// the query stands changes nothing.
    pub fn step(&mut self, event: QueryEvent) -> (a: QueryAction)
        requires
            old(self).wf(),
        ensures
            final(self).wf(),
            (final(self)@, a@) == query_step_spec(old(self)@, event@),
    {
        let ghost s0 = self@;
        let ghost e0 = event@;
        match (self.phase, event) {
            (QueryPhase::Start, QueryEvent::Begin { host_families }) => {
                match local_answer(self.question.qtype, self.ipv6_enabled, host_families) {
                    LocalAnswer::EmptyIpv6 => {
                        self.phase = QueryPhase::Done;
                        let provenance = Provenance {
                            source: AnswerSource::Local,
                            route_id: -1,
                            upstream_name: String::new(),
                            upstream_protocol: String::new(),
                            attempt_count: 0,
                            error: String::new(),
                        };
                        let response = empty_success_response(&self.question);
                        QueryAction::Respond { answer: QueryResponse { response, store: None, provenance }, health: None }
                    },
                    LocalAnswer::Upstreams => {
                        self.phase = QueryPhase::Route;
                        QueryAction::SelectRoute
                    },
                    _ => {
                        self.phase = QueryPhase::Hosts;
                        QueryAction::LookUpHosts
                    },
                }
            },
            (QueryPhase::Hosts, QueryEvent::HostsAnswer(r)) => match r {
                Some(response) => {
                    self.phase = QueryPhase::Done;
                    let provenance = Provenance {
                        source: AnswerSource::Hosts,
                        route_id: -1,
                        upstream_name: String::new(),
                        upstream_protocol: String::new(),
                        attempt_count: 0,
                        error: String::new(),
                    };
                    QueryAction::Respond { answer: QueryResponse { response, store: None, provenance }, health: None }
                },
                None => {
                    self.phase = QueryPhase::Route;
                    QueryAction::SelectRoute
                },
            },
            (QueryPhase::Route, QueryEvent::Routed { route_id, upstreams }) => {
                let ghost ups = e0->Routed_upstreams;
                let mut names: Vec<(String, String)> = Vec::new();
                let mut cands: Vec<Candidate> = Vec::new();
                let mut i: usize = 0;
                while i < upstreams.len()
                    invariant
                        i <= upstreams@.len(),
                        ups == upstreams@.map_values(|u: SelectedUpstream| (u.name@, u.protocol@, u.candidate)),
                        names@.len() == i,
                        cands@.len() == i,
                        forall|k: int| 0 <= k < i ==> (#[trigger] names@[k]).0@ == ups[k].0 && names@[k].1@ == ups[k].1,
                        forall|k: int| 0 <= k < i ==> #[trigger] cands@[k] == ups[k].2,
                    decreases upstreams@.len() - i,
                {
                    names.push((upstreams[i].name.clone(), upstreams[i].protocol.clone()));
                    cands.push(upstreams[i].candidate);
                    i = i + 1;
                }
                self.phase = QueryPhase::Cache;
                self.route_id = route_id;
                self.upstreams = names;
                self.candidates = cands;
                proof {
                    assert(self@.upstreams =~= ups.map_values(|u: (Seq<char>, Seq<char>, Candidate)| (u.0, u.1)));
                    assert(self@.candidates =~= ups.map_values(|u: (Seq<char>, Seq<char>, Candidate)| u.2));
                }
                QueryAction::LookUpCache(self.key())
            },
            (QueryPhase::Cache, QueryEvent::CacheAnswer(c)) => match c {
                Some(hit) => {
                    self.phase = QueryPhase::Done;
                    let provenance = Provenance {
                        source: AnswerSource::Cache,
                        route_id: self.route_id,
                        upstream_name: hit.upstream_name,
                        upstream_protocol: hit.upstream_protocol,
                        attempt_count: 0,
                        error: String::new(),
                    };
                    QueryAction::Respond {
                        answer: QueryResponse { response: hit.response, store: None, provenance },
                        health: None,
                    }
                },
                None => {
                    self.fallback = Fallback::start(self.candidates.as_slice());
                    self.negative = None;
                    self.advance(None)
                },
            },
            (QueryPhase::Upstreams, QueryEvent::Reply { result, connecting }) => {
                let i = self.asking;
                let (kept, outcome) = match result {
                    Ok(resp) => upstream_reply(self.ipv6_enabled, resp),
                    Err(m) => (Vec::new(), ExchangeOutcome::Failed { connecting, message: m }),
                };
                let negative = match &outcome {
                    ExchangeOutcome::Negative { .. } => true,
                    _ => false,
                };
                let (fin, effect) = self.fallback.on_outcome(i, outcome);
                if negative {
                    self.negative = Some(bytes_copy(kept.as_slice()));
                }
                let health = Some((i, effect));
                match fin {
                    Some(st) => self.finish(st, kept, health),
                    None => {
                        self.advance(health)
                    },
                }
            },
            (_, _) => QueryAction::Ignore,
        }
    }
}

} // verus!
