//! The decisions of one query: answered locally (IPv6 off), from the hosts table, or by the
//! selected upstreams tried in their configured order, where the first upstream that returns
//! records wins, a negative answer (no records, or NXDOMAIN) is only kept as a fallback while
//! later upstreams are tried, and SERVFAIL is the answer when nothing better came back.
//!
//! The exchanges themselves are the caller's: `Fallback::next_step` says which upstream to ask
//! next and `Fallback::on_outcome` takes what came back.
use crate::wire::{
    answer_count_spec, classify, classify_spec, rcode, rcode_spec, ResponseClass, RCODE_NAME_ERROR,
    TYPE_A, TYPE_AAAA,
};
use vstd::prelude::*;

verus! {

/// How a query is answered before any upstream is asked.
#[derive(Clone, Copy, Debug, PartialEq, Eq, Structural)]
pub enum LocalAnswer {
    /// An AAAA query while IPv6 is off: an empty NOERROR answer.
    EmptyIpv6,
    /// The hosts table has IPv4 addresses for an A query.
    HostsIpv4,
    /// The hosts table has IPv6 addresses for an AAAA query.
    HostsIpv6,
    /// The query goes on to the routes, the cache and the upstreams.
    Upstreams,
}

/// The local answer for a query of type `qtype`, given whether IPv6 is on and, when the
/// hosts table has the name, whether its entry has IPv4 and IPv6 addresses.
pub open spec fn local_answer_spec(qtype: u16, ipv6_enabled: bool, hosts: Option<(bool, bool)>) -> LocalAnswer {
    if qtype == TYPE_AAAA && !ipv6_enabled {
        LocalAnswer::EmptyIpv6
    } else {
        match hosts {
            Some((has_v4, has_v6)) => if qtype == TYPE_A && has_v4 {
                LocalAnswer::HostsIpv4
            } else if qtype == TYPE_AAAA && has_v6 {
                LocalAnswer::HostsIpv6
            } else {
                LocalAnswer::Upstreams
            },
            None => LocalAnswer::Upstreams,
        }
    }
}

/// Decides whether a query is answered locally.
pub fn local_answer(qtype: u16, ipv6_enabled: bool, hosts: Option<(bool, bool)>) -> (r: LocalAnswer)
    ensures
        r == local_answer_spec(qtype, ipv6_enabled, hosts),
{
    if qtype == TYPE_AAAA && !ipv6_enabled {
        return LocalAnswer::EmptyIpv6;
    }
    match hosts {
        Some((has_v4, has_v6)) => if qtype == TYPE_A && has_v4 {
            LocalAnswer::HostsIpv4
        } else if qtype == TYPE_AAAA && has_v6 {
            LocalAnswer::HostsIpv6
        } else {
            LocalAnswer::Upstreams
        },
        None => LocalAnswer::Upstreams,
    }
}

/// What is known of one selected upstream before the query: whether a client is configured
/// for the name, whether health allows it to take queries, and whether its connection is
/// being established right now.
#[derive(Clone, Copy, Debug, PartialEq, Eq, Structural)]
pub struct Candidate {
    pub present: bool,
    pub eligible: bool,
    pub connecting: bool,
}

/// What came back from one upstream.
#[derive(Clone, Debug)]
pub enum ExchangeOutcome {
    /// A response with records.
    Answer,
    /// A NOERROR response without records, or NXDOMAIN (`name_error`).
    Negative { name_error: bool },
    /// Any other response.
    Retry,
    /// No response; `connecting` when the connection was still being established.
    Failed { connecting: bool, message: String },
}

/// An outcome as values.
pub enum OutcomeView {
    Answer,
    Negative { name_error: bool },
    Retry,
    Failed { connecting: bool, message: Seq<char> },
}

impl View for ExchangeOutcome {
    type V = OutcomeView;

    open spec fn view(&self) -> OutcomeView {
        match self {
            ExchangeOutcome::Answer => OutcomeView::Answer,
            ExchangeOutcome::Negative { name_error } => OutcomeView::Negative { name_error: *name_error },
            ExchangeOutcome::Retry => OutcomeView::Retry,
            ExchangeOutcome::Failed { connecting, message } => OutcomeView::Failed {
                connecting: *connecting,
                message: message@,
            },
        }
    }
}

/// The outcome a response stands for.
pub open spec fn response_outcome_spec(resp: Seq<u8>) -> OutcomeView {
    match classify_spec(resp) {
        ResponseClass::Answer => OutcomeView::Answer,
        ResponseClass::Negative => OutcomeView::Negative { name_error: rcode_spec(resp) == Some(RCODE_NAME_ERROR) },
        ResponseClass::Retry => OutcomeView::Retry,
    }
}

/// An NXDOMAIN response (response code 3) is a negative answer for a name that does not
/// exist, whatever its answer count: the upstream answered, and later ones may still be
/// tried.
pub proof fn law_nxdomain_is_negative(msg: Seq<u8>)
    requires
        msg.len() >= 4,
        msg[3] % 16 == 3,
    ensures
        response_outcome_spec(msg) == (OutcomeView::Negative { name_error: true }),
{
    crate::wire::law_classify_reads_the_header(msg);
}

/// Reads the outcome of a response.
pub fn response_outcome(resp: &[u8]) -> (r: ExchangeOutcome)
    ensures
        r@ == response_outcome_spec(resp@),
{
    match classify(resp) {
        ResponseClass::Answer => ExchangeOutcome::Answer,
        ResponseClass::Negative => ExchangeOutcome::Negative {
            name_error: match rcode(resp) {
                Some(c) => c == RCODE_NAME_ERROR,
                None => false,
            },
        },
        ResponseClass::Retry => ExchangeOutcome::Retry,
    }
}

/// An upstream's response as a query takes it: with IPv6 off its AAAA records are left
/// out first (as `filter_response` does), and the outcome is read from what remains.
pub fn upstream_reply(ipv6_enabled: bool, resp: Vec<u8>) -> (r: (Vec<u8>, ExchangeOutcome))
    ensures
        ipv6_enabled ==> r.0@ == resp@,
        !ipv6_enabled ==> r.0@ == match crate::dns_message::stripped_spec(resp@) {
            Some(b) => b,
            None => resp@,
        },
        r.1@ == response_outcome_spec(r.0@),
{
    let kept = crate::dns_message::filter_response(ipv6_enabled, resp);
    let outcome = response_outcome(kept.as_slice());
    (kept, outcome)
}

/// The health record an outcome calls for.
#[derive(Clone, Copy, Debug, PartialEq, Eq, Structural)]
pub enum HealthEffect {
    /// Nothing to record (the connection was still being established).
    Nothing,
    /// A successful real query.
    QuerySuccess,
    /// A negative answer, which still proves the upstream reachable.
    NegativeResponse,
    /// A retryable response, recorded as a failure.
    RetryableFailure,
    /// No response, recorded as a failure.
    TransportFailure,
}

/// The next thing to do.
#[derive(Clone, Copy, Debug, PartialEq, Eq, Structural)]
pub enum Step {
    /// Ask the upstream at this position.
    Query(usize),
    /// Return the answer of the upstream at this position.
    Answer(usize),
    /// Return the negative answer kept from the upstream at this position.
    Negative(usize),
    /// Return SERVFAIL.
    ServFail,
}

/// The error noted when an upstream is passed over as unhealthy.
pub open spec fn unhealthy_text() -> Seq<char> {
    seq!['a', 'l', 'l', ' ', 's', 'e', 'l', 'e', 'c', 't', 'e', 'd', ' ', 'u', 'p', 's', 't', 'r', 'e', 'a', 'm', 's', ' ', 'u', 'n', 'h', 'e', 'a', 'l', 't', 'h', 'y']
}

/// The error noted when an upstream is passed over because it is connecting.
pub open spec fn connecting_text() -> Seq<char> {
    seq!['u', 'p', 's', 't', 'r', 'e', 'a', 'm', ' ', 'c', 'o', 'n', 'n', 'e', 'c', 't', 'i', 'o', 'n', ' ', 'i', 's', ' ', 'a', 'l', 'r', 'e', 'a', 'd', 'y', ' ', 'b', 'e', 'i', 'n', 'g', ' ', 'e', 's', 't', 'a', 'b', 'l', 'i', 's', 'h', 'e', 'd']
}

/// The error noted for a retryable response.
pub open spec fn retryable_text() -> Seq<char> {
    seq!['u', 'p', 's', 't', 'r', 'e', 'a', 'm', ' ', 'r', 'e', 't', 'u', 'r', 'n', 'e', 'd', ' ', 'r', 'e', 't', 'r', 'y', 'a', 'b', 'l', 'e', ' ', 'r', 'e', 's', 'p', 'o', 'n', 's', 'e']
}

/// The history error of a negative answer that is not NXDOMAIN.
pub open spec fn no_answer_text() -> Seq<char> {
    seq!['u', 'p', 's', 't', 'r', 'e', 'a', 'm', ' ', 'r', 'e', 't', 'u', 'r', 'n', 'e', 'd', ' ', 'n', 'o', ' ', 'a', 'n', 's', 'w', 'e', 'r']
}

/// The history error of a SERVFAIL when no error was noted.
pub open spec fn all_failed_text() -> Seq<char> {
    seq!['a', 'l', 'l', ' ', 'u', 'p', 's', 't', 'r', 'e', 'a', 'm', 's', ' ', 'f', 'a', 'i', 'l', 'e', 'd']
}

/// Whether some selected upstream is configured and healthy.
pub open spec fn has_eligible_spec(cands: Seq<Candidate>) -> bool {
    exists|i: int| 0 <= i < cands.len() && #[trigger] cands[i].present && cands[i].eligible
}

/// Whether an upstream is asked: it is configured and healthy, and it is not connecting
/// while some healthy upstream exists.
pub open spec fn asked(c: Candidate, has_eligible: bool) -> bool {
    c.present && c.eligible && !(has_eligible && c.connecting)
}

/// The progress of one query through its selected upstreams.
#[derive(Debug)]
pub struct Fallback {
    /// The next position to look at.
    pub next: usize,
    /// How many upstreams were asked.
    pub attempt_count: usize,
    /// The position of the last negative answer, kept as the fallback.
    pub last_negative: Option<usize>,
    /// The history error of that negative answer (empty for NXDOMAIN).
    pub negative_error: String,
    /// The last error noted.
    pub last_error: Option<String>,
    /// Whether some selected upstream is configured and healthy.
    pub has_eligible: bool,
}

/// A query's progress as values.
pub struct FallbackView {
    pub next: int,
    pub attempt_count: int,
    pub last_negative: Option<int>,
    pub negative_error: Seq<char>,
    pub last_error: Option<Seq<char>>,
    pub has_eligible: bool,
}

impl View for Fallback {
    type V = FallbackView;

    open spec fn view(&self) -> FallbackView {
        FallbackView {
            next: self.next as int,
            attempt_count: self.attempt_count as int,
            last_negative: match self.last_negative {
                Some(i) => Some(i as int),
                None => None,
            },
            negative_error: self.negative_error@,
            last_error: match self.last_error {
                Some(e) => Some(e@),
                None => None,
            },
            has_eligible: self.has_eligible,
        }
    }
}

/// The error kept when an upstream is passed over with `text`: the first one noted wins.
pub open spec fn note_once(e: Option<Seq<char>>, text: Seq<char>) -> Option<Seq<char>> {
    match e {
        Some(t) => Some(t),
        None => Some(text),
    }
}

/// Looking for the next upstream to ask from position `s.next`: passed-over upstreams note
/// why (unhealthy, or connecting), the first asked one is returned with one more attempt
/// counted; at the end the kept negative answer, else SERVFAIL.
pub open spec fn next_spec(s: FallbackView, cands: Seq<Candidate>) -> (FallbackView, Step)
    decreases cands.len() - s.next,
{
    if s.next >= cands.len() || s.next < 0 {
        (s, match s.last_negative {
            Some(j) => Step::Negative(j as usize),
            None => Step::ServFail,
        })
    } else {
        let c = cands[s.next];
        if !c.present {
            next_spec(FallbackView { next: s.next + 1, ..s }, cands)
        } else if !c.eligible {
            next_spec(
                FallbackView { next: s.next + 1, last_error: note_once(s.last_error, unhealthy_text()), ..s },
                cands,
            )
        } else if s.has_eligible && c.connecting {
            next_spec(
                FallbackView { next: s.next + 1, last_error: note_once(s.last_error, connecting_text()), ..s },
                cands,
            )
        } else {
            (FallbackView { next: s.next + 1, attempt_count: s.attempt_count + 1, ..s }, Step::Query(s.next as usize))
        }
    }
}

/// Taking the outcome of the upstream at position `i`: records win at once, a negative
/// answer replaces the kept one, a retryable response or a failure notes its error.
pub open spec fn outcome_spec(s: FallbackView, i: int, o: OutcomeView) -> (FallbackView, Option<Step>, HealthEffect) {
    match o {
        OutcomeView::Answer => (s, Some(Step::Answer(i as usize)), HealthEffect::QuerySuccess),
        OutcomeView::Negative { name_error } => (
            FallbackView {
                last_negative: Some(i),
                negative_error: if name_error { Seq::empty() } else { no_answer_text() },
                ..s
            },
            None,
            HealthEffect::NegativeResponse,
        ),
        OutcomeView::Retry => (
            FallbackView { last_error: Some(retryable_text()), ..s },
            None,
            HealthEffect::RetryableFailure,
        ),
        OutcomeView::Failed { connecting, message } => (
            FallbackView { last_error: Some(message), ..s },
            None,
            if connecting { HealthEffect::Nothing } else { HealthEffect::TransportFailure },
        ),
    }
}

/// The state before any upstream is looked at.
pub open spec fn start_spec(cands: Seq<Candidate>) -> FallbackView {
    FallbackView {
        next: 0,
        attempt_count: 0,
        last_negative: None,
        negative_error: Seq::empty(),
        last_error: None,
        has_eligible: has_eligible_spec(cands),
    }
}

fn literal(s: &str) -> (r: String)
    ensures
        r@ == s@,
{
    s.to_string()
}

impl Fallback {
    /// The progress of a query whose selected upstreams are `cands`, before any is asked.
    pub fn start(cands: &[Candidate]) -> (f: Fallback)
        ensures
            f@ == start_spec(cands@),
    {
        let mut has = false;
        let mut i: usize = 0;
        while i < cands.len()
            invariant
                i <= cands@.len(),
                has == exists|j: int| 0 <= j < i && #[trigger] cands@[j].present && cands@[j].eligible,
            decreases cands@.len() - i,
        {
            if cands[i].present && cands[i].eligible {
                has = true;
            }
            i = i + 1;
        }
        let e = literal("");
        proof {
            reveal_strlit("");
            assert(e@ =~= Seq::<char>::empty());
        }
        Fallback { next: 0, attempt_count: 0, last_negative: None, negative_error: e, last_error: None, has_eligible: has }
    }

    /// Moves to the next upstream to ask, or to the end of the query.
    pub fn next_step(&mut self, cands: &[Candidate]) -> (st: Step)
        requires
            old(self)@.next <= cands@.len(),
            old(self)@.attempt_count <= old(self)@.next,
            old(self)@.last_negative matches Some(j) ==> 0 <= j < cands@.len(),
        ensures
            (final(self)@, st) == next_spec(old(self)@, cands@),
            final(self)@.next <= cands@.len(),
            final(self)@.attempt_count <= final(self)@.next,
    {
        loop
            invariant
                self@.next <= cands@.len(),
                self@.attempt_count <= self@.next,
                self@.last_negative == old(self)@.last_negative,
                self@.last_negative matches Some(j) ==> 0 <= j < cands@.len(),
                next_spec(self@, cands@) == next_spec(old(self)@, cands@),
            decreases cands@.len() - self@.next,
        {
            let ghost cur = self@;
            if self.next >= cands.len() {
                assert(next_spec(cur, cands@).0 == cur);
                return match self.last_negative {
                    Some(j) => Step::Negative(j),
                    None => Step::ServFail,
                };
            }
            let c = cands[self.next];
            if !c.present {
                self.next = self.next + 1;
            } else if !c.eligible {
                if self.last_error.is_none() {
                    let t = literal("all selected upstreams unhealthy");
                    proof {
                        reveal_strlit("all selected upstreams unhealthy");
                        assert(t@ =~= unhealthy_text());
                    }
                    self.last_error = Some(t);
                }
                self.next = self.next + 1;
            } else if self.has_eligible && c.connecting {
                if self.last_error.is_none() {
                    let t = literal("upstream connection is already being established");
                    proof {
                        reveal_strlit("upstream connection is already being established");
                        assert(t@ =~= connecting_text());
                    }
                    self.last_error = Some(t);
                }
                self.next = self.next + 1;
            } else {
                let i = self.next;
                self.attempt_count = self.attempt_count + 1;
                self.next = self.next + 1;
                assert(next_spec(cur, cands@) == (self@, Step::Query(i)));
                return Step::Query(i);
            }
        }
    }

    /// Takes the outcome of the upstream at position `i`; returns the end of the query if
    /// the outcome settles it, and the health record to make.
    pub fn on_outcome(&mut self, i: usize, outcome: ExchangeOutcome) -> (r: (Option<Step>, HealthEffect))
        ensures
            (final(self)@, r.0, r.1) == outcome_spec(old(self)@, i as int, outcome@),
    {
        match outcome {
            ExchangeOutcome::Answer => (Some(Step::Answer(i)), HealthEffect::QuerySuccess),
            ExchangeOutcome::Negative { name_error } => {
                self.last_negative = Some(i);
                self.negative_error = if name_error {
                    let e = literal("");
                    proof {
                        reveal_strlit("");
                        assert(e@ =~= Seq::<char>::empty());
                    }
                    e
                } else {
                    let e = literal("upstream returned no answer");
                    proof {
                        reveal_strlit("upstream returned no answer");
                        assert(e@ =~= no_answer_text());
                    }
                    e
                };
                (None, HealthEffect::NegativeResponse)
            },
            ExchangeOutcome::Retry => {
                let t = literal("upstream returned retryable response");
                proof {
                    reveal_strlit("upstream returned retryable response");
                    assert(t@ =~= retryable_text());
                }
                self.last_error = Some(t);
                (None, HealthEffect::RetryableFailure)
            },
            ExchangeOutcome::Failed { connecting, message } => {
                self.last_error = Some(message);
                (None, if connecting { HealthEffect::Nothing } else { HealthEffect::TransportFailure })
            },
        }
    }

    /// The error written to history for a SERVFAIL: the last one noted, else that all
    /// upstreams failed.
    pub fn servfail_error(&self) -> (e: String)
        ensures
            e@ == match self@.last_error {
                Some(t) => t,
                None => all_failed_text(),
            },
    {
        match &self.last_error {
            Some(t) => t.clone(),
            None => {
                let e = literal("all upstreams failed");
                proof {
                    reveal_strlit("all upstreams failed");
                    assert(e@ =~= all_failed_text());
                }
                e
            },
        }
    }
}

/// The first asked position from `from` whose outcome has records.
pub open spec fn first_answer(cands: Seq<Candidate>, outs: Seq<OutcomeView>, he: bool, from: int) -> Option<int>
    decreases cands.len() - from,
{
    if from >= cands.len() || from < 0 {
        None
    } else if asked(cands[from], he) && outs[from] is Answer {
        Some(from)
    } else {
        first_answer(cands, outs, he, from + 1)
    }
}

/// The last asked position before `upto` whose outcome is negative.
pub open spec fn last_negative_before(cands: Seq<Candidate>, outs: Seq<OutcomeView>, he: bool, upto: int) -> Option<int>
    decreases upto,
{
    if upto <= 0 {
        None
    } else if asked(cands[upto - 1], he) && outs[upto - 1] is Negative {
        Some(upto - 1)
    } else {
        last_negative_before(cands, outs, he, upto - 1)
    }
}

/// How a query ends when the upstream at each position would answer with `outs`: the
/// first asked upstream with records, else the last asked upstream with a negative answer,
/// else SERVFAIL.
pub open spec fn ordered_result(cands: Seq<Candidate>, outs: Seq<OutcomeView>) -> Step {
    let he = has_eligible_spec(cands);
    match first_answer(cands, outs, he, 0) {
        Some(i) => Step::Answer(i as usize),
        None => match last_negative_before(cands, outs, he, cands.len() as int) {
            Some(j) => Step::Negative(j as usize),
            None => Step::ServFail,
        },
    }
}

/// Runs the steps of a query from `s`, the upstream at each position answering with `outs`.
pub open spec fn drive(s: FallbackView, cands: Seq<Candidate>, outs: Seq<OutcomeView>) -> Step
    decreases cands.len() - s.next,
{
    let (s1, st) = next_spec(s, cands);
    match st {
        Step::Query(i) => {
            let (s2, fin, _) = outcome_spec(s1, i as int, outs[i as int]);
            match fin {
                Some(f) => f,
                None => if s2.next > s.next && s2.next <= cands.len() {
                    drive(s2, cands, outs)
                } else {
                    Step::ServFail
                },
            }
        },
        other => other,
    }
}

proof fn lemma_next_spec(s: FallbackView, cands: Seq<Candidate>)
    requires
        0 <= s.next <= cands.len(),
        cands.len() <= usize::MAX,
        s.last_negative matches Some(j) ==> 0 <= j < cands.len(),
    ensures
        ({
            let (s1, st) = next_spec(s, cands);
            &&& s1.last_negative == s.last_negative
            &&& s1.has_eligible == s.has_eligible
            &&& s1.next <= cands.len()
            &&& s1.next >= s.next
            &&& match st {
                Step::Query(i) => s.next <= i < cands.len() && s1.next == i + 1 && asked(cands[i as int], s.has_eligible)
                    && forall|k: int| s.next <= k < i ==> !asked(#[trigger] cands[k], s.has_eligible),
                Step::Negative(j) => s.last_negative == Some(j as int) && forall|k: int|
                    s.next <= k < cands.len() ==> !asked(#[trigger] cands[k], s.has_eligible),
                Step::ServFail => s.last_negative is None && forall|k: int|
                    s.next <= k < cands.len() ==> !asked(#[trigger] cands[k], s.has_eligible),
                Step::Answer(_) => false,
            }
        }),
    decreases cands.len() - s.next,
{
    if s.next < cands.len() {
        let c = cands[s.next];
        if !c.present {
            lemma_next_spec(FallbackView { next: s.next + 1, ..s }, cands);
        } else if !c.eligible {
            lemma_next_spec(FallbackView { next: s.next + 1, last_error: note_once(s.last_error, unhealthy_text()), ..s }, cands);
        } else if s.has_eligible && c.connecting {
            lemma_next_spec(FallbackView { next: s.next + 1, last_error: note_once(s.last_error, connecting_text()), ..s }, cands);
        }
    }
}

proof fn lemma_first_answer_skip(cands: Seq<Candidate>, outs: Seq<OutcomeView>, he: bool, from: int, to: int)
    requires
        0 <= from <= to <= cands.len(),
        forall|k: int| from <= k < to ==> !(asked(#[trigger] cands[k], he) && outs[k] is Answer),
    ensures
        first_answer(cands, outs, he, from) == first_answer(cands, outs, he, to),
    decreases to - from,
{
    if from < to {
        lemma_first_answer_skip(cands, outs, he, from + 1, to);
    }
}

proof fn lemma_last_negative_skip(cands: Seq<Candidate>, outs: Seq<OutcomeView>, he: bool, from: int, to: int)
    requires
        0 <= from <= to <= cands.len(),
        forall|k: int| from <= k < to ==> !(asked(#[trigger] cands[k], he) && outs[k] is Negative),
    ensures
        last_negative_before(cands, outs, he, to) == last_negative_before(cands, outs, he, from),
    decreases to - from,
{
    if from < to {
        lemma_last_negative_skip(cands, outs, he, from, to - 1);
    }
}

/// The invariant of a run: everything before `s.next` that was asked gave no records, and the
/// kept negative answer is the last negative one among them.
pub open spec fn run_inv(s: FallbackView, cands: Seq<Candidate>, outs: Seq<OutcomeView>) -> bool {
    let he = has_eligible_spec(cands);
    &&& 0 <= s.next <= cands.len()
    &&& cands.len() <= usize::MAX
    &&& s.has_eligible == he
    &&& (s.last_negative matches Some(j) ==> 0 <= j < s.next)
    &&& first_answer(cands, outs, he, 0) == first_answer(cands, outs, he, s.next)
    &&& s.last_negative == last_negative_before(cands, outs, he, s.next)
}

proof fn lemma_drive(s: FallbackView, cands: Seq<Candidate>, outs: Seq<OutcomeView>)
    requires
        run_inv(s, cands, outs),
        outs.len() == cands.len(),
    ensures
        drive(s, cands, outs) == ordered_result(cands, outs),
    decreases cands.len() - s.next,
{
    let he = has_eligible_spec(cands);
    lemma_next_spec(s, cands);
    let (s1, st) = next_spec(s, cands);
    match st {
        Step::Query(i) => {
            let i = i as int;
            lemma_first_answer_skip(cands, outs, he, s.next, i);
            lemma_last_negative_skip(cands, outs, he, s.next, i);
            let (s2, fin, _) = outcome_spec(s1, i, outs[i]);
            if outs[i] is Answer {
                assert(first_answer(cands, outs, he, i) == Some(i));
            } else {
                assert(first_answer(cands, outs, he, i) == first_answer(cands, outs, he, i + 1));
                assert(s2.next == i + 1);
                if outs[i] is Negative {
                    assert(last_negative_before(cands, outs, he, i + 1) == Some(i));
                } else {
                    assert(last_negative_before(cands, outs, he, i + 1) == last_negative_before(cands, outs, he, i));
                }
                assert(run_inv(s2, cands, outs));
                lemma_drive(s2, cands, outs);
            }
        },
        _ => {
            lemma_first_answer_skip(cands, outs, he, s.next, cands.len() as int);
            lemma_last_negative_skip(cands, outs, he, s.next, cands.len() as int);
            assert(first_answer(cands, outs, he, cands.len() as int) is None);
        },
    }
}

/// Ordered fallback: asking the selected upstreams in order, skipping the unhealthy ones
/// (and the connecting ones while a healthy one exists), a query ends with the first
/// upstream that returns records; when none does, with the last negative answer received;
/// and when there was none, with SERVFAIL.
pub proof fn law_ordered_fallback(cands: Seq<Candidate>, outs: Seq<OutcomeView>)
    requires
        outs.len() == cands.len(),
        cands.len() <= usize::MAX,
    ensures
        drive(start_spec(cands), cands, outs) == ordered_result(cands, outs),
{
    let he = has_eligible_spec(cands);
    assert(last_negative_before(cands, outs, he, 0) is None);
    lemma_drive(start_spec(cands), cands, outs);
}

/// Among the asked upstreams, a later answer never overrides an earlier one: when two
/// asked upstreams would both return records, the query ends with the earlier.
pub proof fn law_first_answer_wins(cands: Seq<Candidate>, outs: Seq<OutcomeView>, i: int, j: int)
    requires
        outs.len() == cands.len(),
        cands.len() <= usize::MAX,
        0 <= i < j < cands.len(),
        asked(cands[i], has_eligible_spec(cands)),
        outs[i] is Answer,
        forall|k: int| 0 <= k < i ==> !(asked(#[trigger] cands[k], has_eligible_spec(cands)) && outs[k] is Answer),
    ensures
        drive(start_spec(cands), cands, outs) == Step::Answer(i as usize),
{
    law_ordered_fallback(cands, outs);
    lemma_first_answer_skip(cands, outs, has_eligible_spec(cands), 0, i);
}

} // verus!
