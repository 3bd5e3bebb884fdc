//! The query history: the record kept of each answered query, and what the recorder
//! does with a record (drops it while disabled, queues it, or counts it as lost when
//! the queue is full). Writing the records to the database is the caller's work.
use crate::dns_message::{Question, QuestionView};
use crate::wire::{
    answer_min_ttl, answer_min_ttl_spec, qtype_label, qtype_label_spec, rcode, rcode_spec, response_code_label,
    response_code_label_spec,
};
use vstd::prelude::*;

verus! {

/// How many records wait for the writer at most.
pub const HISTORY_QUEUE_CAPACITY: usize = 4096;

/// How many records the writer stores at once at most.
pub const HISTORY_FLUSH_BATCH_SIZE: usize = 100;

/// How long records are kept, in days.
pub const HISTORY_RETENTION_DAYS: i64 = 14;

/// How many records are kept at most.
pub const HISTORY_MAX_ENTRIES: usize = 100_000;

/// The record of one answered query.
#[derive(Clone, Debug)]
pub struct DnsHistoryEvent {
    pub started_at: String,
    pub domain: String,
    pub record_type: String,
    pub qclass: u16,
    pub source: String,
    pub route_id: i32,
    pub upstream_name: String,
    pub upstream_protocol: String,
    pub duration_ms: u128,
    pub attempt_count: usize,
    pub response_code: String,
    pub min_ttl: Option<u32>,
    pub error: String,
}

/// The smallest answer TTL of a response, when it can be read and has answers.
pub open spec fn min_ttl_of(resp: Seq<u8>) -> Option<u32> {
    match answer_min_ttl_spec(resp) {
        Ok(t) => t,
        Err(_) => None,
    }
}

/// The record of a query answered with `resp`: the question's normalized name, type
/// label and class, where the answer came from, the route and upstream, how long it
/// took and how many upstreams were tried, the response code label, the smallest
/// answer TTL, and the error noted.
pub fn history_event(
    question: &Question,
    started_at: &str,
    duration_ms: u128,
    source: &str,
    route_id: i32,
    upstream_name: &str,
    upstream_protocol: &str,
    attempt_count: usize,
    resp: &[u8],
    error: &str,
) -> (e: DnsHistoryEvent)
    ensures
        e.started_at@ == started_at@,
        e.domain@ == question@.normalized_qname,
        e.record_type@ == qtype_label_spec(question.qtype),
        e.qclass == question.qclass,
        e.source@ == source@,
        e.route_id == route_id,
        e.upstream_name@ == upstream_name@,
        e.upstream_protocol@ == upstream_protocol@,
        e.duration_ms == duration_ms,
        e.attempt_count == attempt_count,
        e.response_code@ == response_code_label_spec(rcode_spec(resp@)),
        e.min_ttl == min_ttl_of(resp@),
        e.error@ == error@,
{
    let min_ttl = match answer_min_ttl(resp) {
        Ok(t) => t,
        Err(_) => None,
    };
    DnsHistoryEvent {
        started_at: started_at.to_owned(),
        domain: question.normalized_qname.as_str().to_owned(),
        record_type: qtype_label(question.qtype).to_owned(),
        qclass: question.qclass,
        source: source.to_owned(),
        route_id,
        upstream_name: upstream_name.to_owned(),
        upstream_protocol: upstream_protocol.to_owned(),
        duration_ms,
        attempt_count,
        response_code: response_code_label(rcode(resp)),
        min_ttl,
        error: error.to_owned(),
    }
}

/// What the recorder knows: whether recording is on, whether the writer is running,
/// and how many records were lost to a full queue.
#[derive(Clone, Copy, Debug)]
pub struct HistoryRecorderState {
    pub enabled: bool,
    pub has_writer: bool,
    pub dropped: u64,
}

/// What happens to a record.
#[derive(Clone, Copy, Debug, PartialEq, Eq, Structural)]
pub enum RecordAction {
    /// Recording is off or no writer runs: the record is dropped silently.
    Skip,
    /// The record is handed to the writer's queue.
    Send,
}

/// What the queue said when a record was handed to it.
#[derive(Clone, Copy, Debug, PartialEq, Eq, Structural)]
pub enum SendResult {
    Queued,
    Full,
    Disconnected,
}

impl HistoryRecorderState {
    /// A recorder that records nothing.
    pub fn disabled() -> (s: HistoryRecorderState)
        ensures
            !s.enabled,
            !s.has_writer,
            s.dropped == 0,
    {
        HistoryRecorderState { enabled: false, has_writer: false, dropped: 0 }
    }

    /// A recorder with a running writer.
    pub fn started(enabled: bool) -> (s: HistoryRecorderState)
        ensures
            s.enabled == enabled,
            s.has_writer,
            s.dropped == 0,
    {
        HistoryRecorderState { enabled, has_writer: true, dropped: 0 }
    }

    /// Turns recording on or off.
    pub fn set_enabled(&mut self, enabled: bool)
        ensures
            *final(self) == (HistoryRecorderState { enabled, ..*old(self) }),
    {
        self.enabled = enabled;
    }

    /// Whether a new record is handed to the writer.
    pub fn record(&self) -> (a: RecordAction)
        ensures
            a == if self.enabled && self.has_writer {
                RecordAction::Send
            } else {
                RecordAction::Skip
            },
    {
        if self.enabled && self.has_writer {
            RecordAction::Send
        } else {
            RecordAction::Skip
        }
    }

    /// Notes what the queue said: a full queue loses the record and is counted (the
    /// count wraps around, as an atomic counter does).
    pub fn sent(&mut self, result: SendResult)
        ensures
            final(self).enabled == old(self).enabled,
            final(self).has_writer == old(self).has_writer,
            final(self).dropped == if result != SendResult::Full {
                old(self).dropped
            } else if old(self).dropped < u64::MAX {
                (old(self).dropped + 1) as u64
            } else {
                0
            },
    {
        if result == SendResult::Full {
            self.dropped = if self.dropped < u64::MAX { self.dropped + 1 } else { 0 };
        }
    }
}

/// Whether the writer stores what it holds now: it stores whenever it holds anything.
pub fn should_flush(pending: usize) -> (b: bool)
    ensures
        b == (pending > 0),
{
    pending > 0
}

/// Whether the writer takes one more waiting record into the batch it is about to
/// store.
pub fn batch_has_room(pending: usize) -> (b: bool)
    ensures
        b == (pending < HISTORY_FLUSH_BATCH_SIZE),
{
    pending < HISTORY_FLUSH_BATCH_SIZE
}

/// Whether old records are cleaned up after a flush: when the last cleanup is at least
/// ten minutes old.
pub fn cleanup_due(since_last_cleanup_ms: u128) -> (b: bool)
    ensures
        b == (since_last_cleanup_ms >= 600_000),
{
    since_last_cleanup_ms >= 600_000
}

} // verus!
