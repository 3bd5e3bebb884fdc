//! Upstream health: a record per upstream that real queries and probes update, the
//! query pool it decides (degraded upstreams leave the pool at once, unhealthy ones are
//! displayed as such after `failure_threshold` failures in a row, and come back after
//! `recovery_threshold` successes in a row), and the probe schedule with its backoff.
//!
//! Durations are counted in nanoseconds (`u128`), clock readings in milliseconds of a
//! monotonic clock (`u64`), and wall-clock times are RFC 3339 texts supplied by the caller.
use crate::upstream::utf8_bytes;
use crate::wire::{rcode, rcode_spec, RCODE_REFUSED, RCODE_SERVER_FAILURE};
use vstd::prelude::*;

verus! {

/// At most this many probes run at once.
pub const MAX_CONCURRENT_HEALTHCHECKS: usize = 4;

/// Probes of successive upstreams start this far apart (200 ms).
pub const HEALTHCHECK_STAGGER_STEP_NS: u128 = 200_000_000;

/// The first retry after a failure waits this long (1 s) before jitter.
pub const HEALTHCHECK_FAILURE_RETRY_BASE_DELAY_NS: u128 = 1_000_000_000;

/// Retries never wait longer than this (30 s).
pub const HEALTHCHECK_FAILURE_RETRY_MAX_DELAY_NS: u128 = 30_000_000_000;

/// A degraded upstream that has started to recover is probed again after this (200 ms).
pub const HEALTHCHECK_RECOVERY_CONFIRM_DELAY_NS: u128 = 200_000_000;

/// Nanoseconds in a millisecond.
pub const NANOS_PER_MILLI: u128 = 1_000_000;

/// What a probe's reply says about the upstream.
#[derive(Clone, Copy, Debug, PartialEq, Eq, Structural)]
pub enum ProbeOutcome {
    Healthy,
    InvalidResponse,
    RetryableResponse,
}

/// The outcome of a probe reply: no parseable header is an invalid response, SERVFAIL
/// and REFUSED are retryable, any other RCODE proves health.
pub open spec fn probe_outcome_spec(resp: Seq<u8>) -> ProbeOutcome {
    match rcode_spec(resp) {
        None => ProbeOutcome::InvalidResponse,
        Some(c) => if c == RCODE_SERVER_FAILURE || c == RCODE_REFUSED {
            ProbeOutcome::RetryableResponse
        } else {
            ProbeOutcome::Healthy
        },
    }
}

/// The error a probe's reply is noted with: none for a healthy one.
pub open spec fn probe_failure_text_spec(o: ProbeOutcome) -> Option<Seq<char>> {
    match o {
        ProbeOutcome::Healthy => None,
        ProbeOutcome::InvalidResponse => Some("healthcheck returned invalid response"@),
        ProbeOutcome::RetryableResponse => Some("healthcheck returned retryable response"@),
    }
}

/// The error a probe's reply is noted with: none for a healthy one.
pub fn probe_failure_text(o: ProbeOutcome) -> (r: Option<String>)
    ensures
        match r {
            Some(t) => probe_failure_text_spec(o) == Some(t@),
            None => probe_failure_text_spec(o) is None,
        },
{
    match o {
        ProbeOutcome::Healthy => None,
        ProbeOutcome::InvalidResponse => Some(String::from_str("healthcheck returned invalid response")),
        ProbeOutcome::RetryableResponse => Some(String::from_str("healthcheck returned retryable response")),
    }
}

/// Classifies a probe reply.
pub fn classify_probe_response(resp: &[u8]) -> (r: ProbeOutcome)
    ensures
        r == probe_outcome_spec(resp@),
{
    match rcode(resp) {
        None => ProbeOutcome::InvalidResponse,
        Some(c) => if c == RCODE_SERVER_FAILURE || c == RCODE_REFUSED {
            ProbeOutcome::RetryableResponse
        } else {
            ProbeOutcome::Healthy
        },
    }
}

/// Why a failure is recorded; both kinds count the same.
#[derive(Clone, Copy, Debug, PartialEq, Eq, Structural)]
pub enum FailureKind {
    Transport,
    RetryableResponse,
}

/// One step of the name hash that spreads probe retries: `h * 31 + byte`, wrapping.
pub open spec fn hash_step(h: u64, b: u8) -> u64 {
    vstd::wrapping::u64_specs::wrapping_add(vstd::wrapping::u64_specs::wrapping_mul(h, 31), b as u64)
}

/// The name hash of `bytes`, starting from `seed`.
pub open spec fn stable_hash(bytes: Seq<u8>, seed: u64) -> u64
    decreases bytes.len(),
{
    if bytes.len() == 0 {
        seed
    } else {
        hash_step(stable_hash(bytes.drop_last(), seed), bytes.last())
    }
}

/// The number of distinct jitter offsets for a delay of `delay_ms` milliseconds.
pub open spec fn jitter_span(delay_ms: u128) -> u64 {
    ((delay_ms / 5) * 2 + 1) as u64
}

/// A delay moved by up to a fifth of itself in either direction, by an amount fixed by the
/// upstream name and the failure streak, and rounded down to whole milliseconds; a delay
/// under 5 ms is kept as it is.
pub open spec fn with_stable_jitter_spec(delay_ns: u128, name: Seq<u8>, failure_streak: u32) -> u128 {
    let delay_ms = delay_ns / NANOS_PER_MILLI;
    let window = delay_ms / 5;
    if window == 0 {
        delay_ns
    } else {
        let offset = stable_hash(name, failure_streak as u64) % jitter_span(delay_ms);
        let jittered = delay_ms + offset;
        let jittered = if jittered >= window { jittered - window } else { 0 };
        let capped = if jittered > u64::MAX { u64::MAX as int } else { jittered };
        (capped * NANOS_PER_MILLI) as u128
    }
}

/// Moves `delay_ns` by the stable jitter of `upstream_name` and `failure_streak`.
pub fn with_stable_jitter(delay_ns: u128, upstream_name: &str, failure_streak: u32) -> (r: u128)
    requires
        delay_ns / NANOS_PER_MILLI / 5 == 0 || jitter_span(delay_ns / NANOS_PER_MILLI) != 0,
    ensures
        r == with_stable_jitter_spec(delay_ns, utf8_bytes(upstream_name@), failure_streak),
{
    let delay_ms = delay_ns / NANOS_PER_MILLI;
    let window = delay_ms / 5;
    if window == 0 {
        return delay_ns;
    }
    let bytes = upstream_name.as_bytes();
    let mut hash: u64 = failure_streak as u64;
    let mut i: usize = 0;
    while i < bytes.len()
        invariant
            i <= bytes@.len(),
            bytes@ == utf8_bytes(upstream_name@),
            hash == stable_hash(bytes@.take(i as int), failure_streak as u64),
        decreases bytes@.len() - i,
    {
        assert(bytes@.take(i + 1).drop_last() =~= bytes@.take(i as int));
        hash = hash.wrapping_mul(31).wrapping_add(bytes[i] as u64);
        i = i + 1;
    }
    assert(bytes@.take(bytes@.len() as int) =~= bytes@);
    let span = (window * 2 + 1) as u64;
    let offset = (hash % span) as u128;
    let jittered = delay_ms + offset;
    let jittered = if jittered >= window { jittered - window } else { 0 };
    let capped: u128 = if jittered > u64::MAX as u128 { u64::MAX as u128 } else { jittered };
    capped * NANOS_PER_MILLI
}

/// The smaller of two durations.
pub open spec fn min_ns(a: u128, b: u128) -> u128 {
    if a <= b { a } else { b }
}

/// The retry delay after `failure_streak` failures in a row: 1 s doubled for each failure
/// after the first (at most 16 doublings), capped at the interval and at 30 s, then
/// jittered and capped again.
pub open spec fn backoff_spec(name: Seq<u8>, failure_streak: u32, interval_ns: u128) -> u128 {
    let max_delay = min_ns(interval_ns, HEALTHCHECK_FAILURE_RETRY_MAX_DELAY_NS);
    let base = min_ns(HEALTHCHECK_FAILURE_RETRY_BASE_DELAY_NS, max_delay);
    if base == 0 {
        0
    } else {
        let exponent = if failure_streak == 0 { 0 } else { min_ns((failure_streak - 1) as u128, 16) };
        let delay = min_ns((base * pow2(exponent as nat)) as u128, max_delay);
        min_ns(with_stable_jitter_spec(delay, name, failure_streak), max_delay)
    }
}

/// Two to the power `e`.
pub open spec fn pow2(e: nat) -> nat
    decreases e,
{
    if e == 0 { 1 } else { 2 * pow2((e - 1) as nat) }
}

proof fn lemma_pow2_mono(a: nat, b: nat)
    requires
        a <= b,
    ensures
        1 <= pow2(a) <= pow2(b),
    decreases b,
{
    if b > a {
        lemma_pow2_mono(a, (b - 1) as nat);
    } else if a > 0 {
        lemma_pow2_mono((a - 1) as nat, (a - 1) as nat);
    }
}

proof fn lemma_pow2_bound(e: nat)
    requires
        e <= 16,
    ensures
        1 <= pow2(e) <= 65536,
{
    lemma_pow2_mono(e, 16);
    assert(pow2(16) == 65536) by {
        reveal_with_fuel(pow2, 17);
    }
}

/// The delay before the next probe of an upstream whose `failure_streak` probes failed.
pub fn healthcheck_failure_backoff_delay(upstream_name: &str, failure_streak: u32, interval_ns: u128) -> (r: u128)
    ensures
        r == backoff_spec(utf8_bytes(upstream_name@), failure_streak, interval_ns),
        r <= min_ns(interval_ns, HEALTHCHECK_FAILURE_RETRY_MAX_DELAY_NS),
{
    let max_delay = if interval_ns <= HEALTHCHECK_FAILURE_RETRY_MAX_DELAY_NS {
        interval_ns
    } else {
        HEALTHCHECK_FAILURE_RETRY_MAX_DELAY_NS
    };
    let base = if HEALTHCHECK_FAILURE_RETRY_BASE_DELAY_NS <= max_delay {
        HEALTHCHECK_FAILURE_RETRY_BASE_DELAY_NS
    } else {
        max_delay
    };
    if base == 0 {
        return 0;
    }
    let exponent: u32 = if failure_streak == 0 {
        0
    } else if failure_streak - 1 <= 16 {
        failure_streak - 1
    } else {
        16
    };
    let mut multiplier: u128 = 1;
    let mut k: u32 = 0;
    while k < exponent
        invariant
            k <= exponent <= 16,
            multiplier == pow2(k as nat),
        decreases exponent - k,
    {
        proof {
            lemma_pow2_bound(k as nat);
        }
        multiplier = multiplier * 2;
        k = k + 1;
    }
    proof {
        lemma_pow2_bound(exponent as nat);
        assert(base * multiplier <= 1_000_000_000 * 65536) by (nonlinear_arith)
            requires
                base <= 1_000_000_000,
                multiplier <= 65536,
        ;
    }
    let scaled = base * multiplier;
    let delay = if scaled <= max_delay { scaled } else { max_delay };
    proof {
        assert(delay / NANOS_PER_MILLI <= 30_000);
    }
    let jittered = with_stable_jitter(delay, upstream_name, failure_streak);
    if jittered <= max_delay { jittered } else { max_delay }
}

/// The record kept for one upstream.
#[derive(Debug)]
pub struct HealthRecord {
    pub healthy: bool,
    pub degraded: bool,
    pub failure_streak: u32,
    pub recovery_streak: u32,
    pub consecutive_failures: u32,
    pub failure_count: u64,
    pub last_error: Option<String>,
    pub last_success_at: Option<String>,
    pub last_query_success_at: Option<u64>,
    pub latency_ms: Option<u128>,
}

/// A health record as values.
pub struct HealthRecordView {
    pub healthy: bool,
    pub degraded: bool,
    pub failure_streak: u32,
    pub recovery_streak: u32,
    pub consecutive_failures: u32,
    pub failure_count: u64,
    pub last_error: Option<Seq<char>>,
    pub last_success_at: Option<Seq<char>>,
    pub last_query_success_at: Option<u64>,
    pub latency_ms: Option<u128>,
}

/// The text inside an optional string.
pub open spec fn opt_text(s: Option<String>) -> Option<Seq<char>> {
    match s {
        Some(t) => Some(t@),
        None => None,
    }
}

impl View for HealthRecord {
    type V = HealthRecordView;

    open spec fn view(&self) -> HealthRecordView {
        HealthRecordView {
            healthy: self.healthy,
            degraded: self.degraded,
            failure_streak: self.failure_streak,
            recovery_streak: self.recovery_streak,
            consecutive_failures: self.consecutive_failures,
            failure_count: self.failure_count,
            last_error: opt_text(self.last_error),
            last_success_at: opt_text(self.last_success_at),
            last_query_success_at: self.last_query_success_at,
            latency_ms: self.latency_ms,
        }
    }
}

fn clone_text(s: &Option<String>) -> (r: Option<String>)
    ensures
        opt_text(r) == opt_text(*s),
{
    match s {
        Some(t) => Some(t.clone()),
        None => None,
    }
}

impl HealthRecord {
    /// A copy of the record.
    pub fn duplicate(&self) -> (r: HealthRecord)
        ensures
            r@ == self@,
    {
        HealthRecord {
            healthy: self.healthy,
            degraded: self.degraded,
            failure_streak: self.failure_streak,
            recovery_streak: self.recovery_streak,
            consecutive_failures: self.consecutive_failures,
            failure_count: self.failure_count,
            last_error: clone_text(&self.last_error),
            last_success_at: clone_text(&self.last_success_at),
            last_query_success_at: self.last_query_success_at,
            latency_ms: self.latency_ms,
        }
    }
}

/// The record of an upstream nobody has heard from yet: healthy, in the pool, no history.
pub open spec fn fresh_record() -> HealthRecordView {
    HealthRecordView {
        healthy: true,
        degraded: false,
        failure_streak: 0,
        recovery_streak: 0,
        consecutive_failures: 0,
        failure_count: 0,
        last_error: None,
        last_success_at: None,
        last_query_success_at: None,
        latency_ms: None,
    }
}

fn fresh() -> (r: HealthRecord)
    ensures
        r@ == fresh_record(),
{
    HealthRecord {
        healthy: true,
        degraded: false,
        failure_streak: 0,
        recovery_streak: 0,
        consecutive_failures: 0,
        failure_count: 0,
        last_error: None,
        last_success_at: None,
        last_query_success_at: None,
        latency_ms: None,
    }
}

/// A record after a success: the error is cleared, the time and latency noted (the
/// monotonic time only for a real query), the failure run ended; with health checks on,
/// a degraded upstream counts one more success and returns to the pool (and to healthy)
/// once `recovery_threshold` successes came in a row; with them off it is never degraded.
pub open spec fn success_step(
    r: HealthRecordView,
    enabled: bool,
    recovery_threshold: u32,
    latency_ms: u128,
    real_query: bool,
    now_ms: u64,
    now_text: Seq<char>,
) -> HealthRecordView {
    let base = HealthRecordView {
        last_error: None,
        last_success_at: Some(now_text),
        last_query_success_at: if real_query { Some(now_ms) } else { r.last_query_success_at },
        latency_ms: Some(latency_ms),
        consecutive_failures: 0,
        ..r
    };
    if enabled {
        if r.degraded {
            if r.recovery_streak + 1 >= recovery_threshold {
                HealthRecordView { healthy: true, degraded: false, failure_streak: 0, recovery_streak: 0, ..base }
            } else {
                HealthRecordView { failure_streak: 0, recovery_streak: (r.recovery_streak + 1) as u32, ..base }
            }
        } else {
            HealthRecordView { failure_streak: 0, recovery_streak: 0, ..base }
        }
    } else {
        HealthRecordView { degraded: false, ..base }
    }
}

/// A record after a failure: one more failure counted and the error kept, the run of
/// failures one longer (saturating); with health checks on the upstream leaves the pool
/// (degraded, recovery restarts), and a healthy one is shown unhealthy once
/// `failure_threshold` failures came in a row.
pub open spec fn failure_step(r: HealthRecordView, enabled: bool, failure_threshold: u32, err: Seq<char>) -> HealthRecordView {
    let base = HealthRecordView {
        failure_count: (r.failure_count + 1) as u64,
        last_error: Some(err),
        consecutive_failures: if r.consecutive_failures == u32::MAX {
            u32::MAX
        } else {
            (r.consecutive_failures + 1) as u32
        },
        ..r
    };
    if enabled {
        let off = HealthRecordView { degraded: true, recovery_streak: 0, ..base };
        if r.healthy {
            if r.failure_streak + 1 >= failure_threshold {
                HealthRecordView { healthy: false, failure_streak: 0, ..off }
            } else {
                HealthRecordView { failure_streak: (r.failure_streak + 1) as u32, ..off }
            }
        } else {
            off
        }
    } else {
        base
    }
}

/// A record put back into the pool at once, healthy, with every streak cleared.
pub open spec fn restore_step(r: HealthRecordView) -> HealthRecordView {
    HealthRecordView {
        healthy: true,
        degraded: false,
        failure_streak: 0,
        recovery_streak: 0,
        consecutive_failures: 0,
        ..r
    }
}

/// The health records of all upstreams.
#[derive(Debug)]
pub struct HealthMonitor {
    names: Vec<String>,
    records: Vec<HealthRecord>,
    enabled: bool,
    failure_threshold: u32,
    recovery_threshold: u32,
}

/// A monitor as values: the upstream names and their records, side by side.
pub struct MonitorView {
    pub enabled: bool,
    pub failure_threshold: u32,
    pub recovery_threshold: u32,
    pub names: Seq<Seq<char>>,
    pub records: Seq<HealthRecordView>,
}

/// The texts of a list of strings.
pub open spec fn texts(v: Seq<String>) -> Seq<Seq<char>> {
    v.map_values(|s: String| s@)
}

/// The values of a list of records.
pub open spec fn record_views(v: Seq<HealthRecord>) -> Seq<HealthRecordView> {
    v.map_values(|r: HealthRecord| r@)
}

impl View for HealthMonitor {
    type V = MonitorView;

    closed spec fn view(&self) -> MonitorView {
        MonitorView {
            enabled: self.enabled,
            failure_threshold: self.failure_threshold,
            recovery_threshold: self.recovery_threshold,
            names: texts(self.names@),
            records: record_views(self.records@),
        }
    }
}

/// No name occurs twice.
pub open spec fn distinct(names: Seq<Seq<char>>) -> bool {
    forall|i: int, j: int| 0 <= i < names.len() && 0 <= j < names.len() && i != j ==> names[i] != names[j]
}

/// What every monitor keeps: one record per name, names distinct, both thresholds at least
/// one, and every streak below its threshold.
pub open spec fn monitor_wf(v: MonitorView) -> bool {
    &&& v.names.len() == v.records.len()
    &&& distinct(v.names)
    &&& v.failure_threshold >= 1
    &&& v.recovery_threshold >= 1
    &&& forall|i: int| 0 <= i < v.records.len() ==> (#[trigger] v.records[i]).failure_streak
        < v.failure_threshold && v.records[i].recovery_streak < v.recovery_threshold
}

/// The record kept for `name`, if any.
pub open spec fn record_of(v: MonitorView, name: Seq<char>) -> Option<HealthRecordView> {
    if exists|i: int| 0 <= i < v.names.len() && v.names[i] == name {
        Some(v.records[choose|i: int| 0 <= i < v.names.len() && v.names[i] == name])
    } else {
        None
    }
}

/// A record kept within its thresholds.
pub open spec fn record_wf(r: HealthRecordView, failure_threshold: u32, recovery_threshold: u32) -> bool {
    r.failure_streak < failure_threshold && r.recovery_streak < recovery_threshold
}

proof fn lemma_record_at(v: MonitorView, name: Seq<char>, i: int)
    requires
        monitor_wf(v),
        0 <= i < v.names.len(),
        v.names[i] == name,
    ensures
        record_of(v, name) == Some(v.records[i]),
{
    let k = choose|k: int| 0 <= k < v.names.len() && v.names[k] == name;
    assert(v.names[k] == name);
}

/// The monitor after one record is replaced by `f` applied to it (or unchanged when there is
/// no record for the name), stated for every name.
pub open spec fn updated_at(old: MonitorView, new: MonitorView, name: Seq<char>, replacement: HealthRecordView) -> bool {
    &&& new.enabled == old.enabled
    &&& new.failure_threshold == old.failure_threshold
    &&& new.recovery_threshold == old.recovery_threshold
    &&& new.names == old.names
    &&& forall|k: Seq<char>| #[trigger] record_of(new, k) == if k == name && record_of(old, k) is Some {
        Some(replacement)
    } else {
        record_of(old, k)
    }
}

/// The elapsed time between a monotonic reading and `now_ms`, zero if it lies ahead.
pub open spec fn elapsed_ms(at: u64, now_ms: u64) -> int {
    if now_ms >= at { now_ms - at } else { 0 }
}

/// Whether a real query succeeded within `window_ns` of `now_ms`.
pub open spec fn recent_spec(r: HealthRecordView, window_ns: u128, now_ms: u64) -> bool {
    match r.last_query_success_at {
        Some(at) => elapsed_ms(at, now_ms) * NANOS_PER_MILLI < window_ns,
        None => false,
    }
}

/// Whether an upstream may take queries: any upstream when health checks are off, else one
/// whose record is healthy and not degraded.
pub open spec fn eligible_spec(v: MonitorView, name: Seq<char>) -> bool {
    if !v.enabled {
        true
    } else {
        match record_of(v, name) {
            Some(r) => r.healthy && !r.degraded,
            None => false,
        }
    }
}

/// The delay before the next probe of `name`: the interval for an unknown or undegraded
/// upstream, the short confirm delay for a degraded one that has begun to recover, else
/// the failure backoff.
pub open spec fn probe_delay_spec(v: MonitorView, name: Seq<char>, name_bytes: Seq<u8>, interval_ns: u128) -> u128 {
    match record_of(v, name) {
        None => interval_ns,
        Some(r) => if r.degraded && r.recovery_streak > 0 {
            HEALTHCHECK_RECOVERY_CONFIRM_DELAY_NS
        } else if r.degraded {
            backoff_spec(name_bytes, r.consecutive_failures, interval_ns)
        } else {
            interval_ns
        },
    }
}

impl HealthMonitor {
    /// Whether the monitor keeps its invariant.
    pub closed spec fn wf(&self) -> bool {
        &&& self.names@.len() == self.records@.len()
        &&& monitor_wf(self@)
    }

    /// A monitor with a fresh record for each name (a name given twice gets one record);
    /// thresholds below one count as one.
    pub fn new(enabled: bool, failure_threshold: u32, recovery_threshold: u32, names: Vec<String>) -> (m: HealthMonitor)
        ensures
            m.wf(),
            m@.enabled == enabled,
            m@.failure_threshold == if failure_threshold == 0 { 1 } else { failure_threshold },
            m@.recovery_threshold == if recovery_threshold == 0 { 1 } else { recovery_threshold },
            forall|k: Seq<char>| #[trigger] record_of(m@, k) == if texts(names@).contains(k) {
                Some(fresh_record())
            } else {
                None::<HealthRecordView>
            },
    {
        let mut m = HealthMonitor {
            names: Vec::new(),
            records: Vec::new(),
            enabled,
            failure_threshold: if failure_threshold == 0 { 1 } else { failure_threshold },
            recovery_threshold: if recovery_threshold == 0 { 1 } else { recovery_threshold },
        };
        let ghost input = texts(names@);
        let mut i: usize = 0;
        proof {
            assert(m@.names =~= Seq::<Seq<char>>::empty());
            assert(m@.records =~= Seq::<HealthRecordView>::empty());
        }
        while i < names.len()
            invariant
                input == texts(names@),
                i <= names@.len(),
                m.wf(),
                m@.enabled == enabled,
                m@.failure_threshold == if failure_threshold == 0 { 1 } else { failure_threshold },
                m@.recovery_threshold == if recovery_threshold == 0 { 1 } else { recovery_threshold },
                forall|j: int| 0 <= j < m@.records.len() ==> m@.records[j] == fresh_record(),
                forall|k: Seq<char>| m@.names.contains(k) <==> #[trigger] input.take(i as int).contains(k),
            decreases names@.len() - i,
        {
            let ghost before = m@;
            let found = self::position_of(&m.names, names[i].as_str());
            if found.is_none() {
                m.names.push(names[i].clone());
                m.records.push(fresh());
                proof {
                    assert(m@.names =~= before.names.push(names@[i as int]@));
                    assert(m@.records =~= before.records.push(fresh_record()));
                    assert(distinct(m@.names)) by {
                        assert forall|a: int, b: int|
                            0 <= a < m@.names.len() && 0 <= b < m@.names.len() && a != b implies m@.names[a]
                            != m@.names[b] by {
                            if a == before.names.len() as int && b < before.names.len() {
                                assert(before.names[b] != names@[i as int]@);
                            }
                            if b == before.names.len() as int && a < before.names.len() {
                                assert(before.names[a] != names@[i as int]@);
                            }
                        }
                    }
                }
            }
            proof {
                let t0 = input.take(i as int);
                let t1 = input.take(i + 1);
                assert(t1 =~= t0.push(names@[i as int]@));
                assert forall|k: Seq<char>| m@.names.contains(k) <==> #[trigger] t1.contains(k) by {
                    if t1.contains(k) {
                        let w = choose|w: int| 0 <= w < t1.len() && t1[w] == k;
                        if w < i {
                            assert(t0[w] == k);
                            assert(t0.contains(k));
                            assert(before.names.contains(k));
                            let z = choose|z: int| 0 <= z < before.names.len() && before.names[z] == k;
                            assert(m@.names[z] == k);
                        } else {
                            if found.is_none() {
                                assert(m@.names[before.names.len() as int] == k);
                            } else {
                                let z = found.unwrap() as int;
                                assert(m@.names[z] == k);
                            }
                        }
                    }
                    if m@.names.contains(k) {
                        let z = choose|z: int| 0 <= z < m@.names.len() && m@.names[z] == k;
                        if z < before.names.len() {
                            assert(before.names[z] == k);
                            assert(before.names.contains(k));
                            assert(t0.contains(k));
                            let w = choose|w: int| 0 <= w < t0.len() && t0[w] == k;
                            assert(t1[w] == k);
                        } else {
                            assert(t1[i as int] == k);
                        }
                    }
                }
            }
            i = i + 1;
        }
        proof {
            assert(input.take(names@.len() as int) =~= input);
            assert forall|k: Seq<char>| #[trigger] record_of(m@, k) == if input.contains(k) {
                Some(fresh_record())
            } else {
                None::<HealthRecordView>
            } by {
                if input.contains(k) {
                    assert(m@.names.contains(k));
                    let z = choose|z: int| 0 <= z < m@.names.len() && m@.names[z] == k;
                    lemma_record_at(m@, k, z);
                } else {
                    assert forall|z: int| 0 <= z < m@.names.len() implies m@.names[z] != k by {
                        if m@.names[z] == k {
                            assert(m@.names.contains(k));
                        }
                    }
                }
            }
        }
        m
    }

    /// Whether health checks are on.
    pub fn enabled(&self) -> (b: bool)
        ensures
            b == self@.enabled,
    {
        self.enabled
    }

    /// A copy of the record of `name`, if it has one.
    pub fn record(&self, name: &str) -> (r: Option<HealthRecord>)
        requires
            self.wf(),
        ensures
            match r {
                Some(rec) => record_of(self@, name@) == Some(rec@),
                None => record_of(self@, name@) is None,
            },
    {
        match position_of(&self.names, name) {
            Some(i) => {
                proof {
                    lemma_record_at(self@, name@, i as int);
                }
                Some(self.records[i].duplicate())
            },
            None => None,
        }
    }

    /// For each name, whether it may take queries now.
    pub fn query_eligibility(&self, names: &[String]) -> (r: Vec<bool>)
        requires
            self.wf(),
        ensures
            r@.len() == names@.len(),
            forall|i: int| 0 <= i < names@.len() ==> r@[i] == eligible_spec(self@, #[trigger] names@[i]@),
    {
        let mut r: Vec<bool> = Vec::new();
        let mut i: usize = 0;
        while i < names.len()
            invariant
                self.wf(),
                i <= names@.len(),
                r@.len() == i,
                forall|j: int| 0 <= j < i ==> r@[j] == eligible_spec(self@, #[trigger] names@[j]@),
            decreases names@.len() - i,
        {
            let ok = if !self.enabled {
                true
            } else {
                match position_of(&self.names, names[i].as_str()) {
                    Some(k) => {
                        proof {
                            lemma_record_at(self@, names@[i as int]@, k as int);
                        }
                        self.records[k].healthy && !self.records[k].degraded
                    },
                    None => false,
                }
            };
            r.push(ok);
            i = i + 1;
        }
        r
    }

    /// Whether a real query to `name` succeeded less than `window_ns` before `now_ms`.
    pub fn recent_query_success(&self, name: &str, window_ns: u128, now_ms: u64) -> (b: bool)
        requires
            self.wf(),
        ensures
            b == match record_of(self@, name@) {
                Some(r) => recent_spec(r, window_ns, now_ms),
                None => false,
            },
    {
        match position_of(&self.names, name) {
            Some(k) => {
                proof {
                    lemma_record_at(self@, name@, k as int);
                }
                recent(&self.records[k], window_ns, now_ms)
            },
            None => false,
        }
    }

    /// Whether `name` is in the pool and a real query to it succeeded less than `window_ns`
    /// before `now_ms`; such an upstream needs no probe.
    pub fn recent_healthy_query_success(&self, name: &str, window_ns: u128, now_ms: u64) -> (b: bool)
        requires
            self.wf(),
        ensures
            b == match record_of(self@, name@) {
                Some(r) => r.healthy && !r.degraded && recent_spec(r, window_ns, now_ms),
                None => false,
            },
    {
        match position_of(&self.names, name) {
            Some(k) => {
                proof {
                    lemma_record_at(self@, name@, k as int);
                }
                self.records[k].healthy && !self.records[k].degraded && recent(&self.records[k], window_ns, now_ms)
            },
            None => false,
        }
    }

    /// The delay before the next probe of `name`.
    pub fn probe_delay(&self, name: &str, interval_ns: u128) -> (d: u128)
        requires
            self.wf(),
        ensures
            d == probe_delay_spec(self@, name@, utf8_bytes(name@), interval_ns),
    {
        match position_of(&self.names, name) {
            None => interval_ns,
            Some(k) => {
                proof {
                    lemma_record_at(self@, name@, k as int);
                }
                let r = &self.records[k];
                if r.degraded && r.recovery_streak > 0 {
                    HEALTHCHECK_RECOVERY_CONFIRM_DELAY_NS
                } else if r.degraded {
                    healthcheck_failure_backoff_delay(name, r.consecutive_failures, interval_ns)
                } else {
                    interval_ns
                }
            },
        }
    }

    /// Notes a success of `name`: a real query (`real_query`) or a probe, answered in
    /// `latency_ms`, at monotonic time `now_ms` and wall-clock time `now_text`.
    pub fn record_success(
        &mut self,
        name: &str,
        latency_ms: u128,
        real_query: bool,
        now_ms: u64,
        now_text: String,
    )
        requires
            old(self).wf(),
        ensures
            final(self).wf(),
            updated_at(
                old(self)@,
                final(self)@,
                name@,
                success_step(
                    record_of(old(self)@, name@)->Some_0,
                    old(self)@.enabled,
                    old(self)@.recovery_threshold,
                    latency_ms,
                    real_query,
                    now_ms,
                    now_text@,
                ),
            ),
    {
        let k = match position_of(&self.names, name) {
            Some(k) => k,
            None => {
                proof {
                    assert forall|z: int| 0 <= z < self@.names.len() implies self@.names[z] != name@ by {}
                }
                return ;
            },
        };
        proof {
            lemma_record_at(self@, name@, k as int);
        }
        let ghost before = self@;
        let old_rec = self.records[k].duplicate();
        let mut rec = self.records[k].duplicate();
        rec.last_error = None;
        rec.last_success_at = Some(now_text);
        if real_query {
            rec.last_query_success_at = Some(now_ms);
        }
        rec.latency_ms = Some(latency_ms);
        rec.consecutive_failures = 0;
        if self.enabled {
            rec.failure_streak = 0;
            if rec.degraded {
                rec.recovery_streak = rec.recovery_streak + 1;
                if rec.recovery_streak >= self.recovery_threshold {
                    rec.healthy = true;
                    rec.degraded = false;
                    rec.recovery_streak = 0;
                }
            } else {
                rec.recovery_streak = 0;
            }
        } else {
            rec.degraded = false;
        }
        let ghost new_rec = rec@;
        assert(new_rec == success_step(old_rec@, before.enabled, before.recovery_threshold, latency_ms, real_query, now_ms, now_text@));
        self.records.set(k, rec);
        proof {
            assert(self@.records =~= before.records.update(k as int, new_rec));
            self.lemma_replace(before, name@, k as int, new_rec);
        }
    }

    /// Notes a failure of `name` with the error text `err`.
    pub fn record_failure(&mut self, name: &str, kind: FailureKind, err: String)
        requires
            old(self).wf(),
            record_of(old(self)@, name@) matches Some(r) ==> r.failure_count < u64::MAX,
        ensures
            final(self).wf(),
            updated_at(
                old(self)@,
                final(self)@,
                name@,
                failure_step(
                    record_of(old(self)@, name@)->Some_0,
                    old(self)@.enabled,
                    old(self)@.failure_threshold,
                    err@,
                ),
            ),
    {
        let k = match position_of(&self.names, name) {
            Some(k) => k,
            None => {
                return ;
            },
        };
        proof {
            lemma_record_at(self@, name@, k as int);
        }
        let ghost before = self@;
        let old_rec = self.records[k].duplicate();
        let mut rec = self.records[k].duplicate();
        rec.failure_count = rec.failure_count + 1;
        rec.last_error = Some(err);
        rec.consecutive_failures = rec.consecutive_failures.saturating_add(1);
        if self.enabled {
            rec.degraded = true;
            rec.recovery_streak = 0;
            if rec.healthy {
                rec.failure_streak = rec.failure_streak + 1;
                if rec.failure_streak >= self.failure_threshold {
                    rec.healthy = false;
                    rec.failure_streak = 0;
                }
            }
        }
        let ghost new_rec = rec@;
        assert(new_rec == failure_step(old_rec@, before.enabled, before.failure_threshold, err@));
        self.records.set(k, rec);
        proof {
            assert(self@.records =~= before.records.update(k as int, new_rec));
            self.lemma_replace(before, name@, k as int, new_rec);
        }
    }

    /// Returns `name` to the pool at once, as healthy, with all streaks cleared.
    pub fn restore(&mut self, name: &str)
        requires
            old(self).wf(),
        ensures
            final(self).wf(),
            updated_at(old(self)@, final(self)@, name@, restore_step(record_of(old(self)@, name@)->Some_0)),
    {
        let k = match position_of(&self.names, name) {
            Some(k) => k,
            None => {
                return ;
            },
        };
        proof {
            lemma_record_at(self@, name@, k as int);
        }
        let ghost before = self@;
        let mut rec = self.records[k].duplicate();
        rec.healthy = true;
        rec.degraded = false;
        rec.failure_streak = 0;
        rec.recovery_streak = 0;
        rec.consecutive_failures = 0;
        let ghost new_rec = rec@;
        self.records.set(k, rec);
        proof {
            assert(self@.records =~= before.records.update(k as int, new_rec));
            self.lemma_replace(before, name@, k as int, new_rec);
        }
    }

    /// Notes a successful real query of `name`, answered in `latency_ms`, at monotonic time
    /// `now_ms`; the wall-clock time comes from the system clock.
    pub fn record_query_success(&mut self, name: &str, latency_ms: u128, now_ms: u64)
        requires
            old(self).wf(),
        ensures
            final(self).wf(),
            exists|t: Seq<char>|
                updated_at(
                    old(self)@,
                    final(self)@,
                    name@,
                    #[trigger] success_step(
                        record_of(old(self)@, name@)->Some_0,
                        old(self)@.enabled,
                        old(self)@.recovery_threshold,
                        latency_ms,
                        true,
                        now_ms,
                        t,
                    ),
                ),
    {
        let now_text = utc_now_rfc3339();
        let ghost t = now_text@;
        self.record_success(name, latency_ms, true, now_ms, now_text);
        assert(updated_at(old(self)@, self@, name@, success_step(record_of(old(self)@, name@)->Some_0, old(self)@.enabled, old(self)@.recovery_threshold, latency_ms, true, now_ms, t)));
    }

    /// Notes a negative answer (no records, or NXDOMAIN) from `name`: the upstream is
    /// reachable, so this counts as a successful real query.
    pub fn record_negative_response(&mut self, name: &str, latency_ms: u128, now_ms: u64)
        requires
            old(self).wf(),
        ensures
            final(self).wf(),
            exists|t: Seq<char>|
                updated_at(
                    old(self)@,
                    final(self)@,
                    name@,
                    #[trigger] success_step(
                        record_of(old(self)@, name@)->Some_0,
                        old(self)@.enabled,
                        old(self)@.recovery_threshold,
                        latency_ms,
                        true,
                        now_ms,
                        t,
                    ),
                ),
    {
        self.record_query_success(name, latency_ms, now_ms);
    }

    /// Notes a successful probe of `name`, answered in `latency_ms`; the wall-clock time
    /// comes from the system clock, and the time of the last real query is kept.
    pub fn record_probe_success(&mut self, name: &str, latency_ms: u128)
        requires
            old(self).wf(),
        ensures
            final(self).wf(),
            exists|t: Seq<char>|
                updated_at(
                    old(self)@,
                    final(self)@,
                    name@,
                    #[trigger] success_step(
                        record_of(old(self)@, name@)->Some_0,
                        old(self)@.enabled,
                        old(self)@.recovery_threshold,
                        latency_ms,
                        false,
                        0,
                        t,
                    ),
                ),
    {
        let now_text = utc_now_rfc3339();
        let ghost t = now_text@;
        self.record_success(name, latency_ms, false, 0, now_text);
        assert(updated_at(old(self)@, self@, name@, success_step(record_of(old(self)@, name@)->Some_0, old(self)@.enabled, old(self)@.recovery_threshold, latency_ms, false, 0, t)));
    }

    /// Notes a failed probe of `name` with the error text `err`.
    pub fn record_probe_failure(&mut self, name: &str, err: String)
        requires
            old(self).wf(),
            record_of(old(self)@, name@) matches Some(r) ==> r.failure_count < u64::MAX,
        ensures
            final(self).wf(),
            updated_at(
                old(self)@,
                final(self)@,
                name@,
                failure_step(
                    record_of(old(self)@, name@)->Some_0,
                    old(self)@.enabled,
                    old(self)@.failure_threshold,
                    err@,
                ),
            ),
    {
        self.record_failure(name, FailureKind::Transport, err);
    }

    proof fn lemma_replace(&self, before: MonitorView, name: Seq<char>, k: int, r: HealthRecordView)
        requires
            monitor_wf(before),
            record_wf(r, before.failure_threshold, before.recovery_threshold),
            0 <= k < before.names.len(),
            before.names[k] == name,
            self.names@.len() == self.records@.len(),
            self@.enabled == before.enabled,
            self@.failure_threshold == before.failure_threshold,
            self@.recovery_threshold == before.recovery_threshold,
            self@.names == before.names,
            self@.records == before.records.update(k, r),
        ensures
            self.wf(),
            updated_at(before, self@, name, r),
    {
        assert(monitor_wf(self@));
        lemma_record_at(before, name, k);
        lemma_record_at(self@, name, k);
        assert forall|q: Seq<char>| #[trigger] record_of(self@, q) == if q == name && record_of(before, q) is Some {
            Some(r)
        } else {
            record_of(before, q)
        } by {
            if q != name {
                if exists|i: int| 0 <= i < before.names.len() && before.names[i] == q {
                    let i = choose|i: int| 0 <= i < before.names.len() && before.names[i] == q;
                    lemma_record_at(before, q, i);
                    lemma_record_at(self@, q, i);
                }
            }
        }
    }

    /// A copy of the monitor's state.
    pub fn snapshot(&self) -> (s: HealthSnapshot)
        requires
            self.wf(),
        ensures
            s.wf(),
            s@ == self@,
    {
        let mut names: Vec<String> = Vec::new();
        let mut records: Vec<HealthRecord> = Vec::new();
        let mut i: usize = 0;
        while i < self.names.len()
            invariant
                self.wf(),
                i <= self.names@.len(),
                texts(names@) == texts(self.names@).take(i as int),
                record_views(records@) == record_views(self.records@).take(i as int),
            decreases self.names@.len() - i,
        {
            let ghost n0 = texts(names@);
            let ghost r0 = record_views(records@);
            names.push(self.names[i].clone());
            records.push(self.records[i].duplicate());
            proof {
                assert(texts(names@) =~= n0.push(self.names@[i as int]@));
                assert(texts(self.names@).take(i + 1) =~= texts(self.names@).take(i as int).push(self.names@[i as int]@));
                assert(record_views(records@) =~= r0.push(self.records@[i as int]@));
                assert(record_views(self.records@).take(i + 1) =~= record_views(self.records@).take(i as int).push(
                    self.records@[i as int]@,
                ));
            }
            i = i + 1;
        }
        proof {
            assert(texts(self.names@).take(i as int) =~= texts(self.names@));
            assert(record_views(self.records@).take(i as int) =~= record_views(self.records@));
        }
        HealthSnapshot {
            names,
            records,
            enabled: self.enabled,
            failure_threshold: self.failure_threshold,
            recovery_threshold: self.recovery_threshold,
        }
    }
}

/// The current wall-clock time as RFC 3339 text, from `chrono::Utc::now()` formatted by
/// `DateTime::to_rfc3339`. The text depends on the system clock, so nothing is claimed of it.
#[verifier::external_body]
pub(crate) fn utc_now_rfc3339() -> (s: String) {
    chrono::Utc::now().to_rfc3339()
}

fn recent(r: &HealthRecord, window_ns: u128, now_ms: u64) -> (b: bool)
    ensures
        b == recent_spec(r@, window_ns, now_ms),
{
    match r.last_query_success_at {
        Some(at) => {
            let elapsed: u64 = if now_ms >= at { now_ms - at } else { 0 };
            (elapsed as u128) * NANOS_PER_MILLI < window_ns
        },
        None => false,
    }
}

/// The position of `name` in a list of names.
fn position_of(names: &Vec<String>, name: &str) -> (r: Option<usize>)
    ensures
        match r {
            Some(i) => i < names@.len() && texts(names@)[i as int] == name@,
            None => forall|i: int| 0 <= i < names@.len() ==> texts(names@)[i] != name@,
        },
{
    let mut i: usize = 0;
    while i < names.len()
        invariant
            i <= names@.len(),
            forall|j: int| 0 <= j < i ==> texts(names@)[j] != name@,
        decreases names@.len() - i,
    {
        if crate::text::str_eq(names[i].as_str(), name) {
            return Some(i);
        }
        i = i + 1;
    }
    None
}

/// A copy of the monitor taken at one moment, read by the status views.
#[derive(Debug)]
pub struct HealthSnapshot {
    names: Vec<String>,
    records: Vec<HealthRecord>,
    enabled: bool,
    failure_threshold: u32,
    recovery_threshold: u32,
}

impl View for HealthSnapshot {
    type V = MonitorView;

    closed spec fn view(&self) -> MonitorView {
        MonitorView {
            enabled: self.enabled,
            failure_threshold: self.failure_threshold,
            recovery_threshold: self.recovery_threshold,
            names: texts(self.names@),
            records: record_views(self.records@),
        }
    }
}

/// The counters shown for one upstream.
#[derive(Debug)]
pub struct UpstreamDiagnostics {
    pub failure_count: u64,
    pub last_error: Option<String>,
    pub last_success_at: Option<String>,
    pub latency_ms: Option<u128>,
}

impl HealthSnapshot {
    /// Whether the snapshot keeps the monitor's invariant.
    pub closed spec fn wf(&self) -> bool {
        &&& self.names@.len() == self.records@.len()
        &&& monitor_wf(self@)
    }

    /// Whether `name` is displayed healthy: always with health checks off, else when its
    /// record says so (an unknown name is not healthy).
    pub fn healthy(&self, name: &str) -> (b: bool)
        requires
            self.wf(),
        ensures
            b == (!self@.enabled || (record_of(self@, name@) matches Some(r) && r.healthy)),
    {
        if !self.enabled {
            return true;
        }
        match position_of(&self.names, name) {
            Some(k) => {
                proof {
                    lemma_record_at(self@, name@, k as int);
                }
                self.records[k].healthy
            },
            None => false,
        }
    }

    /// The counters of `name`, all empty for an unknown name.
    pub fn diagnostics(&self, name: &str) -> (d: UpstreamDiagnostics)
        requires
            self.wf(),
        ensures
            match record_of(self@, name@) {
                Some(r) => d.failure_count == r.failure_count && opt_text(d.last_error) == r.last_error
                    && opt_text(d.last_success_at) == r.last_success_at && d.latency_ms == r.latency_ms,
                None => d.failure_count == 0 && d.last_error is None && d.last_success_at is None
                    && d.latency_ms is None,
            },
    {
        match position_of(&self.names, name) {
            Some(k) => {
                proof {
                    lemma_record_at(self@, name@, k as int);
                }
                let r = &self.records[k];
                UpstreamDiagnostics {
                    failure_count: r.failure_count,
                    last_error: clone_text(&r.last_error),
                    last_success_at: clone_text(&r.last_success_at),
                    latency_ms: r.latency_ms,
                }
            },
            None => UpstreamDiagnostics {
                failure_count: 0,
                last_error: None,
                last_success_at: None,
                latency_ms: None,
            },
        }
    }
}

/// `n` failures in a row, each with the error text `err`, with health checks on.
pub open spec fn failures_in_a_row(r: HealthRecordView, failure_threshold: u32, err: Seq<char>, n: nat) -> HealthRecordView
    decreases n,
{
    if n == 0 {
        r
    } else {
        failure_step(failures_in_a_row(r, failure_threshold, err, (n - 1) as nat), true, failure_threshold, err)
    }
}

/// `n` probe successes in a row, with health checks on.
pub open spec fn successes_in_a_row(
    r: HealthRecordView,
    recovery_threshold: u32,
    latency_ms: u128,
    now_ms: u64,
    now_text: Seq<char>,
    n: nat,
) -> HealthRecordView
    decreases n,
{
    if n == 0 {
        r
    } else {
        success_step(
            successes_in_a_row(r, recovery_threshold, latency_ms, now_ms, now_text, (n - 1) as nat),
            true,
            recovery_threshold,
            latency_ms,
            false,
            now_ms,
            now_text,
        )
    }
}

/// With health checks on, one failure takes an upstream out of the query pool at once,
/// whatever its record said before.
pub proof fn law_failure_leaves_pool(r: HealthRecordView, failure_threshold: u32, err: Seq<char>)
    requires
        r.failure_count < u64::MAX,
    ensures
        failure_step(r, true, failure_threshold, err).degraded,
        !(failure_step(r, true, failure_threshold, err).healthy && !failure_step(r, true, failure_threshold, err).degraded),
{
}

/// Starting from a healthy record with no failure run, `n` failures in a row take the
/// upstream out of the query pool at the first of them; it is displayed healthy exactly
/// while fewer than `failure_threshold` of them came, and each failure is counted and
/// its error kept.
pub proof fn law_unhealthy_after_threshold_failures(r: HealthRecordView, failure_threshold: u32, err: Seq<char>, n: nat)
    requires
        r.healthy,
        r.failure_streak == 0,
        failure_threshold >= 1,
        r.failure_count + n <= u64::MAX,
    ensures
        n > 0 ==> failures_in_a_row(r, failure_threshold, err, n).degraded,
        n > 0 ==> failures_in_a_row(r, failure_threshold, err, n).last_error == Some(err),
        failures_in_a_row(r, failure_threshold, err, n).healthy == (n < failure_threshold),
        n < failure_threshold ==> failures_in_a_row(r, failure_threshold, err, n).failure_streak == n,
        failures_in_a_row(r, failure_threshold, err, n).failure_count == r.failure_count + n,
    decreases n,
{
    if n > 0 {
        law_unhealthy_after_threshold_failures(r, failure_threshold, err, (n - 1) as nat);
    }
}

/// A degraded upstream with no recovery run stays out of the pool for fewer than
/// `recovery_threshold` successes in a row and is in it, displayed healthy, from the
/// `recovery_threshold`-th of them on.
pub proof fn law_recovery_after_threshold_successes(
    r: HealthRecordView,
    recovery_threshold: u32,
    latency_ms: u128,
    now_ms: u64,
    now_text: Seq<char>,
    n: nat,
)
    requires
        r.degraded,
        r.recovery_streak == 0,
        recovery_threshold >= 1,
    ensures
        successes_in_a_row(r, recovery_threshold, latency_ms, now_ms, now_text, n).degraded == (n < recovery_threshold),
        n < recovery_threshold ==> successes_in_a_row(r, recovery_threshold, latency_ms, now_ms, now_text, n).recovery_streak == n,
        n >= recovery_threshold ==> {
            let f = successes_in_a_row(r, recovery_threshold, latency_ms, now_ms, now_text, n);
            f.healthy && f.recovery_streak == 0 && f.failure_streak == 0
        },
    decreases n,
{
    if n > 0 {
        law_recovery_after_threshold_successes(r, recovery_threshold, latency_ms, now_ms, now_text, (n - 1) as nat);
    }
}

/// Whether the monitors `vs` run through failures of `name`: each is the one before after
/// `record_failure` with the error text `errs[j]`.
pub open spec fn failure_run(vs: Seq<MonitorView>, name: Seq<char>, errs: Seq<Seq<char>>) -> bool {
    &&& vs.len() == errs.len() + 1
    &&& forall|j: int|
        #![trigger errs[j]]
        0 <= j < errs.len() ==> updated_at(
            vs[j],
            vs[j + 1],
            name,
            failure_step(record_of(vs[j], name)->Some_0, vs[j].enabled, vs[j].failure_threshold, errs[j]),
        )
}

/// Whether the monitors `vs` run through successes of `name`: each is the one before after
/// a successful probe, query or negative answer (`queried[j]` for a query), with latency
/// `latency[j]` at `now[j]`.
pub open spec fn success_run(
    vs: Seq<MonitorView>,
    name: Seq<char>,
    latency: Seq<u128>,
    queried: Seq<bool>,
    now: Seq<u64>,
) -> bool {
    &&& vs.len() == latency.len() + 1
    &&& queried.len() == latency.len()
    &&& now.len() == latency.len()
    &&& forall|j: int|
        #![trigger latency[j]]
        0 <= j < latency.len() ==> exists|t: Seq<char>|
            updated_at(
                vs[j],
                vs[j + 1],
                name,
                #[trigger] success_step(
                    record_of(vs[j], name)->Some_0,
                    vs[j].enabled,
                    vs[j].recovery_threshold,
                    latency[j],
                    queried[j],
                    now[j],
                    t,
                ),
            )
}

proof fn lemma_failure_run(vs: Seq<MonitorView>, name: Seq<char>, errs: Seq<Seq<char>>, i: int)
    requires
        failure_run(vs, name, errs),
        0 <= i <= errs.len(),
        vs[0].enabled,
        vs[0].failure_threshold >= 1,
        record_of(vs[0], name) matches Some(r0) && r0.healthy && r0.failure_streak == 0 && r0.failure_count
            + errs.len() <= u64::MAX,
    ensures
        vs[i].enabled,
        vs[i].failure_threshold == vs[0].failure_threshold,
        record_of(vs[i], name) is Some,
        ({
            let r0 = record_of(vs[0], name)->Some_0;
            let r = record_of(vs[i], name)->Some_0;
            &&& r.failure_count == r0.failure_count + i
            &&& r.healthy == (i < vs[0].failure_threshold)
            &&& i < vs[0].failure_threshold ==> r.failure_streak == i
            &&& i > 0 ==> r.degraded && r.last_error == Some(errs[i - 1])
        }),
        forall|k: Seq<char>| k != name ==> #[trigger] record_of(vs[i], k) == record_of(vs[0], k),
    decreases i,
{
    if i > 0 {
        lemma_failure_run(vs, name, errs, i - 1);
        let e = errs[i - 1];
        assert(updated_at(
            vs[i - 1],
            vs[i],
            name,
            failure_step(record_of(vs[i - 1], name)->Some_0, vs[i - 1].enabled, vs[i - 1].failure_threshold, e),
        ));
        assert(record_of(vs[i], name) == Some(
            failure_step(record_of(vs[i - 1], name)->Some_0, true, vs[0].failure_threshold, e),
        ));
        assert forall|k: Seq<char>| k != name implies #[trigger] record_of(vs[i], k) == record_of(vs[0], k) by {
            assert(record_of(vs[i], k) == record_of(vs[i - 1], k));
        }
    }
}

/// `k` failures of a healthy upstream in a row, noted on a monitor with health checks on:
/// it leaves the query pool at the first, is displayed healthy exactly while fewer than
/// the failure threshold came, has each failure counted and the last error kept; no other
/// upstream's record changes.
pub proof fn law_monitor_failures_in_a_row(vs: Seq<MonitorView>, name: Seq<char>, errs: Seq<Seq<char>>)
    requires
        failure_run(vs, name, errs),
        errs.len() >= 1,
        vs[0].enabled,
        vs[0].failure_threshold >= 1,
        record_of(vs[0], name) matches Some(r0) && r0.healthy && r0.failure_streak == 0 && r0.failure_count
            + errs.len() <= u64::MAX,
    ensures
        ({
            let k = errs.len() as int;
            let r0 = record_of(vs[0], name)->Some_0;
            let v = vs[k];
            &&& record_of(v, name) matches Some(r) && r.healthy == (k < vs[0].failure_threshold)
                && r.failure_count == r0.failure_count + k && r.last_error == Some(errs[k - 1])
            &&& !eligible_spec(v, name)
            &&& forall|o: Seq<char>| o != name ==> #[trigger] record_of(v, o) == record_of(vs[0], o)
        }),
{
    lemma_failure_run(vs, name, errs, errs.len() as int);
}

proof fn lemma_success_run(
    vs: Seq<MonitorView>,
    name: Seq<char>,
    latency: Seq<u128>,
    queried: Seq<bool>,
    now: Seq<u64>,
    i: int,
)
    requires
        success_run(vs, name, latency, queried, now),
        0 <= i <= latency.len(),
        vs[0].enabled,
        vs[0].recovery_threshold >= 1,
        record_of(vs[0], name) matches Some(r0) && r0.degraded && r0.recovery_streak == 0,
    ensures
        vs[i].enabled,
        vs[i].recovery_threshold == vs[0].recovery_threshold,
        record_of(vs[i], name) is Some,
        ({
            let r = record_of(vs[i], name)->Some_0;
            &&& r.degraded == (i < vs[0].recovery_threshold)
            &&& i < vs[0].recovery_threshold ==> r.recovery_streak == i
            &&& i >= vs[0].recovery_threshold ==> r.healthy
        }),
        forall|k: Seq<char>| k != name ==> #[trigger] record_of(vs[i], k) == record_of(vs[0], k),
    decreases i,
{
    if i > 0 {
        lemma_success_run(vs, name, latency, queried, now, i - 1);
        let l = latency[i - 1];
        let t = choose|t: Seq<char>|
            updated_at(
                vs[i - 1],
                vs[i],
                name,
                #[trigger] success_step(
                    record_of(vs[i - 1], name)->Some_0,
                    vs[i - 1].enabled,
                    vs[i - 1].recovery_threshold,
                    l,
                    queried[i - 1],
                    now[i - 1],
                    t,
                ),
            );
        assert(record_of(vs[i], name) == Some(
            success_step(record_of(vs[i - 1], name)->Some_0, true, vs[0].recovery_threshold, l, queried[i - 1], now[i - 1], t),
        ));
        assert forall|k: Seq<char>| k != name implies #[trigger] record_of(vs[i], k) == record_of(vs[0], k) by {
            assert(record_of(vs[i], k) == record_of(vs[i - 1], k));
        }
    }
}

/// `m` successes in a row of an upstream out of the query pool with no recovery run (as a
/// failure leaves it), noted on a monitor with health checks on: it takes queries again,
/// displayed healthy, exactly from the recovery threshold's success on; no other
/// upstream's record changes.
pub proof fn law_monitor_successes_in_a_row(
    vs: Seq<MonitorView>,
    name: Seq<char>,
    latency: Seq<u128>,
    queried: Seq<bool>,
    now: Seq<u64>,
)
    requires
        success_run(vs, name, latency, queried, now),
        vs[0].enabled,
        vs[0].recovery_threshold >= 1,
        record_of(vs[0], name) matches Some(r0) && r0.degraded && r0.recovery_streak == 0,
    ensures
        ({
            let m = latency.len() as int;
            let v = vs[m];
            &&& eligible_spec(v, name) == (m >= vs[0].recovery_threshold)
            &&& m >= vs[0].recovery_threshold ==> (record_of(v, name) matches Some(r) && r.healthy)
            &&& forall|o: Seq<char>| o != name ==> #[trigger] record_of(v, o) == record_of(vs[0], o)
        }),
{
    lemma_success_run(vs, name, latency, queried, now, latency.len() as int);
}

/// A restored upstream is in the query pool and displayed healthy.
pub proof fn law_restore_returns_to_pool(v: MonitorView, w: MonitorView, name: Seq<char>)
    requires
        record_of(v, name) is Some,
        updated_at(v, w, name, restore_step(record_of(v, name)->Some_0)),
    ensures
        eligible_spec(w, name),
        record_of(w, name) matches Some(r) && r.healthy,
{
    assert(record_of(w, name) == Some(restore_step(record_of(v, name)->Some_0)));
}

/// With health checks off every name may take queries, known or not.
pub proof fn law_disabled_all_eligible(v: MonitorView, name: Seq<char>)
    requires
        !v.enabled,
    ensures
        eligible_spec(v, name),
{
}

/// A probe success leaves the time of the last real query success as it was; a real query
/// success sets it to now.
pub proof fn law_probe_success_not_a_query(
    r: HealthRecordView,
    enabled: bool,
    recovery_threshold: u32,
    latency_ms: u128,
    now_ms: u64,
    now_text: Seq<char>,
)
    ensures
        success_step(r, enabled, recovery_threshold, latency_ms, false, now_ms, now_text).last_query_success_at
            == r.last_query_success_at,
        success_step(r, enabled, recovery_threshold, latency_ms, true, now_ms, now_text).last_query_success_at
            == Some(now_ms),
{
}

/// The failure backoff never exceeds the probe interval nor 30 s.
pub proof fn law_backoff_capped(name: Seq<u8>, failure_streak: u32, interval_ns: u128)
    ensures
        backoff_spec(name, failure_streak, interval_ns) <= interval_ns,
        backoff_spec(name, failure_streak, interval_ns) <= HEALTHCHECK_FAILURE_RETRY_MAX_DELAY_NS,
{
}

/// Jitter moves a delay of at least 5 ms by at most a fifth of it (in whole milliseconds)
/// either way.
pub proof fn law_jitter_within_a_fifth(delay_ns: u128, name: Seq<u8>, failure_streak: u32)
    requires
        delay_ns / NANOS_PER_MILLI / 5 > 0,
        delay_ns / NANOS_PER_MILLI <= u64::MAX / 2,
    ensures
        ({
            let ms = delay_ns / NANOS_PER_MILLI;
            let w = ms / 5;
            let r = with_stable_jitter_spec(delay_ns, name, failure_streak);
            (ms - w) * NANOS_PER_MILLI <= r <= (ms + w) * NANOS_PER_MILLI
        }),
{
    let ms = delay_ns / NANOS_PER_MILLI;
    let w = ms / 5;
    let span = jitter_span(ms);
    assert(span == 2 * w + 1);
    let offset = stable_hash(name, failure_streak as u64) % span;
    assert(offset < span);
    let j = ms + offset - w;
    assert(ms - w <= j <= ms + w);
    assert(j <= u64::MAX);
    assert((ms - w) * NANOS_PER_MILLI <= j * NANOS_PER_MILLI <= (ms + w) * NANOS_PER_MILLI) by (nonlinear_arith)
        requires
            ms - w <= j <= ms + w,
            0 <= ms - w,
    ;
}

} // verus!
