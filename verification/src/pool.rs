//! The connection state of one upstream client: cold until connected, ready once a
//! connection works, degraded after `failure_threshold` transport failures in a row, and
//! connecting (or recovering, from degraded) while a connection is being made. Only a
//! connecting upstream is passed over by queries.
use vstd::prelude::*;

verus! {

/// The connection state of an upstream client.
#[derive(Clone, Copy, Debug, PartialEq, Eq, Structural)]
pub enum UpstreamPoolState {
    Ready,
    Cold,
    Connecting,
    Degraded,
    Recovering,
}

/// The state a stored byte stands for (unknown bytes read as cold).
pub open spec fn state_of_byte(value: u8) -> UpstreamPoolState {
    if value == 0 {
        UpstreamPoolState::Ready
    } else if value == 2 {
        UpstreamPoolState::Connecting
    } else if value == 3 {
        UpstreamPoolState::Degraded
    } else if value == 4 {
        UpstreamPoolState::Recovering
    } else {
        UpstreamPoolState::Cold
    }
}

/// The byte a state is stored as.
pub open spec fn byte_of_state(s: UpstreamPoolState) -> u8 {
    match s {
        UpstreamPoolState::Ready => 0,
        UpstreamPoolState::Cold => 1,
        UpstreamPoolState::Connecting => 2,
        UpstreamPoolState::Degraded => 3,
        UpstreamPoolState::Recovering => 4,
    }
}

impl UpstreamPoolState {
    /// Reads a stored state.
    pub fn from_u8(value: u8) -> (s: UpstreamPoolState)
        ensures
            s == state_of_byte(value),
    {
        match value {
            0 => UpstreamPoolState::Ready,
            2 => UpstreamPoolState::Connecting,
            3 => UpstreamPoolState::Degraded,
            4 => UpstreamPoolState::Recovering,
            _ => UpstreamPoolState::Cold,
        }
    }

    /// The byte the state is stored as.
    pub fn to_u8(self) -> (b: u8)
        ensures
            b == byte_of_state(self),
    {
        match self {
            UpstreamPoolState::Ready => 0,
            UpstreamPoolState::Cold => 1,
            UpstreamPoolState::Connecting => 2,
            UpstreamPoolState::Degraded => 3,
            UpstreamPoolState::Recovering => 4,
        }
    }
}

/// Every state survives being stored and read back.
pub proof fn law_state_byte_round_trip(s: UpstreamPoolState)
    ensures
        state_of_byte(byte_of_state(s)) == s,
{
}

/// The connection bookkeeping of one upstream client.
#[derive(Clone, Copy, Debug)]
pub struct PoolStatus {
    pub state: UpstreamPoolState,
    pub transport_failure_streak: u32,
    pub failure_threshold: u32,
}

/// The state a connection attempt moves to: recovering from degraded, else connecting.
pub open spec fn connecting_state(s: UpstreamPoolState) -> UpstreamPoolState {
    if s == UpstreamPoolState::Degraded {
        UpstreamPoolState::Recovering
    } else {
        UpstreamPoolState::Connecting
    }
}

/// The bookkeeping after one transport failure: the run of failures one longer, degraded
/// once it reaches the threshold, else cold.
pub open spec fn after_transport_failure(p: PoolStatus) -> PoolStatus {
    PoolStatus {
        state: if p.transport_failure_streak + 1 >= p.failure_threshold {
            UpstreamPoolState::Degraded
        } else {
            UpstreamPoolState::Cold
        },
        transport_failure_streak: (p.transport_failure_streak + 1) as u32,
        failure_threshold: p.failure_threshold,
    }
}

/// The bookkeeping once a connection works: ready, with no failure run.
pub open spec fn after_ready(p: PoolStatus) -> PoolStatus {
    PoolStatus { state: UpstreamPoolState::Ready, transport_failure_streak: 0, failure_threshold: p.failure_threshold }
}

/// The bookkeeping after `k` transport failures in a row.
pub open spec fn after_transport_failures(p: PoolStatus, k: nat) -> PoolStatus
    decreases k,
{
    if k == 0 {
        p
    } else {
        after_transport_failure(after_transport_failures(p, (k - 1) as nat))
    }
}

/// A run of failures from a fresh or ready client: after `k` transport failures in a row
/// the streak is `k`, the client is degraded once `k` reaches the threshold and cold
/// before, so queries never pass over it; a connection that then works makes it ready
/// with no streak.
pub proof fn law_transport_failures_degrade_at_threshold(p: PoolStatus, k: nat)
    requires
        p.transport_failure_streak == 0,
        1 <= k < u32::MAX,
    ensures
        after_transport_failures(p, k).transport_failure_streak == k,
        after_transport_failures(p, k).failure_threshold == p.failure_threshold,
        after_transport_failures(p, k).state == if k >= p.failure_threshold {
            UpstreamPoolState::Degraded
        } else {
            UpstreamPoolState::Cold
        },
        after_transport_failures(p, k).state != UpstreamPoolState::Connecting,
        after_ready(after_transport_failures(p, k)) == (PoolStatus {
            state: UpstreamPoolState::Ready,
            transport_failure_streak: 0,
            failure_threshold: p.failure_threshold,
        }),
    decreases k,
{
    assert(after_transport_failures(p, 0) == p);
    if k > 1 {
        law_transport_failures_degrade_at_threshold(p, (k - 1) as nat);
    }
}

proof fn lemma_failure_run_is_repeat(ps: Seq<PoolStatus>, i: int)
    requires
        0 <= i < ps.len(),
        forall|j: int| 0 <= j < ps.len() - 1 ==> #[trigger] ps[j + 1] == after_transport_failure(ps[j]),
    ensures
        ps[i] == after_transport_failures(ps[0], i as nat),
    decreases i,
{
    if i > 0 {
        lemma_failure_run_is_repeat(ps, i - 1);
        assert(ps[(i - 1) + 1] == after_transport_failure(ps[i - 1]));
    }
}

/// The statuses `ps` of a client through `k` calls of `mark_transport_failure` from a
/// fresh or ready client, each status the one before after the call: the last has a run
/// of `k` failures, is degraded once `k` reaches the threshold and cold before (never
/// skipped by queries), and `mark_ready` then makes it ready with no run.
pub proof fn law_pool_failure_calls(ps: Seq<PoolStatus>)
    requires
        ps.len() >= 2,
        ps.len() - 1 < u32::MAX,
        ps[0].transport_failure_streak == 0,
        forall|j: int| 0 <= j < ps.len() - 1 ==> #[trigger] ps[j + 1] == after_transport_failure(ps[j]),
    ensures
        ({
            let k = ps.len() - 1;
            let last = ps[k];
            &&& last.transport_failure_streak == k
            &&& last.state == if k >= ps[0].failure_threshold {
                UpstreamPoolState::Degraded
            } else {
                UpstreamPoolState::Cold
            }
            &&& last.state != UpstreamPoolState::Connecting
            &&& after_ready(last).state == UpstreamPoolState::Ready
            &&& after_ready(last).transport_failure_streak == 0
        }),
{
    let k = ps.len() - 1;
    lemma_failure_run_is_repeat(ps, k);
    law_transport_failures_degrade_at_threshold(ps[0], k as nat);
}

impl PoolStatus {
    /// A cold client with no failures; a threshold below one counts as one.
    pub fn new(failure_threshold: u32) -> (p: PoolStatus)
        ensures
            p.state == UpstreamPoolState::Cold,
            p.transport_failure_streak == 0,
            p.failure_threshold == if failure_threshold == 0 { 1 } else { failure_threshold },
    {
        PoolStatus {
            state: UpstreamPoolState::Cold,
            transport_failure_streak: 0,
            failure_threshold: if failure_threshold == 0 { 1 } else { failure_threshold },
        }
    }

    /// Whether queries pass over this upstream: only while it is connecting.
    pub fn should_skip_for_query(&self) -> (b: bool)
        ensures
            b == (self.state == UpstreamPoolState::Connecting),
    {
        self.state == UpstreamPoolState::Connecting
    }

    /// A connection works: the failure run ends and the client is ready.
    pub fn mark_ready(&mut self)
        ensures
            *final(self) == after_ready(*old(self)),
            final(self).state == UpstreamPoolState::Ready,
            final(self).transport_failure_streak == 0,
            final(self).failure_threshold == old(self).failure_threshold,
    {
        self.transport_failure_streak = 0;
        self.state = UpstreamPoolState::Ready;
    }

    /// A transport failure: the cached connections are dropped (by the caller) and the
    /// client is degraded once the run of failures reaches the threshold, else cold.
    pub fn mark_transport_failure(&mut self)
        requires
            old(self).transport_failure_streak < u32::MAX,
        ensures
            *final(self) == after_transport_failure(*old(self)),
            final(self).transport_failure_streak == old(self).transport_failure_streak + 1,
            final(self).failure_threshold == old(self).failure_threshold,
            final(self).state == if old(self).transport_failure_streak + 1 >= old(self).failure_threshold {
                UpstreamPoolState::Degraded
            } else {
                UpstreamPoolState::Cold
            },
    {
        let failures = self.transport_failure_streak + 1;
        self.transport_failure_streak = failures;
        if failures >= self.failure_threshold {
            self.state = UpstreamPoolState::Degraded;
        } else {
            self.state = UpstreamPoolState::Cold;
        }
    }

    /// Starts a connection attempt; `gate_acquired` says whether this caller got the right to
    /// connect. The state moves to connecting (recovering from degraded) either way; the
    /// result says whether this caller goes on to connect.
    pub fn begin_connect(&mut self, gate_acquired: bool) -> (proceed: bool)
        ensures
            proceed == gate_acquired,
            final(self).state == connecting_state(old(self).state),
            final(self).transport_failure_streak == old(self).transport_failure_streak,
            final(self).failure_threshold == old(self).failure_threshold,
    {
        self.state = if self.state == UpstreamPoolState::Degraded {
            UpstreamPoolState::Recovering
        } else {
            UpstreamPoolState::Connecting
        };
        gate_acquired
    }
}

} // verus!
