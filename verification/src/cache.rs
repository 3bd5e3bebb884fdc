//! The answer cache: which responses are kept and for how long, and what a hit returns
//! (the query's id, and TTLs lowered to the time the entry has left). Entries live in a
//! `moka` cache shared between queries.
use crate::wire::{
    capped_ttls, clamp_ttl, clamp_ttl_spec, lemma_offsets_in_bounds, min_ttl_from_values, min_ttl_spec, rewrite_ttls,
    rr_ttls_with_offsets, section_ttl_offsets_spec, set_id, ttls_at, write_ttls,
};
use std::sync::Arc;
use vstd::prelude::*;

verus! {

/// What a cached answer is filed under: the question and the route that chose the upstreams.
#[derive(Clone, Debug, PartialEq, Eq, Hash)]
pub struct CacheKey {
    pub qname: String,
    pub qtype: u16,
    pub qclass: u16,
    pub route_id: i32,
}

impl View for CacheKey {
    type V = (Seq<char>, u16, u16, i32);

    open spec fn view(&self) -> (Seq<char>, u16, u16, i32) {
        (self.qname@, self.qtype, self.qclass, self.route_id)
    }
}

/// A cached response, with the TTLs it came with and where they sit.
#[derive(Clone, Debug)]
pub struct CacheEntry {
    pub response: Vec<u8>,
    pub expires_at_ms: u64,
    pub original_ttls: Vec<u32>,
    pub ttl_offsets: Vec<usize>,
    pub upstream_name: String,
    pub upstream_protocol: String,
    pub answers: String,
}

/// A cache hit: the response to send and where it came from.
#[derive(Clone, Debug)]
pub struct CachedResponse {
    pub response: Vec<u8>,
    pub upstream_name: String,
    pub upstream_protocol: String,
    pub answers: String,
}

/// A cache entry as values.
pub struct EntryView {
    pub response: Seq<u8>,
    pub expires_at_ms: u64,
    pub original_ttls: Seq<u32>,
    pub ttl_offsets: Seq<int>,
    pub upstream_name: Seq<char>,
    pub upstream_protocol: Seq<char>,
    pub answers: Seq<char>,
}

impl View for CacheEntry {
    type V = EntryView;

    open spec fn view(&self) -> EntryView {
        EntryView {
            response: self.response@,
            expires_at_ms: self.expires_at_ms,
            original_ttls: self.original_ttls@,
            ttl_offsets: self.ttl_offsets@.map_values(|x: usize| x as int),
            upstream_name: self.upstream_name@,
            upstream_protocol: self.upstream_protocol@,
            answers: self.answers@,
        }
    }
}

/// A cache hit as values.
pub struct CachedView {
    pub response: Seq<u8>,
    pub upstream_name: Seq<char>,
    pub upstream_protocol: Seq<char>,
    pub answers: Seq<char>,
}

impl View for CachedResponse {
    type V = CachedView;

    open spec fn view(&self) -> CachedView {
        CachedView {
            response: self.response@,
            upstream_name: self.upstream_name@,
            upstream_protocol: self.upstream_protocol@,
            answers: self.answers@,
        }
    }
}

/// The cache settings that decide what is kept.
#[derive(Clone, Copy, Debug)]
pub struct CacheSettings {
    pub enabled: bool,
    pub max_entries: usize,
    pub max_entry_size: usize,
    pub min_ttl: u32,
    pub max_ttl: u32,
    pub negative_ttl: u32,
}

/// How long a response is kept: the negative TTL for a negative answer when one is set,
/// else the least TTL of its records clamped between the minimum and the maximum.
pub open spec fn cache_ttl_spec(negative: bool, ttls: Seq<u32>, s: CacheSettings) -> u32 {
    if negative && s.negative_ttl > 0 {
        s.negative_ttl
    } else {
        clamp_ttl_spec(min_ttl_spec(ttls), s.min_ttl, s.max_ttl)
    }
}

/// How long a response is kept, in seconds (zero: not kept).
pub fn cache_ttl(negative: bool, ttls: &[u32], s: CacheSettings) -> (t: u32)
    ensures
        t == cache_ttl_spec(negative, ttls@, s),
{
    if negative && s.negative_ttl > 0 {
        s.negative_ttl
    } else {
        clamp_ttl(min_ttl_from_values(ttls), s.min_ttl, s.max_ttl)
    }
}

/// The latest monotonic time at which an entry can still be made without overflow.
pub open spec fn latest_insert_ms() -> u64 {
    (u64::MAX - 4_294_967_295_000) as u64
}

/// The TTLs an entry keeps and where they sit: none for a negative answer or a response
/// whose records cannot be read, else every record's TTL.
pub open spec fn entry_ttls(resp: Seq<u8>, negative: bool) -> (Seq<u32>, Seq<int>) {
    if negative {
        (Seq::empty(), Seq::empty())
    } else {
        match section_ttl_offsets_spec(resp, false) {
            Ok(offs) => (ttls_at(resp, offs), offs),
            Err(_) => (Seq::empty(), Seq::empty()),
        }
    }
}

/// The entry made for a response received at `now_ms`: none when the cache is off, the
/// response is too large, or its TTL is zero; else the response, kept until `now_ms` plus
/// its TTL, with its TTLs, its upstream, and (for a positive answer) its answer summary.
pub open spec fn entry_spec(
    s: CacheSettings,
    resp: Seq<u8>,
    negative: bool,
    upstream_name: Seq<char>,
    upstream_protocol: Seq<char>,
    answers: Seq<char>,
    now_ms: u64,
) -> Option<EntryView> {
    if !s.enabled || resp.len() > s.max_entry_size {
        None
    } else {
        let (ttls, offs) = entry_ttls(resp, negative);
        let ttl = cache_ttl_spec(negative, ttls, s);
        if ttl == 0 {
            None
        } else {
            Some(
                EntryView {
                    response: resp,
                    expires_at_ms: (now_ms + 1000 * ttl) as u64,
                    original_ttls: ttls,
                    ttl_offsets: offs,
                    upstream_name,
                    upstream_protocol,
                    answers: if negative { Seq::empty() } else { answers },
                },
            )
        }
    }
}

/// A negative answer (no records, or NXDOMAIN) that fits an entry is kept, while the cache
/// is on and the negative TTL is not zero, for exactly the negative TTL: the response
/// itself, with its upstream, no TTLs to rewrite and no answer summary.
pub proof fn law_negative_answers_are_kept(
    s: CacheSettings,
    resp: Seq<u8>,
    upstream_name: Seq<char>,
    upstream_protocol: Seq<char>,
    answers: Seq<char>,
    now_ms: u64,
)
    requires
        s.enabled,
        resp.len() <= s.max_entry_size,
        s.negative_ttl > 0,
        now_ms <= latest_insert_ms(),
    ensures
        entry_spec(s, resp, true, upstream_name, upstream_protocol, answers, now_ms) == Some(
            EntryView {
                response: resp,
                expires_at_ms: (now_ms + 1000 * s.negative_ttl) as u64,
                original_ttls: Seq::empty(),
                ttl_offsets: Seq::empty(),
                upstream_name,
                upstream_protocol,
                answers: Seq::empty(),
            },
        ),
        now_ms + 1000 * s.negative_ttl <= u64::MAX,
{
}

/// Whether an entry's TTL offsets match its TTLs and all lie inside its response.
pub open spec fn entry_wf(e: EntryView) -> bool {
    &&& e.original_ttls.len() == e.ttl_offsets.len()
    &&& forall|i: int| 0 <= i < e.ttl_offsets.len() ==> 0 <= #[trigger] e.ttl_offsets[i] && e.ttl_offsets[i] + 4 <= e.response.len()
}

/// Makes the entry for a response received at monotonic time `now_ms`: none when the cache
/// is off, the response is larger than an entry may be, or its TTL is zero. A negative
/// answer keeps no TTLs (its TTLs are not rewritten on a hit) and no answer summary.
pub fn entry_for(
    s: CacheSettings,
    resp: &[u8],
    negative: bool,
    upstream_name: &str,
    upstream_protocol: &str,
    answers: String,
    now_ms: u64,
) -> (r: Option<CacheEntry>)
    requires
        now_ms <= latest_insert_ms(),
    ensures
        !s.enabled || resp@.len() > s.max_entry_size ==> r is None,
        match r {
            Some(e) => {
                &&& s.enabled && resp@.len() <= s.max_entry_size
                &&& e.response@ == resp@
                &&& e.upstream_name@ == upstream_name@
                &&& e.upstream_protocol@ == upstream_protocol@
                &&& negative ==> e.original_ttls@.len() == 0 && e.ttl_offsets@.len() == 0 && e.answers@.len() == 0
                &&& !negative ==> e.answers@ == answers@
                &&& e.expires_at_ms == now_ms + 1000 * cache_ttl_spec(negative, e.original_ttls@, s)
                &&& cache_ttl_spec(negative, e.original_ttls@, s) > 0
                &&& e.original_ttls@.len() == e.ttl_offsets@.len()
            },
            None => true,
        },
        match r {
            Some(e) => entry_spec(s, resp@, negative, upstream_name@, upstream_protocol@, answers@, now_ms) == Some(e@),
            None => entry_spec(s, resp@, negative, upstream_name@, upstream_protocol@, answers@, now_ms) is None,
        },
        r matches Some(e) ==> entry_wf(e@),
{
    proof {
        lemma_offsets_in_bounds(resp@);
        reveal_strlit("");
    }
    if !s.enabled || resp.len() > s.max_entry_size {
        return None;
    }
    let (ttls, offsets) = if negative {
        (Vec::new(), Vec::new())
    } else {
        match rr_ttls_with_offsets(resp) {
            Ok(p) => p,
            Err(_) => (Vec::new(), Vec::new()),
        }
    };
    assert(ttls@ == entry_ttls(resp@, negative).0);
    assert(offsets@.map_values(|x: usize| x as int) =~= entry_ttls(resp@, negative).1);
    if ttls.len() != offsets.len() {
        return None;
    }
    let ttl = cache_ttl(negative, ttls.as_slice(), s);
    if ttl == 0 {
        return None;
    }
    let summary = if negative { String::new() } else { answers };
    let mut response: Vec<u8> = Vec::new();
    let mut i: usize = 0;
    while i < resp.len()
        invariant
            i <= resp@.len(),
            response@ == resp@.take(i as int),
        decreases resp@.len() - i,
    {
        response.push(resp[i]);
        i = i + 1;
        assert(response@ =~= resp@.take(i as int));
    }
    assert(resp@.take(resp@.len() as int) =~= resp@);
    Some(CacheEntry {
        response,
        expires_at_ms: now_ms + 1000 * (ttl as u64),
        original_ttls: ttls,
        ttl_offsets: offsets,
        upstream_name: String::from_str(upstream_name),
        upstream_protocol: String::from_str(upstream_protocol),
        answers: summary,
    })
}

/// The seconds an entry has left at `now_ms`, at most `u32::MAX`.
pub open spec fn remaining_secs(e_expires: u64, now_ms: u64) -> u32 {
    let left = (e_expires - now_ms) / 1000;
    if left > u32::MAX { u32::MAX } else { left as u32 }
}

/// A message with `id` written into its first two bytes (when it has them).
pub open spec fn with_id(resp: Seq<u8>, id: u16) -> Seq<u8> {
    if resp.len() >= 2 { resp.update(0, (id / 256) as u8).update(1, (id % 256) as u8) } else { resp }
}

/// Whether the kept TTL offsets all lie inside the response.
pub open spec fn offsets_inside(resp: Seq<u8>, offsets: Seq<usize>) -> bool {
    forall|i: int| 0 <= i < offsets.len() ==> #[trigger] offsets[i] + 4 <= resp.len()
}

/// What a well-formed entry answers at `now_ms` with the query's `id`: nothing once it has
/// expired; else its response with the id written in and each kept TTL lowered to the
/// whole seconds the entry has left, with the entry's upstream and answer summary.
pub open spec fn serve_spec(e: EntryView, id: u16, now_ms: u64) -> Option<CachedView> {
    if now_ms >= e.expires_at_ms {
        None
    } else {
        let base = with_id(e.response, id);
        Some(
            CachedView {
                response: if e.original_ttls.len() == 0 {
                    base
                } else {
                    write_ttls(base, e.ttl_offsets, capped_ttls(e.original_ttls, remaining_secs(e.expires_at_ms, now_ms)))
                },
                upstream_name: e.upstream_name,
                upstream_protocol: e.upstream_protocol,
                answers: e.answers,
            },
        )
    }
}

/// Answers from a cache entry at monotonic time `now_ms`: none once it has expired.
pub fn serve_entry(e: &CacheEntry, id: u16, now_ms: u64) -> (r: Option<CachedResponse>)
    ensures
        now_ms >= e.expires_at_ms ==> r is None,
        match r {
            Some(c) => {
                &&& now_ms < e.expires_at_ms
                &&& c.response@.len() == e.response@.len()
                &&& c.upstream_name@ == e.upstream_name@
                &&& c.upstream_protocol@ == e.upstream_protocol@
                &&& c.answers@ == e.answers@
                &&& (e.original_ttls@.len() == 0 || e.original_ttls@.len() != e.ttl_offsets@.len()) ==> c.response@
                    == with_id(e.response@, id)
                &&& e.original_ttls@.len() > 0 && e.original_ttls@.len() == e.ttl_offsets@.len() && offsets_inside(
                    e.response@,
                    e.ttl_offsets@,
                ) ==> c.response@ == write_ttls(
                    with_id(e.response@, id),
                    e.ttl_offsets@.map_values(|x: usize| x as int),
                    capped_ttls(e.original_ttls@, remaining_secs(e.expires_at_ms, now_ms)),
                )
            },
            None => now_ms >= e.expires_at_ms,
        },
        entry_wf(e@) ==> match r {
            Some(c) => serve_spec(e@, id, now_ms) == Some(c@),
            None => serve_spec(e@, id, now_ms) is None,
        },
{
    proof {
        if entry_wf(e@) {
            assert forall|i: int| 0 <= i < e.ttl_offsets@.len() implies #[trigger] e.ttl_offsets@[i] + 4
                <= e.response@.len() by {
                assert(e@.ttl_offsets[i] == e.ttl_offsets@[i] as int);
            }
            assert(offsets_inside(e.response@, e.ttl_offsets@));
        }
    }
    if now_ms >= e.expires_at_ms {
        return None;
    }
    let mut resp = e.response.clone();
    assert(resp@ == e.response@);
    set_id(resp.as_mut_slice(), id);
    assert(resp@ == with_id(e.response@, id));
    let left = (e.expires_at_ms - now_ms) / 1000;
    let remaining: u32 = if left > u32::MAX as u64 { u32::MAX } else { left as u32 };
    if e.original_ttls.len() > 0 {
        let _ = rewrite_ttls(resp.as_mut_slice(), e.original_ttls.as_slice(), e.ttl_offsets.as_slice(), remaining);
    }
    Some(CachedResponse {
        response: resp,
        upstream_name: e.upstream_name.clone(),
        upstream_protocol: e.upstream_protocol.clone(),
        answers: e.answers.clone(),
    })
}

/// Whether a cache hit is what `serve_entry` makes of entry `e` for the query's `id` at
/// `now_ms`: the entry has not expired, the hit has its upstream and answer summary and a
/// response of its length, and for a well-formed entry the hit is `serve_spec`'s.
pub open spec fn hit_of(e: CacheEntry, id: u16, now_ms: u64, c: CachedResponse) -> bool {
    &&& now_ms < e.expires_at_ms
    &&& c.response@.len() == e.response@.len()
    &&& c.upstream_name@ == e.upstream_name@
    &&& c.upstream_protocol@ == e.upstream_protocol@
    &&& c.answers@ == e.answers@
    &&& entry_wf(e@) ==> serve_spec(e@, id, now_ms) == Some(c@)
}

/// What the cache gives back of what it kept: an entry made for a response at `now_ms`
/// answers, at any later time before it expires, that response with the query's id and
/// each TTL lowered to the whole seconds left (never more than the entry's TTL), with the
/// upstream it came from; once it has expired, it answers nothing.
pub proof fn law_cache_serves_what_it_kept(
    s: CacheSettings,
    resp: Seq<u8>,
    negative: bool,
    upstream_name: Seq<char>,
    upstream_protocol: Seq<char>,
    answers: Seq<char>,
    now_ms: u64,
    id: u16,
    at_ms: u64,
)
    requires
        now_ms <= latest_insert_ms(),
        entry_spec(s, resp, negative, upstream_name, upstream_protocol, answers, now_ms) is Some,
        now_ms <= at_ms,
    ensures
        ({
            let e = entry_spec(s, resp, negative, upstream_name, upstream_protocol, answers, now_ms)->Some_0;
            let ttl = cache_ttl_spec(negative, e.original_ttls, s);
            &&& entry_wf(e)
            &&& e.expires_at_ms == now_ms + 1000 * ttl
            &&& at_ms < e.expires_at_ms ==> {
                &&& serve_spec(e, id, at_ms) matches Some(c)
                &&& c.response == if e.original_ttls.len() == 0 {
                    with_id(resp, id)
                } else {
                    write_ttls(with_id(resp, id), e.ttl_offsets, capped_ttls(e.original_ttls, remaining_secs(e.expires_at_ms, at_ms)))
                }
                &&& remaining_secs(e.expires_at_ms, at_ms) <= ttl
                &&& c.upstream_name == upstream_name
                &&& c.upstream_protocol == upstream_protocol
                &&& negative ==> c.response == with_id(resp, id)
            }
            &&& at_ms >= e.expires_at_ms ==> serve_spec(e, id, at_ms) is None
        }),
{
    lemma_offsets_in_bounds(resp);
    let e = entry_spec(s, resp, negative, upstream_name, upstream_protocol, answers, now_ms)->Some_0;
    let ttl = cache_ttl_spec(negative, e.original_ttls, s);
    assert(e.expires_at_ms == now_ms + 1000 * ttl);
    if at_ms < e.expires_at_ms {
        assert((e.expires_at_ms - at_ms) / 1000 <= ttl) by (nonlinear_arith)
            requires
                e.expires_at_ms == now_ms + 1000 * ttl,
                now_ms <= at_ms,
                at_ms < e.expires_at_ms,
        ;
    }
}


/// `moka`'s concurrent cache, used as the store of entries.
#[verifier::external_type_specification]
#[verifier::external_body]
#[verifier::reject_recursive_types(K)]
#[verifier::reject_recursive_types(V)]
#[verifier::reject_recursive_types(S)]
pub struct ExMokaCache<K, V, S>(moka::sync::Cache<K, V, S>);

/// Every key and entry, as values, that the store holds at some time in its life: what was
/// inserted under each key.
pub uninterp spec fn store_holds(c: moka::sync::Cache<CacheKey, Arc<CacheEntry>>) -> Set<
    ((Seq<char>, u16, u16, i32), EntryView),
>;

/// `moka::sync::Cache::new`: a store holding at most `capacity` entries. Nothing is claimed
/// of its contents: the store is shared between queries and evicts on its own.
#[verifier::external_body]
fn store_new(capacity: u64) -> (c: moka::sync::Cache<CacheKey, Arc<CacheEntry>>) {
    moka::sync::Cache::new(capacity)
}

/// `moka::sync::Cache::get`: the entry stored under `key`, if the store still has one. The
/// entry handed out is one that the store holds under that very key; whether there is one
/// is not claimed: other queries and the store's own eviction change it at any time.
#[verifier::external_body]
fn store_get(c: &moka::sync::Cache<CacheKey, Arc<CacheEntry>>, key: &CacheKey) -> (r: Option<Arc<CacheEntry>>)
    ensures
        r matches Some(e) ==> store_holds(*c).contains((key@, e@)),
{
    c.get(key)
}

/// `moka::sync::Cache::insert`: stores `value` under `key`; gives back a handle on the
/// stored entry (`Arc::clone`), which the store then holds under that key.
#[verifier::external_body]
fn store_insert(c: &moka::sync::Cache<CacheKey, Arc<CacheEntry>>, key: CacheKey, value: Arc<CacheEntry>) -> (r: Arc<
    CacheEntry,
>)
    ensures
        r@ == value@,
        store_holds(*c).contains((key@, r@)),
{
    let kept = Arc::clone(&value);
    c.insert(key, value);
    kept
}

/// `moka::sync::Cache::invalidate`: drops the entry stored under `key`.
#[verifier::external_body]
fn store_invalidate(c: &moka::sync::Cache<CacheKey, Arc<CacheEntry>>, key: &CacheKey) {
    c.invalidate(key)
}

/// `moka::sync::Cache::run_pending_tasks`: carries out the store's pending maintenance.
#[verifier::external_body]
fn store_run_pending_tasks(c: &moka::sync::Cache<CacheKey, Arc<CacheEntry>>) {
    c.run_pending_tasks()
}

/// `moka::sync::Cache::entry_count`: about how many entries the store holds. Nothing is
/// claimed of the number: it is an estimate that other queries change at any time.
#[verifier::external_body]
fn store_entry_count(c: &moka::sync::Cache<CacheKey, Arc<CacheEntry>>) -> (n: u64) {
    c.entry_count()
}

/// `moka::sync::Cache::invalidate_all`: drops every entry stored so far.
#[verifier::external_body]
fn store_invalidate_all(c: &moka::sync::Cache<CacheKey, Arc<CacheEntry>>) {
    c.invalidate_all()
}

/// What a lookup makes of the entry the store handed out, if any: nothing when none was
/// found; nothing once it has expired, and then the entry is to be dropped (the `bool`);
/// else what `serve_entry` makes of it.
pub fn serve_lookup(found: Option<&CacheEntry>, id: u16, now_ms: u64) -> (r: (Option<CachedResponse>, bool))
    ensures
        match found {
            None => r.0 is None && !r.1,
            Some(e) => if now_ms >= e.expires_at_ms {
                r.0 is None && r.1
            } else {
                &&& !r.1
                &&& r.0 matches Some(c) && hit_of(*e, id, now_ms, c)
                &&& entry_wf(e@) ==> serve_spec(e@, id, now_ms) == Some(r.0->Some_0@)
            },
        },
{
    match found {
        None => (None, false),
        Some(e) => {
            if now_ms >= e.expires_at_ms {
                (None, true)
            } else {
                let r = serve_entry(e, id, now_ms);
                (r, false)
            }
        },
    }
}

/// The settings that decide what is cached, from the configuration.
pub open spec fn settings_of(c: crate::config::CacheView) -> CacheSettings {
    CacheSettings {
        enabled: c.enabled,
        max_entries: c.max_entries,
        max_entry_size: c.max_entry_size,
        min_ttl: c.min_ttl,
        max_ttl: c.max_ttl,
        negative_ttl: c.negative_ttl,
    }
}

/// The answer cache.
pub struct DnsCache {
    settings: CacheSettings,
    inner: moka::sync::Cache<CacheKey, Arc<CacheEntry>>,
}

impl DnsCache {
    /// An empty cache with the cache settings of `cfg` (room for at least one entry).
    pub fn new(cfg: &crate::config::CoreConfig) -> (c: DnsCache)
        ensures
            c.settings() == settings_of(cfg@.cache),
    {
        let settings = CacheSettings {
            enabled: cfg.cache.enabled,
            max_entries: cfg.cache.max_entries,
            max_entry_size: cfg.cache.max_entry_size,
            min_ttl: cfg.cache.min_ttl,
            max_ttl: cfg.cache.max_ttl,
            negative_ttl: cfg.cache.negative_ttl,
        };
        let capacity: u64 = if settings.max_entries == 0 { 1 } else { settings.max_entries as u64 };
        DnsCache { settings, inner: store_new(capacity) }
    }

    /// The settings of the cache.
    pub closed spec fn settings(&self) -> CacheSettings {
        self.settings
    }

    /// The store of entries.
    pub closed spec fn store(&self) -> moka::sync::Cache<CacheKey, Arc<CacheEntry>> {
        self.inner
    }

    /// Empties the cache; returns how many entries it held once its pending maintenance
    /// was done.
    pub fn clear(&self) -> usize {
        store_run_pending_tasks(&self.inner);
        let n = store_entry_count(&self.inner);
        store_invalidate_all(&self.inner);
        store_run_pending_tasks(&self.inner);
        #[verifier::truncate]
        (n as usize)
    }

    /// The answer to a question at monotonic time `now_ms`, with the query's `id`: none when
    /// the cache is off; else what `serve_lookup` makes of the entry the store hands out
    /// under `key` (an expired one is dropped).
    pub fn get(&self, key: &CacheKey, id: u16, now_ms: u64) -> (r: Option<CachedResponse>)
        ensures
            !self.settings().enabled ==> r is None,
            r matches Some(c) ==> self.settings().enabled && exists|e: CacheEntry|
                #[trigger] hit_of(e, id, now_ms, c) && store_holds(self.store()).contains((key@, e@)),
    {
        if !self.settings.enabled {
            return None;
        }
        let found = store_get(&self.inner, key);
        let (r, drop_entry) = match &found {
            Some(e) => serve_lookup(Some(&**e), id, now_ms),
            None => serve_lookup(None, id, now_ms),
        };
        if drop_entry {
            store_invalidate(&self.inner, key);
        }
        proof {
            if r is Some {
                let e = found->Some_0;
                assert(hit_of(*e, id, now_ms, r->Some_0));
                assert(store_holds(self.store()).contains((key@, (*e)@)));
            }
        }
        r
    }

    /// Keeps a response received at monotonic time `now_ms`, when `entry_for` makes an entry
    /// of it.
    pub fn set(
        &self,
        key: CacheKey,
        resp: &[u8],
        negative: bool,
        upstream_name: &str,
        upstream_protocol: &str,
        answers: String,
        now_ms: u64,
    )
        requires
            now_ms <= latest_insert_ms(),
        ensures
            entry_spec(self.settings(), resp@, negative, upstream_name@, upstream_protocol@, answers@, now_ms) matches Some(
                e,
            ) ==> store_holds(self.store()).contains((key@, e)),
    {
        let ghost k = key@;
        match entry_for(self.settings, resp, negative, upstream_name, upstream_protocol, answers, now_ms) {
            Some(e) => {
                let ghost ev = e@;
                let kept = store_insert(&self.inner, key, Arc::new(e));
                assert(kept@ == ev);
            },
            None => {},
        }
    }
}

} // verus!
