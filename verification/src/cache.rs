//! The response cache: entries keyed by lowercase name and record type,
//! kept for the smallest TTL of their answers (clamped), with hit and miss
//! counts and a bounded, least-recently-used eviction when it is full.
//!
//! Times are milliseconds since the Unix epoch. Each operation that reads
//! the clock has a twin ending in `_at` that takes the time as an argument
//! and carries the exact contract.

use vstd::prelude::*;
use dashmap::DashMap;
use crate::clock::unix_millis_now;
use crate::message::{min_ttl, same_response, DnsQuery, DnsRecordData, DnsResponse, RecordType};
use crate::text::{ascii_lower, chars_of, lowercase, str_eq, to_lowercase};

verus! {

broadcast use vstd::string::group_string_axioms;

/// Lower bound on a cached entry's lifetime, in seconds.
pub const MIN_CACHE_TTL_SECS: u64 = 5;

/// Upper bound on a cached entry's lifetime, in seconds.
pub const MAX_CACHE_TTL_SECS: u64 = 3600;

/// Entries inspected per eviction attempt.
pub const EVICTION_SAMPLE_SIZE: usize = 5;

/// Eviction attempts per call.
pub const EVICTION_MAX_ATTEMPTS: usize = 5;

/// The name a cache key stores: the name lowercased, as
/// `str::to_lowercase` lowercases it.
pub open spec fn key_name(name: Seq<char>) -> Seq<char> {
    lowercase(name)
}

/// Cache key: a domain name and a record type.
#[derive(Debug, PartialEq, Eq, Hash)]
pub struct CacheKey {
    /// Domain name, lowercase
    pub name: String,
    /// Record type
    pub record_type: RecordType,
}

impl View for CacheKey {
    type V = (Seq<char>, RecordType);

    open spec fn view(&self) -> (Seq<char>, RecordType) {
        (self.name@, self.record_type)
    }
}

impl Clone for CacheKey {
    fn clone(&self) -> (r: CacheKey)
        ensures
            r == *self,
    {
        CacheKey { name: self.name.clone(), record_type: self.record_type }
    }
}

impl CacheKey {
    /// A key for `name` and `record_type`, with the name lowercased.
    pub fn new(name: &str, record_type: RecordType) -> (k: CacheKey)
        ensures
            k.name@ == key_name(name@),
            k.record_type == record_type,
    {
        CacheKey { name: to_lowercase(name), record_type }
    }

    /// The key of a query.
    pub fn from_query(query: &DnsQuery) -> (k: CacheKey)
        ensures
            k.name@ == key_name(query.name@),
            k.record_type == query.record_type,
    {
        Self::new(query.name.as_str(), query.record_type)
    }
}

/// Whether two keys name the same entry.
fn same_key(a: &CacheKey, b: &CacheKey) -> (r: bool)
    ensures
        r == (a@ == b@),
{
    a.record_type == b.record_type && str_eq(a.name.as_str(), b.name.as_str())
}

/// A cached response.
#[derive(Debug)]
pub struct CacheEntry {
    /// The cached DNS response
    pub response: DnsResponse,
    /// When this entry expires
    pub expires_at_ms: u64,
    /// When this entry was created
    pub created_at_ms: u64,
    /// When this entry was last read
    pub last_accessed_ms: u64,
}

/// Two entries hold the same response and times.
pub open spec fn same_entry(a: CacheEntry, b: CacheEntry) -> bool {
    &&& same_response(a.response, b.response)
    &&& a.expires_at_ms == b.expires_at_ms
    &&& a.created_at_ms == b.created_at_ms
    &&& a.last_accessed_ms == b.last_accessed_ms
}

impl Clone for CacheEntry {
    fn clone(&self) -> (r: CacheEntry)
        ensures
            same_entry(r, *self),
    {
        CacheEntry {
            response: self.response.clone(),
            expires_at_ms: self.expires_at_ms,
            created_at_ms: self.created_at_ms,
            last_accessed_ms: self.last_accessed_ms,
        }
    }
}

/// `a + b`, or `u64::MAX` where the sum does not fit.
pub open spec fn saturated_sum(a: u64, b: u64) -> u64 {
    if a + b > u64::MAX {
        u64::MAX
    } else {
        (a + b) as u64
    }
}

/// An entry for `response`, written at `now` and kept for `ttl_ms`.
pub open spec fn entry_written(e: CacheEntry, response: DnsResponse, ttl_ms: u64, now: u64) -> bool {
    &&& same_response(e.response, response)
    &&& e.created_at_ms == now
    &&& e.last_accessed_ms == now
    &&& e.expires_at_ms == saturated_sum(now, ttl_ms)
}

/// The whole seconds an entry has left at `now`; 0 once expired.
pub open spec fn remaining_secs_at(e: CacheEntry, now: u64) -> u64 {
    if now >= e.expires_at_ms {
        0
    } else {
        ((e.expires_at_ms - now) / 1000) as u64
    }
}

/// Whether an entry has expired at `now`.
pub open spec fn expired_at(e: CacheEntry, now: u64) -> bool {
    now >= e.expires_at_ms
}

impl CacheEntry {
    /// An entry created at `now_ms` that lives for `ttl_ms`.
    pub fn new_at(response: DnsResponse, ttl_ms: u64, now_ms: u64) -> (e: CacheEntry)
        ensures
            entry_written(e, response, ttl_ms, now_ms),
            e.response == response,
    {
        CacheEntry {
            response,
            expires_at_ms: now_ms.saturating_add(ttl_ms),
            created_at_ms: now_ms,
            last_accessed_ms: now_ms,
        }
    }

    /// An entry created now that lives for `ttl_ms`.
    pub fn new(response: DnsResponse, ttl_ms: u64) -> (e: CacheEntry)
        ensures
            e.response == response,
            e.expires_at_ms == saturated_sum(e.created_at_ms, ttl_ms),
            e.last_accessed_ms == e.created_at_ms,
    {
        Self::new_at(response, ttl_ms, unix_millis_now())
    }

    /// Whether the entry has expired at `now_ms`.
    pub fn is_expired_at(&self, now_ms: u64) -> (r: bool)
        ensures
            r == expired_at(*self, now_ms),
    {
        now_ms >= self.expires_at_ms
    }

    /// Whether the entry has expired, at the clock's current reading.
    pub fn is_expired(&self) -> (r: bool)
        ensures
            exists|now: u64| r == #[trigger] expired_at(*self, now),
    {
        let now: u64 = unix_millis_now();
        self.is_expired_at(now)
    }

    /// Whole seconds left at `now_ms`; 0 once expired.
    pub fn remaining_ttl_at(&self, now_ms: u64) -> (r: u64)
        ensures
            r == remaining_secs_at(*self, now_ms),
    {
        if now_ms >= self.expires_at_ms {
            0
        } else {
            (self.expires_at_ms - now_ms) / 1000
        }
    }

    /// Whole seconds left at the clock's current reading; 0 once expired.
    pub fn remaining_ttl(&self) -> (r: u64)
        ensures
            r * 1000 <= self.expires_at_ms,
            exists|now: u64| r == #[trigger] remaining_secs_at(*self, now),
    {
        let now: u64 = unix_millis_now();
        self.remaining_ttl_at(now)
    }

    /// Records a read at `now_ms`.
    pub fn touch_at(&mut self, now_ms: u64)
        ensures
            final(self).last_accessed_ms == now_ms,
            final(self).response == old(self).response,
            final(self).expires_at_ms == old(self).expires_at_ms,
            final(self).created_at_ms == old(self).created_at_ms,
    {
        self.last_accessed_ms = now_ms;
    }

    /// Records a read now.
    pub fn touch(&mut self)
        ensures
            final(self).response == old(self).response,
            final(self).expires_at_ms == old(self).expires_at_ms,
            final(self).created_at_ms == old(self).created_at_ms,
    {
        self.touch_at(unix_millis_now());
    }
}

/// Cache configuration.
#[derive(Debug, Clone, Copy)]
pub struct CacheConfig {
    /// Lifetime of responses without answers, in seconds
    pub default_ttl: u64,
    /// Maximum number of entries
    pub max_entries: usize,
}

impl Default for CacheConfig {
    fn default() -> (c: CacheConfig)
        ensures
            c.default_ttl == 60,
            c.max_entries == 10000,
    {
        CacheConfig { default_ttl: 60, max_entries: 10000 }
    }
}

/// Cache statistics.
#[derive(Debug, Clone, Copy)]
pub struct CacheStats {
    /// Number of cache hits
    pub hits: u64,
    /// Number of cache misses
    pub misses: u64,
    /// Current number of entries
    pub entries: usize,
}

impl Default for CacheStats {
    fn default() -> (s: CacheStats)
        ensures
            s.hits == 0,
            s.misses == 0,
            s.entries == 0,
    {
        CacheStats { hits: 0, misses: 0, entries: 0 }
    }
}

/// `v` limited to `lo..=hi`.
pub open spec fn clamp(v: u64, lo: u64, hi: u64) -> u64 {
    if v < lo {
        lo
    } else if v > hi {
        hi
    } else {
        v
    }
}

/// How long, in seconds, a response may be cached: its smallest answer
/// TTL clamped to the bounds, or `fallback` when it has no answer.
pub open spec fn effective_ttl_secs(answers: Seq<DnsRecordData>, fallback: u64) -> u64 {
    match min_ttl(answers) {
        Some(t) => clamp(t as u64, MIN_CACHE_TTL_SECS, MAX_CACHE_TTL_SECS),
        None => fallback,
    }
}

/// A counter advanced by one, wrapping at `u64::MAX`.
pub open spec fn count_up(n: u64) -> u64 {
    if n == u64::MAX {
        0
    } else {
        (n + 1) as u64
    }
}

fn count_up_exec(n: u64) -> (r: u64)
    ensures
        r == count_up(n),
{
    if n == u64::MAX {
        0
    } else {
        n + 1
    }
}

/// The entry served for a key at `now`: the stored one unless it expired.
pub open spec fn served(
    entries: Map<(Seq<char>, RecordType), CacheEntry>,
    key: (Seq<char>, RecordType),
    now: u64,
) -> Option<CacheEntry> {
    if entries.contains_key(key) && !expired_at(entries[key], now) {
        Some(entries[key])
    } else {
        None
    }
}

/// Whether `small` holds only entries of `big`, unchanged.
pub open spec fn sub_entries(
    small: Map<(Seq<char>, RecordType), CacheEntry>,
    big: Map<(Seq<char>, RecordType), CacheEntry>,
) -> bool {
    forall|k: (Seq<char>, RecordType)| #[trigger]
        small.contains_key(k) ==> big.contains_key(k) && small[k] == big[k]
}

/// Which entries a sweep of the map keeps.
pub enum Retention {
    /// Keep entries whose name is not this (already lowercase) domain,
    /// compared ignoring ASCII case.
    OutsideDomain(Vec<char>),
    /// Keep entries that have not expired at this time.
    UnexpiredAt(u64),
}

/// Whether a sweep keeps an entry.
pub open spec fn retention_keeps(
    rule: Retention,
    key: (Seq<char>, RecordType),
    entry: CacheEntry,
) -> bool {
    match rule {
        Retention::OutsideDomain(d) => ascii_lower(key.0) != ascii_lower(d@),
        Retention::UnexpiredAt(now) => !expired_at(entry, now),
    }
}

/// The entries that a sweep keeps.
pub open spec fn retained(
    entries: Map<(Seq<char>, RecordType), CacheEntry>,
    rule: Retention,
) -> Map<(Seq<char>, RecordType), CacheEntry> {
    entries.restrict(entries.dom().filter(|k: (Seq<char>, RecordType)| retention_keeps(rule, k, entries[k])))
}

/// Whether two character sequences are equal ignoring ASCII case.
fn eq_ignore_ascii_case(a: &Vec<char>, b: &Vec<char>) -> (r: bool)
    ensures
        r == (ascii_lower(a@) == ascii_lower(b@)),
{
    if a.len() != b.len() {
        assert(ascii_lower(a@).len() != ascii_lower(b@).len());
        return false;
    }
    let mut i: usize = 0;
    while i < a.len()
        invariant
            a@.len() == b@.len(),
            0 <= i <= a@.len(),
            forall|j: int| 0 <= j < i ==> ascii_lower(a@)[j] == ascii_lower(b@)[j],
        decreases a@.len() - i,
    {
        let x: char = a[i];
        let y: char = b[i];
        let lx: char = if 'A' <= x && x <= 'Z' { ((x as u8) + 32) as char } else { x };
        let ly: char = if 'A' <= y && y <= 'Z' { ((y as u8) + 32) as char } else { y };
        assert(lx == ascii_lower(a@)[i as int]);
        assert(ly == ascii_lower(b@)[i as int]);
        if lx != ly {
            return false;
        }
        i = i + 1;
    }
    assert(ascii_lower(a@) =~= ascii_lower(b@));
    true
}

impl Retention {
    /// Whether this sweep keeps `entry` under `key`.
    pub fn keeps(&self, key: &CacheKey, entry: &CacheEntry) -> (r: bool)
        ensures
            r == retention_keeps(*self, key@, *entry),
    {
        match self {
            Retention::OutsideDomain(d) => {
                let name: Vec<char> = chars_of(key.name.as_str());
                !eq_ignore_ascii_case(&name, d)
            },
            Retention::UnexpiredAt(now) => !entry.is_expired_at(*now),
        }
    }
}

#[verifier::external_type_specification]
#[verifier::external_body]
#[verifier::reject_recursive_types(K)]
#[verifier::reject_recursive_types(V)]
#[verifier::reject_recursive_types(S)]
pub struct ExDashMap<K, V, S>(DashMap<K, V, S>);

/// The entries of a cache map, by key view.
pub uninterp spec fn cache_contents(m: DashMap<CacheKey, CacheEntry>) -> Map<
    (Seq<char>, RecordType),
    CacheEntry,
>;

/// Calls `DashMap::new`: an empty map.
#[verifier::external_body]
fn map_new() -> (m: DashMap<CacheKey, CacheEntry>)
    ensures
        cache_contents(m).dom() == Set::<(Seq<char>, RecordType)>::empty(),
{
    DashMap::new()
}

/// Calls `DashMap::len`: the number of entries.
#[verifier::external_body]
fn map_len(m: &DashMap<CacheKey, CacheEntry>) -> (n: usize)
    ensures
        n == cache_contents(*m).len(),
{
    m.len()
}

/// Calls `DashMap::get` and clones the entry found under `key`.
#[verifier::external_body]
fn map_get(m: &DashMap<CacheKey, CacheEntry>, key: &CacheKey) -> (r: Option<CacheEntry>)
    ensures
        match r {
            Some(e) => cache_contents(*m).contains_key(key@) && same_entry(
                e,
                cache_contents(*m)[key@],
            ),
            None => !cache_contents(*m).contains_key(key@),
        },
{
    m.get(key).map(|e| e.value().clone())
}

/// Calls `DashMap::insert`: the entry under `key` becomes `value`; the one
/// it replaces, if any, is returned.
#[verifier::external_body]
fn map_insert(m: &mut DashMap<CacheKey, CacheEntry>, key: CacheKey, value: CacheEntry) -> (prev:
    Option<CacheEntry>)
    ensures
        cache_contents(*final(m)) == cache_contents(*old(m)).insert(key@, value),
        match prev {
            Some(p) => cache_contents(*old(m)).contains_key(key@) && p == cache_contents(
                *old(m),
            )[key@],
            None => !cache_contents(*old(m)).contains_key(key@),
        },
{
    m.insert(key, value)
}

/// Calls `DashMap::remove`: the entry under `key`, if any, is gone.
#[verifier::external_body]
fn map_remove(m: &mut DashMap<CacheKey, CacheEntry>, key: &CacheKey)
    ensures
        cache_contents(*final(m)) == cache_contents(*old(m)).remove(key@),
{
    m.remove(key);
}

/// Calls `DashMap::clear`: no entry is left.
#[verifier::external_body]
fn map_clear(m: &mut DashMap<CacheKey, CacheEntry>)
    ensures
        cache_contents(*final(m)).dom() == Set::<(Seq<char>, RecordType)>::empty(),
{
    m.clear();
}

/// Calls `DashMap::retain` with the rule's `keeps`: the entries the rule
/// keeps stay, unchanged; the others are gone.
#[verifier::external_body]
fn map_retain(m: &mut DashMap<CacheKey, CacheEntry>, rule: &Retention)
    ensures
        cache_contents(*final(m)) == retained(cache_contents(*old(m)), *rule),
{
    m.retain(|k, v| rule.keeps(k, v));
}

/// Walks the map with `DashMap::iter` and lists each entry's key with its
/// last access time, every entry once, in the order of the walk, which is
/// not specified.
#[verifier::external_body]
fn map_access_times(m: &DashMap<CacheKey, CacheEntry>) -> (v: Vec<(CacheKey, u64)>)
    ensures
        v@.len() == cache_contents(*m).len(),
        forall|i: int|
            0 <= i < v@.len() ==> #[trigger] cache_contents(*m).contains_key(v@[i].0@)
                && cache_contents(*m)[v@[i].0@].last_accessed_ms == v@[i].1,
        forall|i: int, j: int| 0 <= i < j < v@.len() ==> v@[i].0@ != v@[j].0@,
        forall|k: (Seq<char>, RecordType)| #[trigger]
            cache_contents(*m).contains_key(k) ==> exists|i: int| 0 <= i < v@.len() && v@[i].0@ == k,
{
    m.iter().map(|e| (e.key().clone(), e.value().last_accessed_ms)).collect()
}

/// Position `j` steps after `offset` on a ring of `n` positions.
pub open spec fn rotated(offset: int, j: int, n: int) -> int {
    if offset + j >= n {
        offset + j - n
    } else {
        offset + j
    }
}

/// What writing `key` does to the keys of the cache with room for
/// `max_entries` (more than 0): a key already there leaves the keys as they
/// were; a new key joins them, and where that goes past `max_entries`,
/// entries other than it are evicted, each the least recently read of an
/// eviction sample, until exactly `max_entries` remain.
pub open spec fn write_room(
    old: Map<(Seq<char>, RecordType), CacheEntry>,
    new: Map<(Seq<char>, RecordType), CacheEntry>,
    key: (Seq<char>, RecordType),
    max_entries: nat,
) -> bool {
    &&& old.contains_key(key) ==> new.dom() == old.dom()
    &&& !old.contains_key(key) ==> new.len() == if old.len() < max_entries {
        old.len() + 1
    } else {
        max_entries
    }
    &&& !old.contains_key(key) && old.len() < max_entries ==> new.dom() == old.dom().insert(key)
    &&& !old.contains_key(key) ==> exists|victims: Seq<(Seq<char>, RecordType)>|
        #[trigger] evicted_in_turn(old.insert(key, new[key]), victims, key) && new == without_keys(
            old.insert(key, new[key]),
            victims,
        )
}

/// A sample of the cache's keys for one eviction attempt: distinct keys of
/// entries other than `protected`, at most `EVICTION_SAMPLE_SIZE` of them,
/// and fewer only when it holds every such key.
pub open spec fn eviction_sample(
    entries: Map<(Seq<char>, RecordType), CacheEntry>,
    sample: Seq<(Seq<char>, RecordType)>,
    protected: (Seq<char>, RecordType),
) -> bool {
    &&& sample.len() <= EVICTION_SAMPLE_SIZE
    &&& sample.no_duplicates()
    &&& forall|i: int| 0 <= i < sample.len() ==> entries.contains_key(#[trigger] sample[i]) && sample[i] != protected
    &&& sample.len() < EVICTION_SAMPLE_SIZE ==> forall|k: (Seq<char>, RecordType)|
        #[trigger] entries.contains_key(k) && k != protected ==> sample.contains(k)
}

/// `victim` is, of some eviction sample of the entries, the one read least
/// recently.
pub open spec fn least_recent_in_sample(
    entries: Map<(Seq<char>, RecordType), CacheEntry>,
    victim: (Seq<char>, RecordType),
    protected: (Seq<char>, RecordType),
) -> bool {
    exists|sample: Seq<(Seq<char>, RecordType)>|
        #[trigger] eviction_sample(entries, sample, protected) && sample.contains(victim) && forall|i: int|
            0 <= i < sample.len() ==> entries[victim].last_accessed_ms <= entries[#[trigger] sample[i]].last_accessed_ms
}

/// The entries left when the `victims` are removed, in order.
pub open spec fn without_keys(
    m: Map<(Seq<char>, RecordType), CacheEntry>,
    victims: Seq<(Seq<char>, RecordType)>,
) -> Map<(Seq<char>, RecordType), CacheEntry>
    decreases victims.len(),
{
    if victims.len() == 0 {
        m
    } else {
        without_keys(m, victims.drop_last()).remove(victims.last())
    }
}

/// The `i`-th victim, when its turn came, was present and the least
/// recently read of an eviction sample of the entries left.
pub open spec fn evicted_at_turn(
    before: Map<(Seq<char>, RecordType), CacheEntry>,
    victims: Seq<(Seq<char>, RecordType)>,
    i: int,
    protected: (Seq<char>, RecordType),
) -> bool {
    let left = without_keys(before, victims.take(i));
    left.contains_key(victims[i]) && least_recent_in_sample(left, victims[i], protected)
}

/// The `victims` were evicted one at a time, each the least recently read
/// of an eviction sample of the entries left.
pub open spec fn evicted_in_turn(
    before: Map<(Seq<char>, RecordType), CacheEntry>,
    victims: Seq<(Seq<char>, RecordType)>,
    protected: (Seq<char>, RecordType),
) -> bool {
    forall|i: int| 0 <= i < victims.len() ==> #[trigger] evicted_at_turn(before, victims, i, protected)
}

/// One more eviction extends a run of evictions.
proof fn lemma_eviction_step(
    before: Map<(Seq<char>, RecordType), CacheEntry>,
    victims: Seq<(Seq<char>, RecordType)>,
    victim: (Seq<char>, RecordType),
    protected: (Seq<char>, RecordType),
)
    requires
        evicted_in_turn(before, victims, protected),
        without_keys(before, victims).contains_key(victim),
        least_recent_in_sample(without_keys(before, victims), victim, protected),
    ensures
        evicted_in_turn(before, victims.push(victim), protected),
        without_keys(before, victims.push(victim)) == without_keys(before, victims).remove(victim),
{
    let vs = victims.push(victim);
    assert(vs.drop_last() =~= victims);
    assert forall|i: int| 0 <= i < vs.len() implies #[trigger] evicted_at_turn(before, vs, i, protected) by {
        if i < victims.len() {
            assert(vs.take(i) =~= victims.take(i));
            assert(evicted_at_turn(before, victims, i, protected));
        } else {
            assert(vs.take(i) =~= victims);
        }
    }
}

/// A run of evictions without its last one is a run of evictions.
proof fn lemma_eviction_prefix(
    before: Map<(Seq<char>, RecordType), CacheEntry>,
    victims: Seq<(Seq<char>, RecordType)>,
    protected: (Seq<char>, RecordType),
)
    requires
        evicted_in_turn(before, victims, protected),
        victims.len() > 0,
    ensures
        evicted_in_turn(before, victims.drop_last(), protected),
        evicted_at_turn(before, victims, victims.len() - 1, protected),
{
    let vs = victims.drop_last();
    assert forall|i: int| 0 <= i < vs.len() implies #[trigger] evicted_at_turn(before, vs, i, protected) by {
        assert(vs.take(i) =~= victims.take(i));
        assert(evicted_at_turn(before, victims, i, protected));
    }
    assert(evicted_at_turn(before, victims, victims.len() - 1, protected));
}

/// Evictions only remove entries, one each, never the protected one.
proof fn lemma_evictions_remove_only(
    before: Map<(Seq<char>, RecordType), CacheEntry>,
    victims: Seq<(Seq<char>, RecordType)>,
    protected: (Seq<char>, RecordType),
)
    requires
        evicted_in_turn(before, victims, protected),
        before.dom().finite(),
    ensures
        sub_entries(without_keys(before, victims), before),
        before.contains_key(protected) ==> without_keys(before, victims).contains_key(protected),
        without_keys(before, victims).dom().finite(),
        without_keys(before, victims).len() + victims.len() == before.len(),
    decreases victims.len(),
{
    if victims.len() > 0 {
        lemma_eviction_prefix(before, victims, protected);
        lemma_evictions_remove_only(before, victims.drop_last(), protected);
        let left = without_keys(before, victims.drop_last());
        let v = victims.last();
        assert(victims.take(victims.len() - 1) =~= victims.drop_last());
        assert(left.contains_key(v) && least_recent_in_sample(left, v, protected));
        let sample = choose|sample: Seq<(Seq<char>, RecordType)>|
            #[trigger] eviction_sample(left, sample, protected) && sample.contains(v) && forall|i: int|
                0 <= i < sample.len() ==> left[v].last_accessed_ms <= left[#[trigger] sample[i]].last_accessed_ms;
        assert(v != protected);
    }
}

/// Two runs of evictions in a row are one run.
proof fn lemma_evictions_compose(
    m: Map<(Seq<char>, RecordType), CacheEntry>,
    v1: Seq<(Seq<char>, RecordType)>,
    v2: Seq<(Seq<char>, RecordType)>,
    protected: (Seq<char>, RecordType),
)
    requires
        evicted_in_turn(m, v1, protected),
        evicted_in_turn(without_keys(m, v1), v2, protected),
    ensures
        evicted_in_turn(m, v1 + v2, protected),
        without_keys(m, v1 + v2) == without_keys(without_keys(m, v1), v2),
    decreases v2.len(),
{
    if v2.len() == 0 {
        assert(v1 + v2 =~= v1);
    } else {
        lemma_eviction_prefix(without_keys(m, v1), v2, protected);
        lemma_evictions_compose(m, v1, v2.drop_last(), protected);
        let v = v2.last();
        assert(v2.take(v2.len() - 1) =~= v2.drop_last());
        lemma_eviction_step(m, v1 + v2.drop_last(), v, protected);
        assert((v1 + v2.drop_last()).push(v) =~= v1 + v2);
    }
}

fn rotate(offset: usize, j: usize, n: usize) -> (r: usize)
    requires
        offset < n,
        j < n,
    ensures
        r == rotated(offset as int, j as int, n as int),
        r < n,
{
    if offset >= n - j {
        offset - (n - j)
    } else {
        offset + j
    }
}

/// The response cache.
pub struct CacheManager {
    cache: DashMap<CacheKey, CacheEntry>,
    config: CacheConfig,
    hits: u64,
    misses: u64,
    eviction_cursor: usize,
}

/// `after` holds exactly the entries of `before` that have not expired at
/// `now`.
pub open spec fn swept_at(
    before: Map<(Seq<char>, RecordType), CacheEntry>,
    after: Map<(Seq<char>, RecordType), CacheEntry>,
    now: u64,
) -> bool {
    forall|k: (Seq<char>, RecordType)| #[trigger]
        after.contains_key(k) <==> before.contains_key(k) && !expired_at(before[k], now)
}

/// A read of `key` at `now` from `old`, leaving `new` and answering `r`:
/// a live entry is served, counted as a hit and marked read at `now`;
/// a missing or expired one is counted as a miss.
pub open spec fn read_outcome(
    old: CacheManager,
    new: CacheManager,
    key: (Seq<char>, RecordType),
    now: u64,
    r: Option<DnsResponse>,
) -> bool {
    match served(old.entries(), key, now) {
        Some(e) => {
            &&& r matches Some(resp) && same_response(resp, e.response)
            &&& new.hits_view() == count_up(old.hits_view())
            &&& new.misses_view() == old.misses_view()
            &&& new.entries().dom() == old.entries().dom()
            &&& new.entries()[key].last_accessed_ms == now
            &&& same_response(new.entries()[key].response, e.response)
            &&& new.entries()[key].expires_at_ms == e.expires_at_ms
            &&& new.entries()[key].created_at_ms == e.created_at_ms
            &&& forall|k: (Seq<char>, RecordType)|
                k != key && #[trigger] old.entries().contains_key(k) ==> new.entries()[k]
                    == old.entries()[k]
        },
        None => {
            &&& r is None
            &&& new.hits_view() == old.hits_view()
            &&& new.misses_view() == count_up(old.misses_view())
            &&& new.entries() == old.entries()
        },
    }
}

impl CacheManager {
    /// The stored entries, by key view.
    pub closed spec fn entries(&self) -> Map<(Seq<char>, RecordType), CacheEntry> {
        cache_contents(self.cache)
    }

    /// The configuration.
    pub closed spec fn config_view(&self) -> CacheConfig {
        self.config
    }

    /// The hit count.
    pub closed spec fn hits_view(&self) -> u64 {
        self.hits
    }

    /// The miss count.
    pub closed spec fn misses_view(&self) -> u64 {
        self.misses
    }

    /// The cache holds finitely many entries.
    pub closed spec fn wf(&self) -> bool {
        cache_contents(self.cache).dom().finite()
    }

    /// An empty cache with the default configuration.
    pub fn new() -> (c: CacheManager)
        ensures
            c.wf(),
            c.entries().dom() == Set::<(Seq<char>, RecordType)>::empty(),
            c.config_view().default_ttl == 60,
            c.config_view().max_entries == 10000,
            c.hits_view() == 0,
            c.misses_view() == 0,
    {
        Self::with_config(CacheConfig::default())
    }

    /// An empty cache with the given configuration.
    pub fn with_config(config: CacheConfig) -> (c: CacheManager)
        ensures
            c.wf(),
            c.entries().dom() == Set::<(Seq<char>, RecordType)>::empty(),
            c.config_view() == config,
            c.hits_view() == 0,
            c.misses_view() == 0,
    {
        let cache = map_new();
        CacheManager { cache, config, hits: 0, misses: 0, eviction_cursor: 0 }
    }

    /// The response cached under `key` at `now_ms`. A live entry counts a
    /// hit and records the read; a missing or expired one counts a miss.
    pub fn get_at(&mut self, key: &CacheKey, now_ms: u64) -> (r: Option<DnsResponse>)
        requires
            old(self).wf(),
        ensures
            final(self).wf(),
            final(self).config_view() == old(self).config_view(),
            read_outcome(*old(self), *final(self), key@, now_ms, r),
    {
        match map_get(&self.cache, key) {
            Some(e) => {
                if !e.is_expired_at(now_ms) {
                    self.hits = count_up_exec(self.hits);
                    let mut e = e;
                    e.touch_at(now_ms);
                    let resp: DnsResponse = e.response.clone();
                    let ghost before = cache_contents(self.cache);
                    map_insert(&mut self.cache, key.clone(), e);
                    proof {
                        assert(cache_contents(self.cache).dom() =~= before.dom());
                    }
                    return Some(resp);
                }
            },
            None => {},
        }
        self.misses = count_up_exec(self.misses);
        None
    }

    /// The response cached under `key`, read at the current time.
    pub fn get(&mut self, key: &CacheKey) -> (r: Option<DnsResponse>)
        requires
            old(self).wf(),
        ensures
            final(self).wf(),
            final(self).config_view() == old(self).config_view(),
            exists|now: u64| read_outcome(*old(self), *final(self), key@, now, r),
    {
        let now: u64 = unix_millis_now();
        self.get_at(key, now)
    }

    /// How long, in seconds, `response` may be cached: its smallest answer
    /// TTL clamped to 5..=3600, or `fallback_secs` when it has no answer.
    pub fn effective_ttl(response: &DnsResponse, fallback_secs: u64) -> (secs: u64)
        ensures
            secs == effective_ttl_secs(response.answers@, fallback_secs),
    {
        match response.min_answer_ttl() {
            Some(ttl) => {
                let t: u64 = ttl as u64;
                if t < MIN_CACHE_TTL_SECS {
                    MIN_CACHE_TTL_SECS
                } else if t > MAX_CACHE_TTL_SECS {
                    MAX_CACHE_TTL_SECS
                } else {
                    t
                }
            },
            None => fallback_secs,
        }
    }

    /// Stores `response` under `key` for the lifetime its answers allow
    /// (see `effective_ttl`), within the configured capacity.
    pub fn set(&mut self, key: CacheKey, response: DnsResponse)
        requires
            old(self).wf(),
        ensures
            final(self).wf(),
            final(self).config_view() == old(self).config_view(),
            final(self).hits_view() == old(self).hits_view(),
            final(self).misses_view() == old(self).misses_view(),
            old(self).config_view().max_entries == 0 ==> final(self).entries() == old(
                self,
            ).entries(),
            old(self).config_view().max_entries > 0 ==> {
                &&& final(self).entries().contains_key(key@)
                &&& same_response(final(self).entries()[key@].response, response)
                &&& final(self).entries()[key@].expires_at_ms == saturated_sum(
                    final(self).entries()[key@].created_at_ms,
                    old(self).lifetime_ms(response),
                )
                &&& write_room(
                    old(self).entries(),
                    final(self).entries(),
                    key@,
                    old(self).config_view().max_entries as nat,
                )
                &&& forall|k: (Seq<char>, RecordType)|
                    k != key@ && #[trigger] final(self).entries().contains_key(k)
                        ==> old(self).entries().contains_key(k) && final(self).entries()[k]
                        == old(self).entries()[k]
            },
    {
        self.set_at(key, response, unix_millis_now());
    }

    /// The lifetime, in milliseconds, that `set_at` gives a response.
    pub open spec fn lifetime_ms(&self, response: DnsResponse) -> u64 {
        let secs = effective_ttl_secs(response.answers@, self.config_view().default_ttl);
        if secs > u64::MAX / 1000 {
            u64::MAX
        } else {
            (secs * 1000) as u64
        }
    }

    /// Stores `response` under `key`, written at `now_ms`, for the lifetime
    /// its answers allow, within the configured capacity.
    pub fn set_at(&mut self, key: CacheKey, response: DnsResponse, now_ms: u64)
        requires
            old(self).wf(),
        ensures
            final(self).wf(),
            final(self).config_view() == old(self).config_view(),
            final(self).hits_view() == old(self).hits_view(),
            final(self).misses_view() == old(self).misses_view(),
            old(self).config_view().max_entries == 0 ==> final(self).entries() == old(
                self,
            ).entries(),
            old(self).config_view().max_entries > 0 ==> {
                &&& final(self).entries().contains_key(key@)
                &&& entry_written(
                    final(self).entries()[key@],
                    response,
                    old(self).lifetime_ms(response),
                    now_ms,
                )
                &&& write_room(
                    old(self).entries(),
                    final(self).entries(),
                    key@,
                    old(self).config_view().max_entries as nat,
                )
                &&& forall|k: (Seq<char>, RecordType)|
                    k != key@ && #[trigger] final(self).entries().contains_key(k)
                        ==> old(self).entries().contains_key(k) && final(self).entries()[k]
                        == old(self).entries()[k]
            },
    {
        let fallback: u64 = self.config.default_ttl;
        let max_entries: usize = self.config.max_entries;
        let secs: u64 = Self::effective_ttl(&response, fallback);
        let ttl_ms: u64 = if secs > u64::MAX / 1000 {
            u64::MAX
        } else {
            secs * 1000
        };
        self.set_with_ttl_at(key, response, ttl_ms, max_entries, now_ms);
    }

    /// Stores `response` under `key`, written now, for `ttl_ms`.
    pub fn set_with_ttl(&mut self, key: CacheKey, response: DnsResponse, ttl_ms: u64, max_entries: usize)
        requires
            old(self).wf(),
        ensures
            final(self).wf(),
            final(self).config_view() == old(self).config_view(),
            final(self).hits_view() == old(self).hits_view(),
            final(self).misses_view() == old(self).misses_view(),
            max_entries == 0 ==> final(self).entries() == old(self).entries(),
            max_entries > 0 ==> {
                &&& final(self).entries().contains_key(key@)
                &&& same_response(final(self).entries()[key@].response, response)
                &&& final(self).entries()[key@].expires_at_ms == saturated_sum(
                    final(self).entries()[key@].created_at_ms,
                    ttl_ms,
                )
                &&& write_room(old(self).entries(), final(self).entries(), key@, max_entries as nat)
                &&& forall|k: (Seq<char>, RecordType)|
                    k != key@ && #[trigger] final(self).entries().contains_key(k)
                        ==> old(self).entries().contains_key(k) && final(self).entries()[k]
                        == old(self).entries()[k]
            },
    {
        self.set_with_ttl_at(key, response, ttl_ms, max_entries, unix_millis_now());
    }

    /// Stores `response` under `key`, written at `now_ms`, for `ttl_ms`.
    ///
    /// With `max_entries` 0 nothing is stored. Replacing an existing key
    /// evicts nothing, and neither does a new key while there is room. A new
    /// key that goes past `max_entries` evicts entries other than itself,
    /// each the least recently read of an eviction sample, until
    /// `max_entries` remain (`write_room`).
    pub fn set_with_ttl_at(
        &mut self,
        key: CacheKey,
        response: DnsResponse,
        ttl_ms: u64,
        max_entries: usize,
        now_ms: u64,
    )
        requires
            old(self).wf(),
        ensures
            final(self).wf(),
            final(self).config_view() == old(self).config_view(),
            final(self).hits_view() == old(self).hits_view(),
            final(self).misses_view() == old(self).misses_view(),
            max_entries == 0 ==> final(self).entries() == old(self).entries(),
            max_entries > 0 ==> {
                &&& final(self).entries().contains_key(key@)
                &&& entry_written(final(self).entries()[key@], response, ttl_ms, now_ms)
                &&& write_room(old(self).entries(), final(self).entries(), key@, max_entries as nat)
                &&& forall|k: (Seq<char>, RecordType)|
                    k != key@ && #[trigger] final(self).entries().contains_key(k)
                        ==> old(self).entries().contains_key(k) && final(self).entries()[k]
                        == old(self).entries()[k]
            },
    {
        if max_entries == 0 {
            return;
        }
        let ghost old_entries = cache_contents(self.cache);
        let protected: CacheKey = key.clone();
        let entry: CacheEntry = CacheEntry::new_at(response, ttl_ms, now_ms);
        let ghost written = entry;
        let previous: Option<CacheEntry> = map_insert(&mut self.cache, key, entry);
        let ghost inserted = cache_contents(self.cache);
        proof {
            assert(inserted.dom() =~= old_entries.dom().insert(protected@));
        }
        if previous.is_some() {
            proof {
                assert(inserted.dom() =~= old_entries.dom());
            }
            return;
        }
        proof {
            assert(inserted.len() == old_entries.len() + 1);
        }
        let ghost mut victims: Seq<(Seq<char>, RecordType)> = Seq::empty();
        let mut len: usize = map_len(&self.cache);
        while len > max_entries
            invariant
                len == cache_contents(self.cache).len(),
                cache_contents(self.cache).dom().finite(),
                inserted.dom().finite(),
                max_entries > 0,
                inserted.contains_key(protected@),
                inserted[protected@] == written,
                cache_contents(self.cache).contains_key(protected@),
                cache_contents(self.cache)[protected@] == written,
                sub_entries(cache_contents(self.cache), inserted),
                evicted_in_turn(inserted, victims, protected@),
                cache_contents(self.cache) == without_keys(inserted, victims),
                inserted.len() > max_entries ==> len >= max_entries,
                inserted.len() <= max_entries ==> victims.len() == 0,
                self.config == old(self).config,
                self.hits == old(self).hits,
                self.misses == old(self).misses,
            ensures
                len <= max_entries,
                inserted.len() > max_entries ==> len == max_entries,
                inserted.len() <= max_entries ==> victims.len() == 0,
                evicted_in_turn(inserted, victims, protected@),
                cache_contents(self.cache) == without_keys(inserted, victims),
            decreases len,
        {
            let before: usize = len;
            let ghost mid = cache_contents(self.cache);
            let v = self.perform_eviction(max_entries, &protected);
            proof {
                lemma_evictions_compose(inserted, victims, v@, protected@);
                victims = victims + v@;
                lemma_evictions_remove_only(inserted, victims, protected@);
            }
            len = map_len(&self.cache);
            if len >= before {
                break;
            }
        }
        proof {
            if inserted.len() <= max_entries {
                assert(victims =~= Seq::<(Seq<char>, RecordType)>::empty());
            }
            assert(written == cache_contents(self.cache)[protected@]);
            assert(old_entries.insert(protected@, cache_contents(self.cache)[protected@]) == inserted);
            assert(evicted_in_turn(old_entries.insert(protected@, cache_contents(self.cache)[protected@]), victims, protected@));
            assert forall|k: (Seq<char>, RecordType)|
                k != protected@ && #[trigger] cache_contents(self.cache).contains_key(k) implies
                old_entries.contains_key(k) && cache_contents(self.cache)[k] == old_entries[k] by {
                assert(inserted.contains_key(k));
            }
        }
    }

    /// One eviction attempt, the `attempt`-th of a call: looks at up to
    /// `EVICTION_SAMPLE_SIZE` entries other than `protected_key`, walking
    /// the map from a rotating position, and removes the one read least
    /// recently.
    fn evict_sampled(&mut self, protected_key: &CacheKey, attempt: usize) -> (victim: Ghost<(Seq<char>, RecordType)>)
        requires
            old(self).wf(),
            old(self).entries().len() >= 2,
        ensures
            final(self).config == old(self).config,
            final(self).hits == old(self).hits,
            final(self).misses == old(self).misses,
            old(self).entries().contains_key(victim@),
            least_recent_in_sample(old(self).entries(), victim@, protected_key@),
            final(self).entries() == old(self).entries().remove(victim@),
    {
        let ghost entries = cache_contents(self.cache);
        let start: usize = self.eviction_cursor;
        self.eviction_cursor = if start == usize::MAX {
            0
        } else {
            start + 1
        };
        let listing: Vec<(CacheKey, u64)> = map_access_times(&self.cache);
        let n: usize = listing.len();
        let offset: usize = rotate(start % n, attempt % n, n);
        let mut candidate: usize = 0;
        let mut best: u64 = 0;
        let mut sampled: usize = 0;
        let mut skipped: usize = 0;
        let ghost mut sample: Seq<(Seq<char>, RecordType)> = Seq::empty();
        let mut j: usize = 0;
        while j < n && sampled < EVICTION_SAMPLE_SIZE
            invariant
                entries == cache_contents(self.cache),
                n == listing@.len(),
                n == entries.len(),
                n >= 2,
                offset < n,
                0 <= j <= n,
                sampled + skipped == j,
                skipped <= 1,
                sampled == sample.len(),
                sampled <= EVICTION_SAMPLE_SIZE,
                skipped == 1 ==> exists|jj: int|
                    0 <= jj < j && (#[trigger] listing@[rotated(offset as int, jj, n as int)]).0@
                        == protected_key@,
                forall|i: int, k: int| 0 <= i < k < n ==> listing@[i].0@ != listing@[k].0@,
                forall|i: int|
                    0 <= i < n ==> #[trigger] entries.contains_key(listing@[i].0@)
                        && entries[listing@[i].0@].last_accessed_ms == listing@[i].1,
                forall|i: int|
                    0 <= i < sample.len() ==> exists|jj: int|
                        0 <= jj < j && #[trigger] sample[i] == listing@[rotated(offset as int, jj, n as int)].0@,
                forall|i: int| 0 <= i < sample.len() ==> #[trigger] entries.contains_key(sample[i]) && sample[i] != protected_key@,
                forall|jj: int|
                    0 <= jj < j && (#[trigger] listing@[rotated(offset as int, jj, n as int)]).0@
                        != protected_key@ ==> sample.contains(listing@[rotated(offset as int, jj, n as int)].0@),
                sample.no_duplicates(),
                sampled > 0 ==> candidate < n && listing@[candidate as int].0@ != protected_key@
                    && sample.contains(listing@[candidate as int].0@) && listing@[candidate as int].1 == best,
                forall|i: int| 0 <= i < sample.len() ==> best <= entries[#[trigger] sample[i]].last_accessed_ms,
                self.config == old(self).config,
                self.hits == old(self).hits,
                self.misses == old(self).misses,
            decreases n - j,
        {
            let idx: usize = rotate(offset, j, n);
            if same_key(&listing[idx].0, protected_key) {
                proof {
                    if skipped == 1 {
                        let jj = choose|jj: int|
                            0 <= jj < j && (#[trigger] listing@[rotated(offset as int, jj, n as int)]).0@
                                == protected_key@;
                        let i = rotated(offset as int, jj, n as int);
                        assert(i != idx);
                        if i < idx {
                            assert(listing@[i].0@ != listing@[idx as int].0@);
                        } else {
                            assert(listing@[idx as int].0@ != listing@[i].0@);
                        }
                    }
                    assert(listing@[rotated(offset as int, j as int, n as int)].0@ == protected_key@);
                }
                skipped = skipped + 1;
            } else {
                let t: u64 = listing[idx].1;
                let ghost key = listing@[idx as int].0@;
                proof {
                    assert forall|i: int| 0 <= i < sample.len() implies sample[i] != key by {
                        let jj = choose|jj: int|
                            0 <= jj < j && #[trigger] sample[i] == listing@[rotated(offset as int, jj, n as int)].0@;
                        let p = rotated(offset as int, jj, n as int);
                        assert(p != idx);
                        if p < idx {
                            assert(listing@[p].0@ != listing@[idx as int].0@);
                        } else {
                            assert(listing@[idx as int].0@ != listing@[p].0@);
                        }
                    }
                    assert(entries.contains_key(listing@[idx as int].0@));
                }
                let ghost old_sample = sample;
                proof {
                    sample = sample.push(key);
                    assert(sample[sample.len() - 1] == key);
                    assert forall|i: int| 0 <= i < old_sample.len() implies sample[i] == old_sample[i] by {}
                }
                if sampled == 0 || t < best {
                    candidate = idx;
                    best = t;
                }
                sampled = sampled + 1;
                proof {
                    assert(sample.contains(key));
                    assert forall|i: int| 0 <= i < sample.len() implies exists|jj: int|
                        0 <= jj < j + 1 && #[trigger] sample[i] == listing@[rotated(offset as int, jj, n as int)].0@ by {
                        if i < old_sample.len() {
                            assert(old_sample[i] == sample[i]);
                            assert(exists|jj: int| 0 <= jj < j && #[trigger] old_sample[i] == listing@[rotated(offset as int, jj, n as int)].0@);
                        } else {
                            assert(sample[i] == listing@[rotated(offset as int, j as int, n as int)].0@);
                        }
                    }
                    assert forall|i: int| 0 <= i < sample.len() implies best <= entries[#[trigger] sample[i]].last_accessed_ms by {
                        if i < old_sample.len() {
                            assert(old_sample[i] == sample[i]);
                        }
                    }
                    assert forall|jj: int|
                        0 <= jj < j + 1 && (#[trigger] listing@[rotated(offset as int, jj, n as int)]).0@
                            != protected_key@ implies sample.contains(listing@[rotated(offset as int, jj, n as int)].0@) by {
                        if jj < j {
                            let x = listing@[rotated(offset as int, jj, n as int)].0@;
                            assert(old_sample.contains(x));
                            let i = choose|i: int| 0 <= i < old_sample.len() && old_sample[i] == x;
                            assert(sample[i] == x);
                        } else {
                            assert(sample[sample.len() - 1] == key);
                        }
                    }
                    if old_sample.contains(listing@[candidate as int].0@) {
                        let i = choose|i: int| 0 <= i < old_sample.len() && old_sample[i] == listing@[candidate as int].0@;
                        assert(sample[i] == old_sample[i]);
                    }
                }
            }
            j = j + 1;
        }
        proof {
            assert(sampled > 0);
            assert(eviction_sample(entries, sample, protected_key@)) by {
                if sample.len() < EVICTION_SAMPLE_SIZE {
                    assert(j == n);
                    assert forall|k: (Seq<char>, RecordType)| #[trigger] entries.contains_key(k) && k
                        != protected_key@ implies sample.contains(k) by {
                        let p = choose|p: int| 0 <= p < listing@.len() && listing@[p].0@ == k;
                        let jj: int = if p >= offset { p - offset } else { p + n - offset };
                        assert(rotated(offset as int, jj, n as int) == p);
                        assert(listing@[rotated(offset as int, jj, n as int)].0@ != protected_key@);
                    }
                }
            }
        }
        let ghost victim = listing@[candidate as int].0@;
        map_remove(&mut self.cache, &listing[candidate].0);
        Ghost(victim)
    }

    /// Evicts entries until at most `target_size` remain, within a bounded
    /// number of attempts. Each attempt looks at a few entries, starting at
    /// a rotating position and skipping `protected_key`, and removes the
    /// one read least recently (see `evict_sampled`). A target of 0, or a
    /// cache already at or below the target, is left as it is; otherwise one
    /// entry goes per attempt until the target is reached.
    fn perform_eviction(&mut self, target_size: usize, protected_key: &CacheKey) -> (victims: Ghost<
        Seq<(Seq<char>, RecordType)>,
    >)
        requires
            old(self).wf(),
        ensures
            final(self).wf(),
            final(self).config == old(self).config,
            final(self).hits == old(self).hits,
            final(self).misses == old(self).misses,
            evicted_in_turn(old(self).entries(), victims@, protected_key@),
            final(self).entries() == without_keys(old(self).entries(), victims@),
            sub_entries(final(self).entries(), old(self).entries()),
            old(self).entries().contains_key(protected_key@) ==> final(self).entries().contains_key(
                protected_key@,
            ),
            target_size == 0 || old(self).entries().len() <= target_size ==> victims@.len() == 0,
            target_size > 0 && old(self).entries().len() > target_size ==> final(self).entries().len()
                == if old(self).entries().len() - target_size <= EVICTION_MAX_ATTEMPTS {
                target_size as int
            } else {
                old(self).entries().len() - EVICTION_MAX_ATTEMPTS
            },
    {
        let ghost start_entries = cache_contents(self.cache);
        let ghost mut victims: Seq<(Seq<char>, RecordType)> = Seq::empty();
        if target_size == 0 {
            return Ghost(victims);
        }
        let mut attempt: usize = 0;
        while attempt < EVICTION_MAX_ATTEMPTS
            invariant
                0 <= attempt <= EVICTION_MAX_ATTEMPTS,
                target_size > 0,
                start_entries.dom().finite(),
                victims.len() == attempt,
                evicted_in_turn(start_entries, victims, protected_key@),
                cache_contents(self.cache) == without_keys(start_entries, victims),
                attempt > 0 ==> cache_contents(self.cache).len() >= target_size,
                self.config == old(self).config,
                self.hits == old(self).hits,
                self.misses == old(self).misses,
            ensures
                victims.len() == attempt,
                evicted_in_turn(start_entries, victims, protected_key@),
                cache_contents(self.cache) == without_keys(start_entries, victims),
                attempt > 0 ==> cache_contents(self.cache).len() >= target_size,
                cache_contents(self.cache).len() <= target_size || attempt == EVICTION_MAX_ATTEMPTS,
            decreases EVICTION_MAX_ATTEMPTS - attempt,
        {
            proof {
                lemma_evictions_remove_only(start_entries, victims, protected_key@);
            }
            let len: usize = map_len(&self.cache);
            if len <= target_size {
                break;
            }
            let v = self.evict_sampled(protected_key, attempt);
            proof {
                lemma_eviction_step(start_entries, victims, v@, protected_key@);
                victims = victims.push(v@);
            }
            attempt = attempt + 1;
        }
        proof {
            lemma_evictions_remove_only(start_entries, victims, protected_key@);
        }
        Ghost(victims)
    }

    /// Removes every entry and resets the counters.
    pub fn clear(&mut self)
        requires
            old(self).wf(),
        ensures
            final(self).wf(),
            final(self).entries().dom() == Set::<(Seq<char>, RecordType)>::empty(),
            final(self).hits_view() == 0,
            final(self).misses_view() == 0,
            final(self).config_view() == old(self).config_view(),
    {
        map_clear(&mut self.cache);
        self.hits = 0;
        self.misses = 0;
    }

    /// Removes the entries of `domain`, of every record type, comparing
    /// names with its lowercase form ignoring ASCII case.
    pub fn clear_domain(&mut self, domain: &str)
        requires
            old(self).wf(),
        ensures
            final(self).wf(),
            forall|k: (Seq<char>, RecordType)| #[trigger]
                final(self).entries().contains_key(k) <==> old(self).entries().contains_key(k)
                    && ascii_lower(k.0) != ascii_lower(lowercase(domain@)),
            sub_entries(final(self).entries(), old(self).entries()),
            final(self).hits_view() == old(self).hits_view(),
            final(self).misses_view() == old(self).misses_view(),
            final(self).config_view() == old(self).config_view(),
    {
        let lower: String = to_lowercase(domain);
        let rule: Retention = Retention::OutsideDomain(chars_of(lower.as_str()));
        map_retain(&mut self.cache, &rule);
        proof {
            vstd::set_lib::lemma_len_subset(
                cache_contents(self.cache).dom(),
                old(self).entries().dom(),
            );
        }
    }

    /// Removes the entries that have expired at `now_ms`.
    pub fn cleanup_expired_at(&mut self, now_ms: u64)
        requires
            old(self).wf(),
        ensures
            final(self).wf(),
            forall|k: (Seq<char>, RecordType)| #[trigger]
                final(self).entries().contains_key(k) <==> old(self).entries().contains_key(k)
                    && !expired_at(old(self).entries()[k], now_ms),
            sub_entries(final(self).entries(), old(self).entries()),
            final(self).hits_view() == old(self).hits_view(),
            final(self).misses_view() == old(self).misses_view(),
            final(self).config_view() == old(self).config_view(),
    {
        let rule: Retention = Retention::UnexpiredAt(now_ms);
        map_retain(&mut self.cache, &rule);
        proof {
            vstd::set_lib::lemma_len_subset(
                cache_contents(self.cache).dom(),
                old(self).entries().dom(),
            );
        }
    }

    /// Removes the entries that have expired.
    pub fn cleanup_expired(&mut self)
        requires
            old(self).wf(),
        ensures
            final(self).wf(),
            sub_entries(final(self).entries(), old(self).entries()),
            exists|now: u64| #[trigger] swept_at(old(self).entries(), final(self).entries(), now),
    {
        let now: u64 = unix_millis_now();
        self.cleanup_expired_at(now);
        assert(swept_at(old(self).entries(), self.entries(), now));
    }

    /// The hit and miss counts and the number of entries.
    pub fn stats(&self) -> (s: CacheStats)
        requires
            self.wf(),
        ensures
            s.hits == self.hits_view(),
            s.misses == self.misses_view(),
            s.entries == self.entries().len(),
    {
        CacheStats { hits: self.hits, misses: self.misses, entries: map_len(&self.cache) }
    }

    /// Sets the lifetime of responses without answers.
    pub fn set_ttl(&mut self, ttl_seconds: u64)
        ensures
            final(self).config_view().default_ttl == ttl_seconds,
            final(self).config_view().max_entries == old(self).config_view().max_entries,
            final(self).entries() == old(self).entries(),
            final(self).wf() == old(self).wf(),
    {
        self.config.default_ttl = ttl_seconds;
    }

    /// The lifetime of responses without answers.
    pub fn get_ttl(&self) -> (t: u64)
        ensures
            t == self.config_view().default_ttl,
    {
        self.config.default_ttl
    }

    /// Sets the capacity.
    pub fn set_max_entries(&mut self, max_entries: usize)
        ensures
            final(self).config_view().max_entries == max_entries,
            final(self).config_view().default_ttl == old(self).config_view().default_ttl,
            final(self).entries() == old(self).entries(),
            final(self).wf() == old(self).wf(),
    {
        self.config.max_entries = max_entries;
    }

    /// The configuration.
    pub fn get_config(&self) -> (c: CacheConfig)
        ensures
            c == self.config_view(),
    {
        self.config
    }

    /// Replaces the configuration.
    pub fn update_config(&mut self, config: CacheConfig)
        ensures
            final(self).config_view() == config,
            final(self).entries() == old(self).entries(),
            final(self).hits_view() == old(self).hits_view(),
            final(self).misses_view() == old(self).misses_view(),
            final(self).wf() == old(self).wf(),
    {
        self.config = config;
    }
}


/// The smallest answer TTL exists exactly when there is an answer, and is
/// no larger than any answer's TTL.
pub proof fn lemma_min_ttl_bounds(answers: Seq<DnsRecordData>)
    ensures
        min_ttl(answers) is Some <==> answers.len() > 0,
        forall|i: int| 0 <= i < answers.len() ==> min_ttl(answers)->0 <= (#[trigger] answers[i]).ttl,
    decreases answers.len(),
{
    if answers.len() > 0 {
        lemma_min_ttl_bounds(answers.drop_last());
        assert forall|i: int| 0 <= i < answers.len() implies min_ttl(answers)->0 <= (
        #[trigger] answers[i]).ttl by {
            if i < answers.len() - 1 {
                assert(answers.drop_last()[i] == answers[i]);
            }
        }
    }
}

/// A cached response never outlives one of its answers by more than the
/// lower bound: its lifetime is at most every answer's TTL, or
/// `MIN_CACHE_TTL_SECS` where that is larger. Without answers the fallback
/// applies; with answers the lifetime lies within the bounds.
pub proof fn law_effective_ttl_follows_answers(answers: Seq<DnsRecordData>, fallback: u64)
    ensures
        answers.len() == 0 ==> effective_ttl_secs(answers, fallback) == fallback,
        answers.len() > 0 ==> MIN_CACHE_TTL_SECS <= effective_ttl_secs(answers, fallback)
            <= MAX_CACHE_TTL_SECS,
        forall|i: int|
            0 <= i < answers.len() ==> effective_ttl_secs(answers, fallback) <= (#[trigger] answers[i]).ttl
                || effective_ttl_secs(answers, fallback) == MIN_CACHE_TTL_SECS,
{
    lemma_min_ttl_bounds(answers);
}

/// Keys ignore ASCII case: two ASCII names that differ only in case give
/// the same key name, which is the lowercase one.
pub proof fn law_cache_key_ignores_ascii_case(a: Seq<char>, b: Seq<char>)
    requires
        crate::text::all_ascii(a),
        crate::text::all_ascii(b),
        ascii_lower(a) == ascii_lower(b),
    ensures
        key_name(a) == key_name(b),
        key_name(a) == ascii_lower(a),
{
}

/// What is written is read back: after an entry for `response` is written
/// at `now` for `ttl_ms`, a read under the same key before it expires is
/// served that response, and a read at or after expiry is not served.
pub proof fn law_written_entry_is_served(
    entries: Map<(Seq<char>, RecordType), CacheEntry>,
    key: (Seq<char>, RecordType),
    response: DnsResponse,
    ttl_ms: u64,
    now: u64,
    later: u64,
)
    requires
        entries.contains_key(key),
        entry_written(entries[key], response, ttl_ms, now),
    ensures
        later < saturated_sum(now, ttl_ms) ==> (served(entries, key, later) matches Some(e)
            && same_response(e.response, response)),
        later >= saturated_sum(now, ttl_ms) ==> served(entries, key, later) is None,
{
}

} // verus!
