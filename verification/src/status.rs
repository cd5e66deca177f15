//! Service status: running query counters with a daily count that starts
//! over each day, the state of each upstream server, and the summaries the
//! status API reports.

use vstd::prelude::*;
use std::collections::HashMap;
use chrono::Datelike;
use crate::models::UpstreamServerRow;
use crate::upstream::{avg_time, UpstreamStats};
use crate::text::{chars_of, string_of};

verus! {

broadcast use {vstd::std_specs::hash::group_hash_axioms, vstd::string::group_string_axioms};

/// Calls `chrono::Local::now().date_naive()` and gives the day's number
/// counted from the first day of the common era; nothing is promised of
/// the value, which depends on the clock and the time zone.
#[verifier::external_body]
fn local_day_number() -> i32 {
    chrono::Local::now().date_naive().num_days_from_ce()
}

/// The day's count on day `today`, for a count `count` kept on day `day`:
/// it carries over on the same day and starts over on another.
pub open spec fn day_count(day: i32, count: i64, today: i32) -> i64 {
    if day == today {
        count
    } else {
        0
    }
}

/// A counter advanced by one, wrapping at the bounds of `i64`.
pub open spec fn count_up_i64(n: i64) -> i64 {
    if n == i64::MAX {
        i64::MIN
    } else {
        (n + 1) as i64
    }
}

fn count_up_i64_exec(n: i64) -> (r: i64)
    ensures
        r == count_up_i64(n),
{
    if n == i64::MAX {
        i64::MIN
    } else {
        n + 1
    }
}

/// Query counts as last read.
#[derive(Debug, Clone, Copy)]
pub struct CachedQueryStats {
    pub total_queries: i64,
    pub cache_hits: i64,
    pub queries_today: i64,
}

impl Default for CachedQueryStats {
    fn default() -> (s: CachedQueryStats)
        ensures
            s.total_queries == 0,
            s.cache_hits == 0,
            s.queries_today == 0,
    {
        CachedQueryStats { total_queries: 0, cache_hits: 0, queries_today: 0 }
    }
}

/// Running query counts: all queries, cache hits, and queries of the
/// current day.
#[derive(Debug)]
pub struct StatsCache {
    total_queries: i64,
    cache_hits: i64,
    queries_today: i64,
    current_day: i32,
}

impl StatsCache {
    /// The count of all queries.
    pub closed spec fn total_view(&self) -> i64 {
        self.total_queries
    }

    /// The count of cache hits.
    pub closed spec fn hits_view(&self) -> i64 {
        self.cache_hits
    }

    /// The count of the current day's queries.
    pub closed spec fn today_view(&self) -> i64 {
        self.queries_today
    }

    /// The day the daily count is for.
    pub closed spec fn day_view(&self) -> i32 {
        self.current_day
    }

    /// Counts starting at the given values on day `today`.
    pub fn new_on(total_queries: i64, cache_hits: i64, queries_today: i64, today: i32) -> (s: StatsCache)
        ensures
            s.total_view() == total_queries,
            s.hits_view() == cache_hits,
            s.today_view() == queries_today,
            s.day_view() == today,
    {
        StatsCache { total_queries, cache_hits, queries_today, current_day: today }
    }

    /// Counts starting at the given values today.
    pub fn new(total_queries: i64, cache_hits: i64, queries_today: i64) -> (s: StatsCache)
        ensures
            s.total_view() == total_queries,
            s.hits_view() == cache_hits,
            s.today_view() == queries_today,
    {
        Self::new_on(total_queries, cache_hits, queries_today, local_day_number())
    }

    /// Counts starting at zero today.
    pub fn empty() -> (s: StatsCache)
        ensures
            s.total_view() == 0,
            s.hits_view() == 0,
            s.today_view() == 0,
    {
        Self::new(0, 0, 0)
    }

    /// Replaces the counts, as of day `today`.
    pub fn initialize_on(&mut self, total_queries: i64, cache_hits: i64, queries_today: i64, today: i32)
        ensures
            final(self).total_view() == total_queries,
            final(self).hits_view() == cache_hits,
            final(self).today_view() == queries_today,
            final(self).day_view() == today,
    {
        self.total_queries = total_queries;
        self.cache_hits = cache_hits;
        self.queries_today = queries_today;
        self.current_day = today;
    }

    /// Replaces the counts, as of today.
    pub fn initialize(&mut self, total_queries: i64, cache_hits: i64, queries_today: i64)
        ensures
            final(self).total_view() == total_queries,
            final(self).hits_view() == cache_hits,
            final(self).today_view() == queries_today,
    {
        self.initialize_on(total_queries, cache_hits, queries_today, local_day_number());
    }

    /// Starts the daily count over when the day has changed.
    fn roll_to(&mut self, today: i32)
        ensures
            final(self).day_view() == today,
            final(self).today_view() == (if old(self).day_view() == today {
                old(self).today_view()
            } else {
                0
            }),
            final(self).total_view() == old(self).total_view(),
            final(self).hits_view() == old(self).hits_view(),
    {
        if self.current_day != today {
            self.current_day = today;
            self.queries_today = 0;
        }
    }

    /// Counts one query on day `today`: all queries and the day's queries go
    /// up by one (the day's count starting over on a new day), and cache
    /// hits when it was answered from the cache.
    pub fn record_query_on(&mut self, cache_hit: bool, today: i32)
        ensures
            final(self).day_view() == today,
            final(self).total_view() == count_up_i64(old(self).total_view()),
            final(self).today_view() == count_up_i64(
                if old(self).day_view() == today {
                    old(self).today_view()
                } else {
                    0
                },
            ),
            final(self).hits_view() == (if cache_hit {
                count_up_i64(old(self).hits_view())
            } else {
                old(self).hits_view()
            }),
    {
        self.roll_to(today);
        self.total_queries = count_up_i64_exec(self.total_queries);
        self.queries_today = count_up_i64_exec(self.queries_today);
        if cache_hit {
            self.cache_hits = count_up_i64_exec(self.cache_hits);
        }
    }

    /// Counts one query today.
    pub fn record_query(&mut self, cache_hit: bool)
        ensures
            final(self).total_view() == count_up_i64(old(self).total_view()),
            final(self).hits_view() == (if cache_hit {
                count_up_i64(old(self).hits_view())
            } else {
                old(self).hits_view()
            }),
            exists|today: i32|
                final(self).day_view() == today && final(self).today_view() == count_up_i64(
                    #[trigger] day_count(old(self).day_view(), old(self).today_view(), today),
                ),
    {
        let today: i32 = local_day_number();
        self.record_query_on(cache_hit, today);
        assert(self.today_view() == count_up_i64(
            day_count(old(self).day_view(), old(self).today_view(), today),
        ));
    }

    /// The counts as of day `today`; the daily count is 0 on a new day.
    pub fn get_stats_on(&mut self, today: i32) -> (s: CachedQueryStats)
        ensures
            final(self).day_view() == today,
            final(self).total_view() == old(self).total_view(),
            final(self).hits_view() == old(self).hits_view(),
            s.total_queries == old(self).total_view(),
            s.cache_hits == old(self).hits_view(),
            s.queries_today == (if old(self).day_view() == today {
                old(self).today_view()
            } else {
                0
            }),
            final(self).today_view() == s.queries_today,
    {
        self.roll_to(today);
        CachedQueryStats {
            total_queries: self.total_queries,
            cache_hits: self.cache_hits,
            queries_today: self.queries_today,
        }
    }

    /// The counts as of today.
    pub fn get_stats(&mut self) -> (s: CachedQueryStats)
        ensures
            s.total_queries == old(self).total_view(),
            s.cache_hits == old(self).hits_view(),
            final(self).total_view() == old(self).total_view(),
            final(self).hits_view() == old(self).hits_view(),
            final(self).today_view() == s.queries_today,
            exists|today: i32|
                final(self).day_view() == today && s.queries_today == #[trigger] day_count(
                    old(self).day_view(),
                    old(self).today_view(),
                    today,
                ),
    {
        let today: i32 = local_day_number();
        let s = self.get_stats_on(today);
        assert(s.queries_today == day_count(old(self).day_view(), old(self).today_view(), today));
        s
    }
}

/// Query counts as the status API reports them.
#[derive(Debug)]
pub struct QueryStatusInfo {
    pub total_queries: i64,
    pub cache_hits: i64,
    pub queries_today: i64,
    /// Query log entries dropped because the write queue was full
    pub dropped_log_entries: u64,
}

/// The upstream servers as the status API reports them.
#[derive(Debug)]
pub struct UpstreamsStatusInfo {
    pub total: usize,
    pub healthy: usize,
    pub servers: Vec<UpstreamStatusInfo>,
}

/// One upstream server's state: its configuration and its statistics.
#[derive(Debug)]
pub struct UpstreamStatusInfo {
    pub id: i64,
    pub name: String,
    pub address: String,
    pub protocol: String,
    pub enabled: bool,
    pub healthy: bool,
    pub queries: u64,
    pub failures: u64,
    pub avg_response_time_ms: u64,
}

/// Health as the status API reports it.
#[derive(Debug)]
pub struct HealthCheckResponse {
    pub status: String,
    pub database: bool,
    pub upstreams: bool,
}

impl HealthCheckResponse {
    /// The health answer for the probes: `healthy` when the database and
    /// some upstream answer, else `degraded`.
    pub fn from_report(report: &crate::settings::HealthReport) -> (r: HealthCheckResponse)
        ensures
            r.database == report.database,
            r.upstreams == report.upstreams,
            r.status@ == (if report.database && report.upstreams {
                "healthy"@
            } else {
                "degraded"@
            }),
    {
        HealthCheckResponse {
            status: string_of(&chars_of(report.status())),
            database: report.database,
            upstreams: report.upstreams,
        }
    }
}

/// The state of a server with its statistics, if it has any: without
/// statistics it counts as healthy when enabled, with no traffic.
pub open spec fn status_of(server: UpstreamServerRow, stat: Option<UpstreamStats>, s: UpstreamStatusInfo) -> bool {
    &&& s.id == server.id
    &&& s.name == server.name
    &&& s.address == server.address
    &&& s.protocol == server.protocol
    &&& s.enabled == server.enabled
    &&& s.healthy == match stat {
        Some(st) => st.healthy,
        None => server.enabled,
    }
    &&& s.queries == match stat {
        Some(st) => st.queries,
        None => 0,
    }
    &&& s.failures == match stat {
        Some(st) => st.failures,
        None => 0,
    }
    &&& s.avg_response_time_ms == match stat {
        Some(st) => avg_time(st),
        None => 0,
    }
}

/// The statistics of a server, if the map holds some.
pub open spec fn stat_of(stats: Map<i64, UpstreamStats>, id: i64) -> Option<UpstreamStats> {
    if stats.contains_key(id) {
        Some(stats[id])
    } else {
        None
    }
}

/// The state of every stored server, in order, with its statistics.
pub fn upstream_statuses(servers: Vec<UpstreamServerRow>, stats: &HashMap<i64, UpstreamStats>) -> (r:
    Vec<UpstreamStatusInfo>)
    ensures
        r@.len() == servers@.len(),
        forall|i: int|
            0 <= i < servers@.len() ==> status_of(servers@[i], stat_of(stats@, servers@[i].id), #[trigger] r@[i]),
{
    let mut out: Vec<UpstreamStatusInfo> = Vec::new();
    let mut i: usize = 0;
    while i < servers.len()
        invariant
            0 <= i <= servers@.len(),
            out@.len() == i,
            forall|k: int|
                0 <= k < i ==> status_of(servers@[k], stat_of(stats@, servers@[k].id), #[trigger] out@[k]),
        decreases servers@.len() - i,
    {
        let server: &UpstreamServerRow = &servers[i];
        let stat: Option<UpstreamStats> = match stats.get(&server.id) {
            Some(s) => Some(*s),
            None => None,
        };
        let entry = UpstreamStatusInfo {
            id: server.id,
            name: server.name.clone(),
            address: server.address.clone(),
            protocol: server.protocol.clone(),
            enabled: server.enabled,
            healthy: match stat {
                Some(s) => s.is_healthy(),
                None => server.enabled,
            },
            queries: match stat {
                Some(s) => s.queries,
                None => 0,
            },
            failures: match stat {
                Some(s) => s.failures,
                None => 0,
            },
            avg_response_time_ms: match stat {
                Some(s) => s.avg_response_time_ms(),
                None => 0,
            },
        };
        out.push(entry);
        i = i + 1;
    }
    out
}

/// The number of servers that are enabled and healthy.
pub open spec fn healthy_count(s: Seq<UpstreamStatusInfo>) -> nat
    decreases s.len(),
{
    if s.len() == 0 {
        0
    } else {
        healthy_count(s.drop_last()) + if s.last().enabled && s.last().healthy {
            1nat
        } else {
            0nat
        }
    }
}

/// The upstream summary of the status API: every server, and how many
/// are enabled and healthy.
pub fn upstreams_summary(servers: Vec<UpstreamStatusInfo>) -> (r: UpstreamsStatusInfo)
    ensures
        r.total == servers@.len(),
        r.healthy == healthy_count(servers@),
        r.servers@ == servers@,
{
    let mut healthy: usize = 0;
    let mut i: usize = 0;
    while i < servers.len()
        invariant
            0 <= i <= servers@.len(),
            healthy == healthy_count(servers@.subrange(0, i as int)),
            healthy <= i,
        decreases servers@.len() - i,
    {
        assert(servers@.subrange(0, i + 1).drop_last() =~= servers@.subrange(0, i as int));
        if servers[i].enabled && servers[i].healthy {
            healthy = healthy + 1;
        }
        i = i + 1;
    }
    assert(servers@.subrange(0, servers@.len() as int) =~= servers@);
    UpstreamsStatusInfo { total: servers.len(), healthy, servers }
}

} // verus!
