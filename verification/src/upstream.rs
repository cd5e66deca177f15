//! Upstream servers: protocols, per-server statistics and health, and the
//! manager that keeps the server set and its statistics.

use vstd::prelude::*;
use std::collections::HashMap;
use crate::text::{str_eq, to_lowercase, lowercase};

verus! {

broadcast use {vstd::string::group_string_axioms, vstd::std_specs::hash::group_hash_axioms};

/// Supported upstream DNS protocols.
#[derive(Debug, Clone, Copy, PartialEq, Eq, Hash, Structural)]
pub enum UpstreamProtocol {
    /// Standard UDP DNS (port 53)
    Udp,
    /// DNS over TLS (port 853)
    Dot,
    /// DNS over HTTPS (port 443)
    Doh,
    /// DNS over QUIC (port 853)
    Doq,
    /// DNS over HTTP/3 (port 443)
    Doh3,
}

/// The protocol a text names, compared after lowercasing.
pub open spec fn protocol_of_text(s: Seq<char>) -> Option<UpstreamProtocol> {
    let l = lowercase(s);
    if l == "udp"@ {
        Some(UpstreamProtocol::Udp)
    } else if l == "dot"@ {
        Some(UpstreamProtocol::Dot)
    } else if l == "doh"@ {
        Some(UpstreamProtocol::Doh)
    } else if l == "doq"@ {
        Some(UpstreamProtocol::Doq)
    } else if l == "doh3"@ || l == "h3"@ {
        Some(UpstreamProtocol::Doh3)
    } else {
        None
    }
}

/// The name of a protocol.
pub open spec fn protocol_name(p: UpstreamProtocol) -> Seq<char> {
    match p {
        UpstreamProtocol::Udp => "udp"@,
        UpstreamProtocol::Dot => "dot"@,
        UpstreamProtocol::Doh => "doh"@,
        UpstreamProtocol::Doq => "doq"@,
        UpstreamProtocol::Doh3 => "doh3"@,
    }
}

/// The default port of a protocol.
pub open spec fn protocol_port(p: UpstreamProtocol) -> u16 {
    match p {
        UpstreamProtocol::Udp => 53,
        UpstreamProtocol::Dot => 853,
        UpstreamProtocol::Doh => 443,
        UpstreamProtocol::Doq => 853,
        UpstreamProtocol::Doh3 => 443,
    }
}

impl UpstreamProtocol {
    /// Reads a protocol from its name, in any letter case.
    pub fn from_str(s: &str) -> (r: Option<UpstreamProtocol>)
        ensures
            r == protocol_of_text(s@),
    {
        let lower: String = to_lowercase(s);
        let l: &str = lower.as_str();
        if str_eq(l, "udp") {
            Some(UpstreamProtocol::Udp)
        } else if str_eq(l, "dot") {
            Some(UpstreamProtocol::Dot)
        } else if str_eq(l, "doh") {
            Some(UpstreamProtocol::Doh)
        } else if str_eq(l, "doq") {
            Some(UpstreamProtocol::Doq)
        } else if str_eq(l, "doh3") || str_eq(l, "h3") {
            Some(UpstreamProtocol::Doh3)
        } else {
            None
        }
    }

    /// The name of this protocol.
    pub fn as_str(&self) -> (s: &'static str)
        ensures
            s@ == protocol_name(*self),
    {
        match self {
            UpstreamProtocol::Udp => "udp",
            UpstreamProtocol::Dot => "dot",
            UpstreamProtocol::Doh => "doh",
            UpstreamProtocol::Doq => "doq",
            UpstreamProtocol::Doh3 => "doh3",
        }
    }

    /// The name of this protocol, as a `String`.
    pub fn to_string(&self) -> (s: String)
        ensures
            s@ == protocol_name(*self),
    {
        self.as_str().to_owned()
    }

    /// The default port of this protocol.
    pub fn default_port(&self) -> (p: u16)
        ensures
            p == protocol_port(*self),
    {
        match self {
            UpstreamProtocol::Udp => 53,
            UpstreamProtocol::Dot => 853,
            UpstreamProtocol::Doh => 443,
            UpstreamProtocol::Doq => 853,
            UpstreamProtocol::Doh3 => 443,
        }
    }
}

/// Upstream server configuration.
#[derive(Debug)]
pub struct UpstreamServer {
    /// Server ID from database
    pub id: i64,
    /// Human-readable name
    pub name: String,
    /// Server address (host:port or URL for DoH)
    pub address: String,
    /// Protocol to use
    pub protocol: UpstreamProtocol,
    /// Query timeout in milliseconds
    pub timeout_millis: u64,
    /// Whether this server is enabled
    pub enabled: bool,
}

impl Clone for UpstreamServer {
    fn clone(&self) -> (r: UpstreamServer)
        ensures
            r == *self,
    {
        UpstreamServer {
            id: self.id,
            name: self.name.clone(),
            address: self.address.clone(),
            protocol: self.protocol,
            timeout_millis: self.timeout_millis,
            enabled: self.enabled,
        }
    }
}

impl UpstreamServer {
    /// An enabled server.
    pub fn new(
        id: i64,
        name: &str,
        address: &str,
        protocol: UpstreamProtocol,
        timeout_ms: u32,
    ) -> (s: UpstreamServer)
        ensures
            s.id == id,
            s.name@ == name@,
            s.address@ == address@,
            s.protocol == protocol,
            s.timeout_millis == timeout_ms,
            s.enabled,
    {
        UpstreamServer {
            id,
            name: name.to_owned(),
            address: address.to_owned(),
            protocol,
            timeout_millis: timeout_ms as u64,
            enabled: true,
        }
    }

    /// A server from its stored fields; `None` when the protocol is unknown.
    /// A stored timeout is read as milliseconds, reinterpreted as unsigned.
    pub fn from_db(row: &crate::models::UpstreamServerRow) -> (s: Option<UpstreamServer>)
        ensures
            match protocol_of_text(row.protocol@) {
                Some(p) => s matches Some(v) && v.id == row.id && v.name@ == row.name@
                    && v.address@ == row.address@ && v.protocol == p && v.timeout_millis == (
                row.timeout as u64) && v.enabled == row.enabled,
                None => s is None,
            },
    {
        let protocol: UpstreamProtocol = match UpstreamProtocol::from_str(row.protocol.as_str()) {
            Some(p) => p,
            None => return None,
        };
        Some(
            UpstreamServer {
                id: row.id,
                name: row.name.clone(),
                address: row.address.clone(),
                protocol,
                timeout_millis: row.timeout as u64,
                enabled: row.enabled,
            },
        )
    }

    /// The timeout in milliseconds, truncated to 32 bits.
    pub fn timeout_ms(&self) -> (t: u32)
        ensures
            t == self.timeout_millis as u32,
    {
        self.timeout_millis as u32
    }
}

/// Statistics for an upstream server.
#[derive(Debug, Clone, Copy)]
pub struct UpstreamStats {
    /// Total number of queries sent
    pub queries: u64,
    /// Number of successful responses
    pub successes: u64,
    /// Number of failures (timeouts, errors)
    pub failures: u64,
    /// Total response time in milliseconds
    pub total_response_time_ms: u64,
    /// Last response time in milliseconds
    pub last_response_time_ms: Option<u64>,
    /// Last successful query time, in milliseconds since the Unix epoch
    pub last_success: Option<u64>,
    /// Last failure time, in milliseconds since the Unix epoch
    pub last_failure: Option<u64>,
    /// Whether the server is currently healthy
    pub healthy: bool,
}

/// Counter addition that stops at the largest `u64`.
pub open spec fn sat_add(a: u64, b: u64) -> u64 {
    if a + b > u64::MAX {
        u64::MAX
    } else {
        (a + b) as u64
    }
}

/// Fewer than half of the queries succeeded.
pub open spec fn below_half(successes: u64, queries: u64) -> bool {
    2 * successes < queries
}

/// The average response time of the successful queries, 0 with none.
pub open spec fn avg_time(s: UpstreamStats) -> u64 {
    if s.successes == 0 {
        0
    } else {
        (s.total_response_time_ms / s.successes) as u64
    }
}

/// The average response time is the mean over the successful queries: 0
/// with none; otherwise the largest number that, times the successes, does
/// not exceed the total time of the successful queries.
pub proof fn law_average_is_mean_of_successes(s: UpstreamStats)
    ensures
        s.successes == 0 ==> avg_time(s) == 0,
        s.successes > 0 ==> avg_time(s) * s.successes <= s.total_response_time_ms,
        s.successes > 0 ==> s.total_response_time_ms < (avg_time(s) + 1) * s.successes,
{
    if s.successes > 0 {
        let t = s.total_response_time_ms as int;
        let n = s.successes as int;
        let q = avg_time(s) as int;
        assert(q == t / n);
        assert(q * n <= t && t < (q + 1) * n) by (nonlinear_arith)
            requires
                n > 0,
                t >= 0,
                q == t / n,
        ;
    }
}

/// A failed query does not move the average response time: statistics
/// with the same successes and the same total time (which is all that
/// `record_failure` keeps, whatever it does to the query and failure
/// counts) have the same average.
pub proof fn law_failure_keeps_average(before: UpstreamStats, after: UpstreamStats)
    requires
        after.successes == before.successes,
        after.total_response_time_ms == before.total_response_time_ms,
    ensures
        avg_time(after) == avg_time(before),
{
    law_average_is_mean_of_successes(before);
    law_average_is_mean_of_successes(after);
    if before.successes > 0 {
        let t = before.total_response_time_ms as int;
        let n = before.successes as int;
        let a = avg_time(before) as int;
        let b = avg_time(after) as int;
        assert(a == b) by (nonlinear_arith)
            requires
                n > 0,
                a * n <= t,
                t < (a + 1) * n,
                b * n <= t,
                t < (b + 1) * n,
        ;
    }
}

impl UpstreamStats {
    /// Statistics invariant: a server is only marked unhealthy once it has
    /// answered at least five queries.
    pub open spec fn wf(&self) -> bool {
        !self.healthy ==> self.queries >= 5
    }

    /// Fresh statistics of a healthy server.
    pub fn new() -> (s: UpstreamStats)
        ensures
            s.queries == 0 && s.successes == 0 && s.failures == 0,
            s.total_response_time_ms == 0,
            s.last_response_time_ms is None && s.last_success is None && s.last_failure is None,
            s.healthy,
            s.wf(),
    {
        UpstreamStats {
            queries: 0,
            successes: 0,
            failures: 0,
            total_response_time_ms: 0,
            last_response_time_ms: None,
            last_success: None,
            last_failure: None,
            healthy: true,
        }
    }

    /// The average response time in milliseconds of the successful queries.
    pub fn avg_response_time_ms(&self) -> (a: u64)
        ensures
            a == avg_time(*self),
    {
        if self.successes == 0 {
            0
        } else {
            self.total_response_time_ms / self.successes
        }
    }

    /// Records a successful query: it counts, its time is added, and the
    /// server is healthy again.
    pub fn record_success(&mut self, response_time_ms: u64)
        ensures
            final(self).queries == sat_add(old(self).queries, 1),
            final(self).successes == sat_add(old(self).successes, 1),
            final(self).failures == old(self).failures,
            final(self).total_response_time_ms == sat_add(
                old(self).total_response_time_ms,
                response_time_ms,
            ),
            final(self).last_response_time_ms == Some(response_time_ms),
            final(self).last_success is Some,
            final(self).last_failure == old(self).last_failure,
            final(self).healthy,
            final(self).wf(),
    {
        let now: u64 = crate::clock::unix_millis_now();
        self.record_success_at(response_time_ms, now);
    }

    /// `record_success` at the given time.
    pub fn record_success_at(&mut self, response_time_ms: u64, now_ms: u64)
        ensures
            final(self).queries == sat_add(old(self).queries, 1),
            final(self).successes == sat_add(old(self).successes, 1),
            final(self).failures == old(self).failures,
            final(self).total_response_time_ms == sat_add(
                old(self).total_response_time_ms,
                response_time_ms,
            ),
            final(self).last_response_time_ms == Some(response_time_ms),
            final(self).last_success == Some(now_ms),
            final(self).last_failure == old(self).last_failure,
            final(self).healthy,
            final(self).wf(),
    {
        self.queries = self.queries.saturating_add(1);
        self.successes = self.successes.saturating_add(1);
        self.total_response_time_ms = self.total_response_time_ms.saturating_add(response_time_ms);
        self.last_response_time_ms = Some(response_time_ms);
        self.last_success = Some(now_ms);
        self.healthy = true;
    }

    /// Records a failed query; the server becomes unhealthy once fewer than
    /// half of at least five queries have succeeded.
    pub fn record_failure(&mut self)
        ensures
            final(self).queries == sat_add(old(self).queries, 1),
            final(self).successes == old(self).successes,
            final(self).failures == sat_add(old(self).failures, 1),
            final(self).total_response_time_ms == old(self).total_response_time_ms,
            final(self).last_response_time_ms == old(self).last_response_time_ms,
            final(self).last_success == old(self).last_success,
            final(self).last_failure is Some,
            final(self).healthy == (old(self).healthy && !(below_half(
                final(self).successes,
                final(self).queries,
            ) && final(self).queries >= 5)),
            old(self).wf() ==> final(self).wf(),
    {
        let now: u64 = crate::clock::unix_millis_now();
        self.record_failure_at(now);
    }

    /// `record_failure` at the given time.
    pub fn record_failure_at(&mut self, now_ms: u64)
        ensures
            final(self).queries == sat_add(old(self).queries, 1),
            final(self).successes == old(self).successes,
            final(self).failures == sat_add(old(self).failures, 1),
            final(self).total_response_time_ms == old(self).total_response_time_ms,
            final(self).last_response_time_ms == old(self).last_response_time_ms,
            final(self).last_success == old(self).last_success,
            final(self).last_failure == Some(now_ms),
            final(self).healthy == (old(self).healthy && !(below_half(
                final(self).successes,
                final(self).queries,
            ) && final(self).queries >= 5)),
            old(self).wf() ==> final(self).wf(),
    {
        self.queries = self.queries.saturating_add(1);
        self.failures = self.failures.saturating_add(1);
        self.last_failure = Some(now_ms);
        let twice: u128 = (self.successes as u128) * 2;
        if twice < self.queries as u128 && self.queries >= 5 {
            self.healthy = false;
        }
    }

    /// Whether the server is considered healthy.
    pub fn is_healthy(&self) -> (h: bool)
        ensures
            h == self.healthy,
    {
        self.healthy
    }

    /// Marks the server healthy again.
    pub fn reset_health(&mut self)
        ensures
            *final(self) == (UpstreamStats { healthy: true, ..*old(self) }),
            final(self).wf(),
    {
        self.healthy = true;
    }
}

/// Health check result.
#[derive(Debug, Clone)]
pub struct HealthCheckResult {
    /// Server ID
    pub server_id: i64,
    /// Whether the check passed
    pub healthy: bool,
    /// Response time if successful
    pub response_time_ms: Option<u64>,
    /// Error message if failed
    pub error: Option<String>,
}

/// Whether a server counts as healthy under the given statistics: it is
/// enabled, and healthy by its statistics when it has any.
pub open spec fn server_usable(s: UpstreamServer, stats: Map<i64, UpstreamStats>) -> bool {
    s.enabled && (stats.contains_key(s.id) ==> stats[s.id].healthy)
}

/// The usable servers, in order.
pub open spec fn usable_servers(servers: Seq<UpstreamServer>, stats: Map<i64, UpstreamStats>) -> Seq<
    UpstreamServer,
>
    decreases servers.len(),
{
    if servers.len() == 0 {
        Seq::empty()
    } else if server_usable(servers.last(), stats) {
        usable_servers(servers.drop_last(), stats).push(servers.last())
    } else {
        usable_servers(servers.drop_last(), stats)
    }
}

/// The ranking key of a server: its average response time, or the largest
/// value when it has no statistics.
pub open spec fn speed_key(s: UpstreamServer, stats: Map<i64, UpstreamStats>) -> u64 {
    if stats.contains_key(s.id) {
        avg_time(stats[s.id])
    } else {
        u64::MAX
    }
}

/// The index of the first server with the smallest key.
pub open spec fn is_first_min(servers: Seq<UpstreamServer>, stats: Map<i64, UpstreamStats>, k: int) -> bool {
    &&& 0 <= k < servers.len()
    &&& forall|j: int| 0 <= j < servers.len() ==> speed_key(servers[k], stats) <= speed_key(#[trigger] servers[j], stats)
    &&& forall|j: int| 0 <= j < k ==> speed_key(servers[k], stats) < speed_key(#[trigger] servers[j], stats)
}

/// The servers whose ID differs from `id`, in order.
pub open spec fn servers_without(servers: Seq<UpstreamServer>, id: i64) -> Seq<UpstreamServer>
    decreases servers.len(),
{
    if servers.len() == 0 {
        Seq::empty()
    } else if servers.last().id == id {
        servers_without(servers.drop_last(), id)
    } else {
        servers_without(servers.drop_last(), id).push(servers.last())
    }
}

/// The server set with per-server statistics.
pub struct UpstreamManager {
    servers: Vec<UpstreamServer>,
    stats: HashMap<i64, UpstreamStats>,
}

impl UpstreamManager {
    pub closed spec fn servers_view(&self) -> Seq<UpstreamServer> {
        self.servers@
    }

    pub closed spec fn stats_view(&self) -> Map<i64, UpstreamStats> {
        self.stats@
    }

    /// Every kept statistics record satisfies its invariant.
    pub closed spec fn wf(&self) -> bool {
        forall|id: i64| #[trigger] self.stats@.contains_key(id) ==> self.stats@[id].wf()
    }

    /// A manager without servers.
    pub fn new() -> (m: UpstreamManager)
        ensures
            m.wf(),
            m.servers_view().len() == 0,
            m.stats_view() == Map::<i64, UpstreamStats>::empty(),
    {
        UpstreamManager { servers: Vec::new(), stats: HashMap::new() }
    }

    /// Replaces the server set; servers without statistics get fresh ones,
    /// existing statistics are kept.
    pub fn replace_servers(&mut self, servers: Vec<UpstreamServer>)
        requires
            old(self).wf(),
        ensures
            final(self).wf(),
            final(self).servers_view() == servers@,
            forall|id: i64| old(self).stats_view().contains_key(id) ==> #[trigger] final(self).stats_view().contains_key(id)
                && final(self).stats_view()[id] == old(self).stats_view()[id],
            forall|id: i64| #[trigger] final(self).stats_view().contains_key(id) ==> old(self).stats_view().contains_key(id)
                || exists|i: int| 0 <= i < servers@.len() && servers@[i].id == id,
            forall|i: int| 0 <= i < servers@.len() ==> #[trigger] final(self).stats_view().contains_key(servers@[i].id),
    {
        let mut i: usize = 0;
        while i < servers.len()
            invariant
                0 <= i <= servers@.len(),
                self.wf(),
                forall|id: i64| old(self).stats@.contains_key(id) ==> #[trigger] self.stats@.contains_key(id)
                    && self.stats@[id] == old(self).stats@[id],
                forall|id: i64| #[trigger] self.stats@.contains_key(id) ==> old(self).stats@.contains_key(id)
                    || exists|k: int| 0 <= k < servers@.len() && servers@[k].id == id,
                forall|k: int| 0 <= k < i ==> #[trigger] self.stats@.contains_key(servers@[k].id),
            decreases servers@.len() - i,
        {
            let id: i64 = servers[i].id;
            if !self.stats.contains_key(&id) {
                let ghost prev = self.stats@;
                let fresh: UpstreamStats = UpstreamStats::new();
                self.stats.insert(id, fresh);
                assert(self.stats@ == prev.insert(id, fresh));
                assert(!prev.contains_key(id));
                assert forall|x: i64| #[trigger] self.stats@.contains_key(x) implies self.stats@[x].wf() by {
                    if x != id {
                        assert(prev.contains_key(x));
                    }
                }
                assert(self.stats@.contains_key(servers@[i as int].id));
            }
            i = i + 1;
        }
        self.servers = servers;
    }

    /// A copy of the servers.
    pub fn get_servers(&self) -> (v: Vec<UpstreamServer>)
        ensures
            v@ == self.servers_view(),
    {
        let mut v: Vec<UpstreamServer> = Vec::new();
        let mut i: usize = 0;
        while i < self.servers.len()
            invariant
                0 <= i <= self.servers@.len(),
                v@ == self.servers@.subrange(0, i as int),
            decreases self.servers@.len() - i,
        {
            v.push(self.servers[i].clone());
            assert(v@ =~= self.servers@.subrange(0, i + 1));
            i = i + 1;
        }
        assert(self.servers@.subrange(0, self.servers@.len() as int) =~= self.servers@);
        v
    }

    /// The enabled servers that are healthy by their statistics (servers
    /// without statistics count as healthy), in order.
    pub fn get_healthy_servers(&self) -> (v: Vec<UpstreamServer>)
        ensures
            v@ == usable_servers(self.servers_view(), self.stats_view()),
    {
        let mut v: Vec<UpstreamServer> = Vec::new();
        let mut i: usize = 0;
        while i < self.servers.len()
            invariant
                0 <= i <= self.servers@.len(),
                v@ == usable_servers(self.servers@.subrange(0, i as int), self.stats@),
            decreases self.servers@.len() - i,
        {
            assert(self.servers@.subrange(0, i + 1).drop_last() =~= self.servers@.subrange(0, i as int));
            let s: &UpstreamServer = &self.servers[i];
            let healthy: bool = match self.stats.get(&s.id) {
                Some(st) => st.healthy,
                None => true,
            };
            if s.enabled && healthy {
                v.push(s.clone());
            }
            i = i + 1;
        }
        assert(self.servers@.subrange(0, self.servers@.len() as int) =~= self.servers@);
        v
    }

    /// The first server with the given ID.
    pub fn get_server(&self, id: i64) -> (r: Option<UpstreamServer>)
        ensures
            match r {
                Some(s) => exists|k: int| 0 <= k < self.servers_view().len() && self.servers_view()[k] == s
                    && s.id == id && forall|j: int| 0 <= j < k ==> (#[trigger] self.servers_view()[j]).id != id,
                None => forall|j: int| 0 <= j < self.servers_view().len() ==> (#[trigger] self.servers_view()[j]).id != id,
            },
    {
        let mut i: usize = 0;
        while i < self.servers.len()
            invariant
                0 <= i <= self.servers@.len(),
                forall|j: int| 0 <= j < i ==> (#[trigger] self.servers@[j]).id != id,
            decreases self.servers@.len() - i,
        {
            if self.servers[i].id == id {
                return Some(self.servers[i].clone());
            }
            i = i + 1;
        }
        None
    }

    /// Adds a server, with fresh statistics unless its ID already has some.
    pub fn add_server(&mut self, server: UpstreamServer)
        requires
            old(self).wf(),
        ensures
            final(self).wf(),
            final(self).servers_view() == old(self).servers_view().push(server),
            final(self).stats_view() == (if old(self).stats_view().contains_key(server.id) {
                old(self).stats_view()
            } else {
                old(self).stats_view().insert(server.id, UpstreamStats::new_spec())
            }),
    {
        if !self.stats.contains_key(&server.id) {
            let ghost prev = self.stats@;
            let fresh: UpstreamStats = UpstreamStats::new();
            self.stats.insert(server.id, fresh);
            assert forall|x: i64| #[trigger] self.stats@.contains_key(x) implies self.stats@[x].wf() by {
                if x != server.id {
                    assert(prev.contains_key(x));
                }
            }
        }
        self.servers.push(server);
    }

    /// Removes every server with the given ID, and its statistics.
    pub fn remove_server(&mut self, id: i64)
        requires
            old(self).wf(),
        ensures
            final(self).wf(),
            final(self).servers_view() == servers_without(old(self).servers_view(), id),
            final(self).stats_view() == old(self).stats_view().remove(id),
    {
        let ghost old_servers = self.servers@;
        let mut kept: Vec<UpstreamServer> = Vec::new();
        let mut i: usize = 0;
        while i < self.servers.len()
            invariant
                self.servers@ == old_servers,
                0 <= i <= old_servers.len(),
                kept@ == servers_without(old_servers.subrange(0, i as int), id),
            decreases old_servers.len() - i,
        {
            assert(old_servers.subrange(0, i + 1).drop_last() =~= old_servers.subrange(0, i as int));
            if self.servers[i].id != id {
                kept.push(self.servers[i].clone());
            }
            i = i + 1;
        }
        assert(old_servers.subrange(0, old_servers.len() as int) =~= old_servers);
        self.servers = kept;
        self.stats.remove(&id);
        assert(self.stats@ =~= old(self).stats_view().remove(id));
    }

    /// The statistics of a server.
    pub fn get_stats(&self, id: i64) -> (r: Option<UpstreamStats>)
        ensures
            r == (if self.stats_view().contains_key(id) {
                Some(self.stats_view()[id])
            } else {
                None
            }),
    {
        match self.stats.get(&id) {
            Some(s) => Some(*s),
            None => None,
        }
    }

    /// A copy of all statistics.
    pub fn get_all_stats(&self) -> (m: HashMap<i64, UpstreamStats>)
        ensures
            m@ == self.stats_view(),
    {
        let m: HashMap<i64, UpstreamStats> = self.stats.clone();
        assert(m@ =~= self.stats@);
        m
    }

    /// Records a success for a server that has statistics.
    pub fn record_success(&mut self, id: i64, response_time_ms: u64)
        requires
            old(self).wf(),
        ensures
            final(self).wf(),
            final(self).servers_view() == old(self).servers_view(),
            final(self).stats_view().dom() == old(self).stats_view().dom(),
            forall|other: i64| other != id && #[trigger] old(self).stats_view().contains_key(other)
                ==> final(self).stats_view()[other] == old(self).stats_view()[other],
            old(self).stats_view().contains_key(id) ==> {
                let before = old(self).stats_view()[id];
                let after = final(self).stats_view()[id];
                &&& after.queries == sat_add(before.queries, 1)
                &&& after.successes == sat_add(before.successes, 1)
                &&& after.total_response_time_ms == sat_add(before.total_response_time_ms, response_time_ms)
                &&& after.last_response_time_ms == Some(response_time_ms)
                &&& after.healthy
            },
    {
        if let Some(s) = self.stats.get(&id) {
            let mut st: UpstreamStats = *s;
            st.record_success(response_time_ms);
            self.stats.insert(id, st);
            assert(self.stats@.dom() =~= old(self).stats_view().dom());
        }
    }

    /// Records a failure for a server that has statistics.
    pub fn record_failure(&mut self, id: i64)
        requires
            old(self).wf(),
        ensures
            final(self).wf(),
            final(self).servers_view() == old(self).servers_view(),
            final(self).stats_view().dom() == old(self).stats_view().dom(),
            forall|other: i64| other != id && #[trigger] old(self).stats_view().contains_key(other)
                ==> final(self).stats_view()[other] == old(self).stats_view()[other],
            old(self).stats_view().contains_key(id) ==> {
                let before = old(self).stats_view()[id];
                let after = final(self).stats_view()[id];
                &&& after.queries == sat_add(before.queries, 1)
                &&& after.failures == sat_add(before.failures, 1)
                &&& after.successes == before.successes
                &&& after.healthy == (before.healthy && !(below_half(after.successes, after.queries)
                    && after.queries >= 5))
            },
    {
        if let Some(s) = self.stats.get(&id) {
            let mut st: UpstreamStats = *s;
            st.record_failure();
            self.stats.insert(id, st);
            assert(self.stats@.dom() =~= old(self).stats_view().dom());
        }
    }

    /// Marks a server that has statistics healthy again.
    pub fn reset_health(&mut self, id: i64)
        requires
            old(self).wf(),
        ensures
            final(self).wf(),
            final(self).servers_view() == old(self).servers_view(),
            final(self).stats_view() == (if old(self).stats_view().contains_key(id) {
                old(self).stats_view().insert(id, UpstreamStats { healthy: true, ..old(self).stats_view()[id] })
            } else {
                old(self).stats_view()
            }),
    {
        if let Some(s) = self.stats.get(&id) {
            let mut st: UpstreamStats = *s;
            st.reset_health();
            self.stats.insert(id, st);
        }
    }

    /// The first usable server with the smallest average response time;
    /// servers without statistics rank last.
    pub fn get_fastest_server(&self) -> (r: Option<UpstreamServer>)
        ensures
            match r {
                Some(s) => exists|k: int|
                    is_first_min(usable_servers(self.servers_view(), self.stats_view()), self.stats_view(), k)
                        && usable_servers(self.servers_view(), self.stats_view())[k] == s,
                None => usable_servers(self.servers_view(), self.stats_view()).len() == 0,
            },
    {
        let healthy: Vec<UpstreamServer> = self.get_healthy_servers();
        if healthy.len() == 0 {
            return None;
        }
        let mut best: usize = 0;
        let mut best_key: u64 = self.speed_key_of(&healthy[0]);
        let mut i: usize = 1;
        while i < healthy.len()
            invariant
                healthy@ == usable_servers(self.servers@, self.stats@),
                healthy@.len() > 0,
                1 <= i <= healthy@.len(),
                0 <= best < i,
                best_key == speed_key(healthy@[best as int], self.stats@),
                forall|j: int| 0 <= j < i ==> best_key <= speed_key(#[trigger] healthy@[j], self.stats@),
                forall|j: int| 0 <= j < best ==> best_key < speed_key(#[trigger] healthy@[j], self.stats@),
            decreases healthy@.len() - i,
        {
            let key: u64 = self.speed_key_of(&healthy[i]);
            if key < best_key {
                best = i;
                best_key = key;
            }
            i = i + 1;
        }
        assert(is_first_min(healthy@, self.stats@, best as int));
        Some(healthy[best].clone())
    }

    fn speed_key_of(&self, s: &UpstreamServer) -> (k: u64)
        ensures
            k == speed_key(*s, self.stats_view()),
    {
        match self.stats.get(&s.id) {
            Some(st) => st.avg_response_time_ms(),
            None => u64::MAX,
        }
    }

    /// The number of servers.
    pub fn server_count(&self) -> (n: usize)
        ensures
            n == self.servers_view().len(),
    {
        self.servers.len()
    }

    /// Removes every server and all statistics.
    pub fn clear(&mut self)
        ensures
            final(self).wf(),
            final(self).servers_view().len() == 0,
            final(self).stats_view() == Map::<i64, UpstreamStats>::empty(),
    {
        self.servers = Vec::new();
        self.stats.clear();
    }
}

impl UpstreamStats {
    /// The value `UpstreamStats::new` returns.
    pub open spec fn new_spec() -> UpstreamStats {
        UpstreamStats {
            queries: 0,
            successes: 0,
            failures: 0,
            total_response_time_ms: 0,
            last_response_time_ms: None,
            last_success: None,
            last_failure: None,
            healthy: true,
        }
    }
}

/// The server a stored row gives: its fields, with the protocol read from
/// its text.
pub open spec fn server_from_row(row: crate::models::UpstreamServerRow, s: UpstreamServer) -> bool {
    &&& protocol_of_text(row.protocol@) == Some(s.protocol)
    &&& s.id == row.id
    &&& s.name@ == row.name@
    &&& s.address@ == row.address@
    &&& s.timeout_millis == row.timeout as u64
    &&& s.enabled == row.enabled
}

/// The servers that stored rows give, in order; rows with an unknown
/// protocol are left out.
pub open spec fn loads_servers(rows: Seq<crate::models::UpstreamServerRow>, ss: Seq<UpstreamServer>) -> bool
    decreases rows.len(),
{
    if rows.len() == 0 {
        ss.len() == 0
    } else if protocol_of_text(rows.last().protocol@) is Some {
        &&& ss.len() > 0
        &&& server_from_row(rows.last(), ss.last())
        &&& loads_servers(rows.drop_last(), ss.drop_last())
    } else {
        loads_servers(rows.drop_last(), ss)
    }
}

/// The servers that stored rows give, leaving out rows whose protocol is
/// unknown.
pub fn servers_from_rows(rows: &Vec<crate::models::UpstreamServerRow>) -> (ss: Vec<UpstreamServer>)
    ensures
        loads_servers(rows@, ss@),
{
    let mut ss: Vec<UpstreamServer> = Vec::new();
    let mut i: usize = 0;
    while i < rows.len()
        invariant
            0 <= i <= rows@.len(),
            loads_servers(rows@.subrange(0, i as int), ss@),
        decreases rows@.len() - i,
    {
        assert(rows@.subrange(0, i + 1).drop_last() =~= rows@.subrange(0, i as int));
        match UpstreamServer::from_db(&rows[i]) {
            Some(s) => {
                let ghost before = ss@;
                ss.push(s);
                assert(ss@.drop_last() =~= before);
            },
            None => {},
        }
        i = i + 1;
    }
    assert(rows@.subrange(0, rows@.len() as int) =~= rows@);
    ss
}

} // verus!
