//! Stored entities and requests, as plain values: the rows the logic reads
//! (timestamps are kept by the storage layer), the create and update
//! forms, and how an update combines with the stored row.

use vstd::prelude::*;

verus! {

broadcast use vstd::string::group_string_axioms;

/// TTL of a local record created without one.
pub const DEFAULT_RECORD_TTL: i32 = 300;
/// Timeout of an upstream server created without one, in milliseconds.
pub const DEFAULT_UPSTREAM_TIMEOUT: i32 = 5000;

/// A given value, or else the stored one.
pub open spec fn pick<T>(given: Option<T>, stored: T) -> T {
    match given {
        Some(v) => v,
        None => stored,
    }
}

/// A given optional value, or else the stored one.
pub open spec fn pick_opt<T>(given: Option<T>, stored: Option<T>) -> Option<T> {
    match given {
        Some(v) => Some(v),
        None => stored,
    }
}

/// A stored local DNS record, without its timestamps.
#[derive(Debug, Clone)]
pub struct DnsRecordRow {
    pub id: i64,
    pub name: String,
    pub record_type: String,
    pub value: String,
    pub ttl: i32,
    pub priority: i32,
    pub enabled: bool,
}

/// A local DNS record to create.
#[derive(Debug, Clone)]
pub struct CreateDnsRecord {
    pub name: String,
    pub record_type: String,
    pub value: String,
    pub ttl: i32,
    pub priority: i32,
    pub enabled: bool,
}

/// Changes to a local DNS record; `None` keeps the stored value.
#[derive(Debug, Clone)]
pub struct UpdateDnsRecord {
    pub name: Option<String>,
    pub record_type: Option<String>,
    pub value: Option<String>,
    pub ttl: Option<i32>,
    pub priority: Option<i32>,
    pub enabled: Option<bool>,
}

impl UpdateDnsRecord {
    /// The stored record with these changes made.
    pub fn apply_to(self, existing: DnsRecordRow) -> (r: DnsRecordRow)
        ensures
            r.id == existing.id,
            r.name == pick(self.name, existing.name),
            r.record_type == pick(self.record_type, existing.record_type),
            r.value == pick(self.value, existing.value),
            r.ttl == pick(self.ttl, existing.ttl),
            r.priority == pick(self.priority, existing.priority),
            r.enabled == pick(self.enabled, existing.enabled),
    {
        DnsRecordRow {
            id: existing.id,
            name: match self.name {
                Some(v) => v,
                None => existing.name,
            },
            record_type: match self.record_type {
                Some(v) => v,
                None => existing.record_type,
            },
            value: match self.value {
                Some(v) => v,
                None => existing.value,
            },
            ttl: match self.ttl {
                Some(v) => v,
                None => existing.ttl,
            },
            priority: match self.priority {
                Some(v) => v,
                None => existing.priority,
            },
            enabled: match self.enabled {
                Some(v) => v,
                None => existing.enabled,
            },
        }
    }
}

/// A stored rewrite rule, without its timestamps.
#[derive(Debug, Clone)]
pub struct RewriteRuleRow {
    pub id: i64,
    pub pattern: String,
    pub match_type: String,
    pub action_type: String,
    pub action_value: Option<String>,
    pub priority: i32,
    pub enabled: bool,
    pub description: Option<String>,
}

/// A rewrite rule to create.
#[derive(Debug, Clone)]
pub struct CreateRewriteRule {
    pub pattern: String,
    pub match_type: String,
    pub action_type: String,
    pub action_value: Option<String>,
    pub priority: i32,
    pub enabled: bool,
    pub description: Option<String>,
}

/// Changes to a rewrite rule; `None` keeps the stored value.
#[derive(Debug, Clone)]
pub struct UpdateRewriteRule {
    pub pattern: Option<String>,
    pub match_type: Option<String>,
    pub action_type: Option<String>,
    pub action_value: Option<String>,
    pub priority: Option<i32>,
    pub enabled: Option<bool>,
    pub description: Option<String>,
}

impl UpdateRewriteRule {
    /// The stored rule with these changes made.
    pub fn apply_to(self, existing: RewriteRuleRow) -> (r: RewriteRuleRow)
        ensures
            r.id == existing.id,
            r.pattern == pick(self.pattern, existing.pattern),
            r.match_type == pick(self.match_type, existing.match_type),
            r.action_type == pick(self.action_type, existing.action_type),
            r.action_value == pick_opt(self.action_value, existing.action_value),
            r.priority == pick(self.priority, existing.priority),
            r.enabled == pick(self.enabled, existing.enabled),
            r.description == pick_opt(self.description, existing.description),
    {
        RewriteRuleRow {
            id: existing.id,
            pattern: match self.pattern {
                Some(v) => v,
                None => existing.pattern,
            },
            match_type: match self.match_type {
                Some(v) => v,
                None => existing.match_type,
            },
            action_type: match self.action_type {
                Some(v) => v,
                None => existing.action_type,
            },
            action_value: match self.action_value {
                Some(v) => Some(v),
                None => existing.action_value,
            },
            priority: match self.priority {
                Some(v) => v,
                None => existing.priority,
            },
            enabled: match self.enabled {
                Some(v) => v,
                None => existing.enabled,
            },
            description: match self.description {
                Some(v) => Some(v),
                None => existing.description,
            },
        }
    }
}

/// A stored upstream server, without its timestamps.
#[derive(Debug, Clone)]
pub struct UpstreamServerRow {
    pub id: i64,
    pub name: String,
    pub address: String,
    pub protocol: String,
    pub timeout: i32,
    pub enabled: bool,
}

/// An upstream server to create.
#[derive(Debug, Clone)]
pub struct CreateUpstreamServer {
    pub name: String,
    pub address: String,
    pub protocol: String,
    pub timeout: i32,
    pub enabled: bool,
}

/// Changes to an upstream server; `None` keeps the stored value.
#[derive(Debug, Clone)]
pub struct UpdateUpstreamServer {
    pub name: Option<String>,
    pub address: Option<String>,
    pub protocol: Option<String>,
    pub timeout: Option<i32>,
    pub enabled: Option<bool>,
}

impl UpdateUpstreamServer {
    /// The stored server with these changes made.
    pub fn apply_to(self, existing: UpstreamServerRow) -> (r: UpstreamServerRow)
        ensures
            r.id == existing.id,
            r.name == pick(self.name, existing.name),
            r.address == pick(self.address, existing.address),
            r.protocol == pick(self.protocol, existing.protocol),
            r.timeout == pick(self.timeout, existing.timeout),
            r.enabled == pick(self.enabled, existing.enabled),
    {
        UpstreamServerRow {
            id: existing.id,
            name: match self.name {
                Some(v) => v,
                None => existing.name,
            },
            address: match self.address {
                Some(v) => v,
                None => existing.address,
            },
            protocol: match self.protocol {
                Some(v) => v,
                None => existing.protocol,
            },
            timeout: match self.timeout {
                Some(v) => v,
                None => existing.timeout,
            },
            enabled: match self.enabled {
                Some(v) => v,
                None => existing.enabled,
            },
        }
    }
}

/// A query log entry to store.
#[derive(Debug, Clone)]
pub struct CreateQueryLog {
    pub client_ip: String,
    pub query_name: String,
    pub query_type: String,
    pub response_code: Option<String>,
    pub response_time: Option<i32>,
    pub cache_hit: bool,
    pub upstream_used: Option<String>,
}

/// A stored query log entry; `created_at` is its time as text.
#[derive(Debug, Clone)]
pub struct QueryLog {
    pub id: i64,
    pub client_ip: String,
    pub query_name: String,
    pub query_type: String,
    pub response_code: Option<String>,
    pub response_time: Option<i32>,
    pub cache_hit: bool,
    pub upstream_used: Option<String>,
    pub created_at: String,
}

/// Filters and paging of a query log listing; the time bounds are
/// milliseconds since the Unix epoch.
#[derive(Debug, Clone)]
pub struct QueryLogFilter {
    pub query_name: Option<String>,
    pub query_type: Option<String>,
    pub client_ip: Option<String>,
    pub cache_hit: Option<bool>,
    pub start_time: Option<i64>,
    pub end_time: Option<i64>,
    pub limit: Option<i64>,
    pub offset: Option<i64>,
}

impl Default for QueryLogFilter {
    fn default() -> (f: QueryLogFilter)
        ensures
            f.query_name is None,
            f.query_type is None,
            f.client_ip is None,
            f.cache_hit is None,
            f.start_time is None,
            f.end_time is None,
            f.limit is None,
            f.offset is None,
    {
        QueryLogFilter {
            query_name: None,
            query_type: None,
            client_ip: None,
            cache_hit: None,
            start_time: None,
            end_time: None,
            limit: None,
            offset: None,
        }
    }
}

/// One page of a listing.
#[derive(Debug, Clone)]
pub struct PaginatedResult<T> {
    pub items: Vec<T>,
    pub total: i64,
    pub limit: i64,
    pub offset: i64,
}

/// Counts of stored queries.
#[derive(Debug, Clone, Copy)]
pub struct QueryStats {
    pub total_queries: i64,
    pub cache_hits: i64,
    pub queries_today: i64,
}

/// A stored listener configuration; the timestamps are texts.
#[derive(Debug)]
pub struct ServerListener {
    pub id: i64,
    pub protocol: String,
    pub enabled: bool,
    pub bind_address: String,
    pub port: i32,
    pub tls_cert: Option<String>,
    pub tls_key: Option<String>,
    pub created_at: String,
    pub updated_at: String,
}

/// A copy of an optional text.
pub fn clone_opt(o: &Option<String>) -> (r: Option<String>)
    ensures
        r == *o,
{
    match o {
        Some(s) => Some(s.clone()),
        None => None,
    }
}

impl Clone for ServerListener {
    fn clone(&self) -> (r: ServerListener)
        ensures
            r == *self,
    {
        ServerListener {
            id: self.id,
            protocol: self.protocol.clone(),
            enabled: self.enabled,
            bind_address: self.bind_address.clone(),
            port: self.port,
            tls_cert: clone_opt(&self.tls_cert),
            tls_key: clone_opt(&self.tls_key),
            created_at: self.created_at.clone(),
            updated_at: self.updated_at.clone(),
        }
    }
}

/// Changes to a listener; `None` keeps the stored value.
#[derive(Debug, Clone)]
pub struct UpdateServerListener {
    pub enabled: Option<bool>,
    pub bind_address: Option<String>,
    pub port: Option<i32>,
    pub tls_cert: Option<String>,
    pub tls_key: Option<String>,
}

impl Default for UpdateServerListener {
    fn default() -> (u: UpdateServerListener)
        ensures
            u.enabled is None,
            u.bind_address is None,
            u.port is None,
            u.tls_cert is None,
            u.tls_key is None,
    {
        UpdateServerListener {
            enabled: None,
            bind_address: None,
            port: None,
            tls_cert: None,
            tls_key: None,
        }
    }
}

impl UpdateServerListener {
    /// The stored listener with these changes made; the protocol, ID and
    /// timestamps are kept.
    pub fn apply_to(self, existing: ServerListener) -> (r: ServerListener)
        ensures
            r.id == existing.id,
            r.protocol == existing.protocol,
            r.enabled == pick(self.enabled, existing.enabled),
            r.bind_address == pick(self.bind_address, existing.bind_address),
            r.port == pick(self.port, existing.port),
            r.tls_cert == pick_opt(self.tls_cert, existing.tls_cert),
            r.tls_key == pick_opt(self.tls_key, existing.tls_key),
            r.created_at == existing.created_at,
            r.updated_at == existing.updated_at,
    {
        ServerListener {
            id: existing.id,
            protocol: existing.protocol,
            enabled: match self.enabled {
                Some(v) => v,
                None => existing.enabled,
            },
            bind_address: match self.bind_address {
                Some(v) => v,
                None => existing.bind_address,
            },
            port: match self.port {
                Some(v) => v,
                None => existing.port,
            },
            tls_cert: match self.tls_cert {
                Some(v) => Some(v),
                None => existing.tls_cert,
            },
            tls_key: match self.tls_key {
                Some(v) => Some(v),
                None => existing.tls_key,
            },
            created_at: existing.created_at,
            updated_at: existing.updated_at,
        }
    }
}

/// Largest page of a query log listing.
pub const MAX_LOG_PAGE: i64 = 1000;
/// Page size of a query log listing that gives none.
pub const DEFAULT_LOG_PAGE: i64 = 50;

/// Which stored queries a listing selects; one filter applies, the first
/// given among name (as a substring), type, client address and cache hit.
#[derive(Debug)]
pub enum LogCondition {
    /// Names holding this text
    NameContains(String),
    /// This query type
    TypeIs(String),
    /// This client address
    ClientIs(String),
    /// Answered from the cache or not
    CacheHitIs(bool),
    /// Every query
    All,
}

/// How a listing reads the stored queries.
#[derive(Debug)]
pub struct LogQueryPlan {
    pub condition: LogCondition,
    pub limit: i64,
    pub offset: i64,
}

impl QueryLogFilter {
    /// The listing this filter asks for: at most 1000 entries per page
    /// (50 when not given), from offset 0 when not given.
    pub fn plan(&self) -> (p: LogQueryPlan)
        ensures
            p.limit == (match self.limit {
                Some(l) => if l < MAX_LOG_PAGE {
                    l
                } else {
                    MAX_LOG_PAGE
                },
                None => DEFAULT_LOG_PAGE,
            }),
            p.offset == pick(self.offset, 0),
            match self.query_name {
                Some(n) => p.condition matches LogCondition::NameContains(t) && t@ == n@,
                None => match self.query_type {
                    Some(q) => p.condition matches LogCondition::TypeIs(t) && t@ == q@,
                    None => match self.client_ip {
                        Some(ip) => p.condition matches LogCondition::ClientIs(t) && t@ == ip@,
                        None => match self.cache_hit {
                            Some(h) => p.condition == LogCondition::CacheHitIs(h),
                            None => p.condition == LogCondition::All,
                        },
                    },
                },
            },
    {
        let limit: i64 = match self.limit {
            Some(l) => if l < MAX_LOG_PAGE {
                l
            } else {
                MAX_LOG_PAGE
            },
            None => DEFAULT_LOG_PAGE,
        };
        let offset: i64 = match self.offset {
            Some(o) => o,
            None => 0,
        };
        let condition = match &self.query_name {
            Some(n) => LogCondition::NameContains(n.clone()),
            None => match &self.query_type {
                Some(q) => LogCondition::TypeIs(q.clone()),
                None => match &self.client_ip {
                    Some(ip) => LogCondition::ClientIs(ip.clone()),
                    None => match self.cache_hit {
                        Some(h) => LogCondition::CacheHitIs(h),
                        None => LogCondition::All,
                    },
                },
            },
        };
        LogQueryPlan { condition, limit, offset }
    }
}

} // verus!
