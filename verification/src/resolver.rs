//! The resolution pipeline: a disabled record type is refused with
//! NXDOMAIN; a matching rewrite rule blocks, answers with an address or
//! sends the query on to another name (at most `MAX_REWRITE_DEPTH` hops);
//! otherwise local records answer, then the cache, then an upstream server,
//! whose successful answers are cached.
//!
//! The database lookup and the upstream exchange are performed by the
//! caller: `begin` says which is needed first, and `on_local_records` and
//! `on_upstream_answer` take their outcomes and say what comes next.

use vstd::prelude::*;
use crate::cache::{entry_written, key_name, saturated_sum, served, CacheKey, CacheManager};
use crate::ip::{ipv4_text, ipv6_text, parse_ipv4, parse_ipv6, parsed_ipv4, parsed_ipv6, IpAddr};
use crate::message::{
    empty_response_is, record_view, same_response, DnsQuery, DnsRecordData, DnsResponse,
    DnsResponseCode, RecordType,
};
use crate::models::DnsRecordRow;
use crate::rewrite::{first_match, RewriteAction, RewriteEngine, RewriteRule};
use crate::json::{json_string_list, parse_string_list};
use crate::text::{chars_of, starts_with, str_eq, string_of, to_uppercase, uppercase};

verus! {

broadcast use vstd::string::group_string_axioms;

/// How many rewrite hops a resolution may follow.
pub const MAX_REWRITE_DEPTH: u32 = 10;

/// TTL of the records that an address rewrite answers with.
pub const REWRITE_TTL: u32 = 300;

/// What a resolution reports besides the response.
#[derive(Debug)]
pub struct QueryMetadata {
    /// Total response time in milliseconds
    pub response_time_ms: u64,
    /// Whether the response was served from cache
    pub cache_hit: bool,
    /// Name of the upstream server used (if any)
    pub upstream_used: Option<String>,
    /// Whether a rewrite rule was applied
    pub rewrite_applied: bool,
    /// The rewrite rule ID that was applied (if any)
    pub rewrite_rule_id: Option<i64>,
}

impl Default for QueryMetadata {
    fn default() -> (m: QueryMetadata)
        ensures
            m.response_time_ms == 0,
            !m.cache_hit,
            m.upstream_used is None,
            !m.rewrite_applied,
            m.rewrite_rule_id is None,
    {
        QueryMetadata {
            response_time_ms: 0,
            cache_hit: false,
            upstream_used: None,
            rewrite_applied: false,
            rewrite_rule_id: None,
        }
    }
}

impl Clone for QueryMetadata {
    fn clone(&self) -> (m: QueryMetadata)
        ensures
            m == *self,
    {
        QueryMetadata {
            response_time_ms: self.response_time_ms,
            cache_hit: self.cache_hit,
            upstream_used: match &self.upstream_used {
                Some(s) => Some(s.clone()),
                None => None,
            },
            rewrite_applied: self.rewrite_applied,
            rewrite_rule_id: self.rewrite_rule_id,
        }
    }
}

/// A response and what the resolution reports about it.
#[derive(Debug)]
pub struct ResolveResult {
    /// The DNS response
    pub response: DnsResponse,
    /// Query metadata
    pub metadata: QueryMetadata,
}

impl Clone for ResolveResult {
    fn clone(&self) -> (r: ResolveResult)
        ensures
            same_response(r.response, self.response),
            r.metadata == self.metadata,
    {
        ResolveResult { response: self.response.clone(), metadata: self.metadata.clone() }
    }
}

/// The records of a response, by views.
pub open spec fn answers_view(r: DnsResponse) -> Seq<(Seq<char>, RecordType, Seq<char>, u32, Option<u16>)> {
    r.answers@.map_values(|a: DnsRecordData| record_view(a))
}

/// A response with this ID and code whose only records are `answers`.
pub open spec fn response_is(
    r: DnsResponse,
    id: u16,
    code: DnsResponseCode,
    answers: Seq<(Seq<char>, RecordType, Seq<char>, u32, Option<u16>)>,
) -> bool {
    &&& r.id == id
    &&& r.response_code == code
    &&& !r.authoritative
    &&& r.recursion_available
    &&& answers_view(r) == answers
    &&& r.authority@.len() == 0
    &&& r.additional@.len() == 0
}

/// The records an address rewrite answers a query with: one record of
/// the address when its family matches the query type, else none.
pub open spec fn ip_answers(name: Seq<char>, record_type: RecordType, ip: IpAddr) -> Seq<
    (Seq<char>, RecordType, Seq<char>, u32, Option<u16>),
> {
    match (ip, record_type) {
        (IpAddr::V4(a), RecordType::A) => seq![
            (name, RecordType::A, ipv4_text(a.octets_view()), REWRITE_TTL, None::<u16>),
        ],
        (IpAddr::V6(b), RecordType::AAAA) => seq![
            (name, RecordType::AAAA, ipv6_text(b.segments_view()), REWRITE_TTL, None::<u16>),
        ],
        _ => Seq::empty(),
    }
}

/// Where following rewrite rules from `name` at `depth` ends: the last
/// name reached, the action of the rule that ends the chain (`None` when
/// no rule matches that name) and whether the chain went too deep.
pub open spec fn follow_rewrites(rules: Seq<RewriteRule>, name: Seq<char>, depth: int) -> (
    Seq<char>,
    Option<RewriteAction>,
    bool,
)
    decreases MAX_REWRITE_DEPTH + 1 - depth,
{
    if depth > MAX_REWRITE_DEPTH {
        (name, None, true)
    } else {
        match first_match(rules, name) {
            None => (name, None, false),
            Some(i) => match rules[i].action {
                RewriteAction::MapToDomain(d) => follow_rewrites(rules, d@, depth + 1),
                a => (name, Some(a), false),
            },
        }
    }
}

/// A chain of rewrites never ends in a redirection: it ends where no rule
/// matches, at a block or an address, or by going too deep.
pub proof fn lemma_follow_ends_without_redirect(rules: Seq<RewriteRule>, name: Seq<char>, depth: int)
    ensures
        !(follow_rewrites(rules, name, depth).1 matches Some(RewriteAction::MapToDomain(_))),
    decreases MAX_REWRITE_DEPTH + 1 - depth,
{
    if depth <= MAX_REWRITE_DEPTH {
        match first_match(rules, name) {
            None => {},
            Some(i) => match rules[i].action {
                RewriteAction::MapToDomain(d) => lemma_follow_ends_without_redirect(rules, d@, depth + 1),
                _ => {},
            },
        }
    }
}

/// Circular rewrites are refused: when every name of a set matches a
/// rule that redirects to another name of the set, a resolution reaching
/// any of them goes too deep instead of looping.
pub proof fn law_circular_rewrites_exceed_depth(
    rules: Seq<RewriteRule>,
    names: Set<Seq<char>>,
    name: Seq<char>,
    depth: int,
)
    requires
        names.contains(name),
        forall|n: Seq<char>| #[trigger] names.contains(n) ==> (first_match(rules, n) matches Some(i)
            && rules[i].action matches RewriteAction::MapToDomain(d) && names.contains(d@)),
    ensures
        follow_rewrites(rules, name, depth).2,
    decreases MAX_REWRITE_DEPTH + 1 - depth,
{
    if depth <= MAX_REWRITE_DEPTH {
        let i = first_match(rules, name)->0;
        let d = rules[i].action->MapToDomain_0;
        law_circular_rewrites_exceed_depth(rules, names, d@, depth + 1);
    }
}

/// A name whose first matching rule blocks is answered by a block, at
/// any depth the chain reaches it.
pub proof fn law_blocked_name_ends_in_block(rules: Seq<RewriteRule>, name: Seq<char>, depth: int)
    requires
        0 <= depth <= MAX_REWRITE_DEPTH,
        first_match(rules, name) matches Some(i) && rules[i].action == RewriteAction::Block,
    ensures
        follow_rewrites(rules, name, depth) == (name, Some(RewriteAction::Block), false),
{
}

/// Whether a stored name is a wildcard (`*.` followed by a suffix).
pub open spec fn is_wildcard_name(name: Seq<char>) -> bool {
    name.len() >= 2 && name[0] == '*' && name[1] == '.'
}

/// The record that a stored local record gives for a query, if any.
///
/// Disabled records give none. A wildcard record answers under the queried
/// name. A/AAAA values must read as addresses of their family.
pub open spec fn local_answer(qname: Seq<char>, record_type: RecordType, row: DnsRecordRow) -> Option<
    (Seq<char>, RecordType, Seq<char>, u32, Option<u16>),
> {
    let name = if is_wildcard_name(row.name@) {
        qname
    } else {
        row.name@
    };
    let ttl = row.ttl as u32;
    if !row.enabled {
        None
    } else {
        match record_type {
            RecordType::A => match parsed_ipv4(row.value@) {
                Some(ip) => Some((name, RecordType::A, ipv4_text(ip.octets_view()), ttl, None)),
                None => None,
            },
            RecordType::AAAA => match parsed_ipv6(row.value@) {
                Some(ip) => Some((name, RecordType::AAAA, ipv6_text(ip.segments_view()), ttl, None)),
                None => None,
            },
            RecordType::CNAME => Some((name, RecordType::CNAME, row.value@, ttl, None)),
            RecordType::MX => Some(
                (name, RecordType::MX, row.value@, ttl, Some(row.priority as u16)),
            ),
            RecordType::TXT => Some((name, RecordType::TXT, row.value@, ttl, None)),
            RecordType::PTR => Some((name, RecordType::PTR, row.value@, ttl, None)),
            RecordType::NS => Some((name, RecordType::NS, row.value@, ttl, None)),
            _ => None,
        }
    }
}

/// The records that stored local records give for a query, in order.
pub open spec fn local_answers(qname: Seq<char>, record_type: RecordType, rows: Seq<DnsRecordRow>) -> Seq<
    (Seq<char>, RecordType, Seq<char>, u32, Option<u16>),
>
    decreases rows.len(),
{
    if rows.len() == 0 {
        Seq::empty()
    } else {
        let prev = local_answers(qname, record_type, rows.drop_last());
        match local_answer(qname, record_type, rows.last()) {
            Some(a) => prev.push(a),
            None => prev,
        }
    }
}

/// A stored wildcard record answers under the name asked for, any other
/// stored record under its own name.
pub proof fn law_local_answer_owner(qname: Seq<char>, record_type: RecordType, row: DnsRecordRow)
    ensures
        local_answer(qname, record_type, row) matches Some(a) ==> (if is_wildcard_name(row.name@) {
            a.0 == qname
        } else {
            a.0 == row.name@
        }),
{
}

/// Every record built from stored local records is named either as the
/// query or as a stored record that is not a wildcard: no answer carries
/// a stored wildcard name unless it is the name asked for.
pub proof fn law_local_answers_carry_query_or_plain_names(
    qname: Seq<char>,
    record_type: RecordType,
    rows: Seq<DnsRecordRow>,
)
    ensures
        forall|i: int|
            0 <= i < local_answers(qname, record_type, rows).len() ==> {
                let name = (#[trigger] local_answers(qname, record_type, rows)[i]).0;
                name == qname || exists|j: int|
                    0 <= j < rows.len() && !is_wildcard_name(rows[j].name@) && name == rows[j].name@
            },
    decreases rows.len(),
{
    if rows.len() > 0 {
        let prefix = rows.drop_last();
        law_local_answers_carry_query_or_plain_names(qname, record_type, prefix);
        law_local_answer_owner(qname, record_type, rows.last());
        let all = local_answers(qname, record_type, rows);
        let prev = local_answers(qname, record_type, prefix);
        assert forall|i: int| 0 <= i < all.len() implies {
            let name = (#[trigger] all[i]).0;
            name == qname || exists|j: int|
                0 <= j < rows.len() && !is_wildcard_name(rows[j].name@) && name == rows[j].name@
        } by {
            if i < prev.len() {
                assert(all[i] == prev[i]);
                let name = prev[i].0;
                if name != qname {
                    let j = choose|j: int|
                        0 <= j < prefix.len() && !is_wildcard_name(prefix[j].name@) && name == prefix[j].name@;
                    assert(rows[j] == prefix[j]);
                }
            } else {
                let last = rows.last();
                assert(rows[rows.len() - 1] == last);
            }
        }
    }
}

/// The message of a resolution that followed too many rewrites.
pub open spec fn depth_exceeded_message() -> Seq<char> {
    "Max rewrite depth exceeded, possible circular reference"@
}

/// The next thing a resolution needs.
#[derive(Debug)]
pub enum ResolveStep {
    /// The stored local records for this query
    LookupLocal(DnsQuery),
    /// An upstream server's answer to this query
    Forward(DnsQuery),
    /// Nothing: the resolution is over
    Done(Result<ResolveResult, String>),
}

/// A resolution under way: the client's query ID, the query finally
/// looked up after any rewrites, and the metadata gathered so far.
#[derive(Debug)]
pub struct Resolution {
    /// ID of the client's query
    pub client_id: u16,
    /// The query being looked up
    pub target: DnsQuery,
    /// Metadata gathered so far
    pub metadata: QueryMetadata,
    /// Whether the client's query matched a rewrite rule
    pub rewritten: bool,
}

/// Metadata of a resolution whose client query matched rule `id`.
pub open spec fn rewrite_metadata(m: QueryMetadata, id: i64) -> bool {
    &&& m.response_time_ms == 0
    &&& !m.cache_hit
    &&& m.upstream_used is None
    &&& m.rewrite_applied
    &&& m.rewrite_rule_id == Some(id)
}

/// Metadata of a resolution that matched no rule and is not over.
pub open spec fn plain_metadata(m: QueryMetadata) -> bool {
    &&& m.response_time_ms == 0
    &&& !m.cache_hit
    &&& m.upstream_used is None
    &&& !m.rewrite_applied
    &&& m.rewrite_rule_id is None
}

/// The metadata a resolution starts with for a client query.
pub open spec fn start_metadata(rules: Seq<RewriteRule>, name: Seq<char>, m: QueryMetadata) -> bool {
    match first_match(rules, name) {
        Some(i) => rewrite_metadata(m, rules[i].id),
        None => plain_metadata(m),
    }
}

/// The resolver: the rewrite rules, the cache, and whether local records
/// are kept in a database.
pub struct DnsResolver {
    /// Rewrite engine for domain rewriting
    pub rewrite_engine: RewriteEngine,
    /// Cache of upstream responses
    pub cache: CacheManager,
    /// Whether local records are looked up in a database
    pub has_db: bool,
}

impl DnsResolver {
    /// The rules, in checking order.
    pub open spec fn rules(&self) -> Seq<RewriteRule> {
        self.rewrite_engine.rules_view()
    }

    /// The parts are well formed.
    pub open spec fn wf(&self) -> bool {
        self.rewrite_engine.wf() && self.cache.wf()
    }

    /// A resolver without a database.
    pub fn new(rewrite_engine: RewriteEngine, cache: CacheManager) -> (r: DnsResolver)
        requires
            rewrite_engine.wf(),
            cache.wf(),
        ensures
            r.wf(),
            !r.has_db,
            r.rules() == rewrite_engine.rules_view(),
            r.cache == cache,
    {
        DnsResolver { rewrite_engine, cache, has_db: false }
    }

    /// A resolver that looks up local records in a database.
    pub fn with_db(rewrite_engine: RewriteEngine, cache: CacheManager) -> (r: DnsResolver)
        requires
            rewrite_engine.wf(),
            cache.wf(),
        ensures
            r.wf(),
            r.has_db,
            r.rules() == rewrite_engine.rules_view(),
            r.cache == cache,
    {
        DnsResolver { rewrite_engine, cache, has_db: true }
    }

    /// Whether local records are looked up.
    pub fn has_database(&self) -> (b: bool)
        ensures
            b == self.has_db,
    {
        self.has_db
    }

    /// The rewrite engine.
    pub fn rewrite_engine(&self) -> (e: &RewriteEngine)
        ensures
            e.rules_view() == self.rules(),
    {
        &self.rewrite_engine
    }

    /// The cache.
    pub fn cache(&self) -> (c: &CacheManager)
        ensures
            *c == self.cache,
    {
        &self.cache
    }

    /// The response to `query` for an address rewrite: one record of `ip`
    /// when its family matches the query type, else no record.
    pub fn create_ip_response(&self, query: &DnsQuery, ip: IpAddr) -> (r: Result<DnsResponse, String>)
        ensures
            r matches Ok(resp) && response_is(
                resp,
                query.id,
                DnsResponseCode::NoError,
                ip_answers(query.name@, query.record_type, ip),
            ),
    {
        Ok(ip_response(query.id, query.name.as_str(), query.record_type, ip))
    }

    /// Follows rewrite rules from `name` at `depth`, as `follow_rewrites`.
    fn follow(&self, name: &str, depth: u32) -> (r: (String, Option<RewriteAction>, bool))
        requires
            depth <= MAX_REWRITE_DEPTH + 1,
        ensures
            (r.0@, r.1, r.2) == follow_rewrites(self.rules(), name@, depth as int),
    {
        let mut current: String = name.to_owned();
        let mut d: u32 = depth;
        loop
            invariant
                d <= MAX_REWRITE_DEPTH + 1,
                follow_rewrites(self.rules(), current@, d as int) == follow_rewrites(
                    self.rules(),
                    name@,
                    depth as int,
                ),
            decreases MAX_REWRITE_DEPTH + 1 - d,
        {
            if d > MAX_REWRITE_DEPTH {
                return (current, None, true);
            }
            match self.rewrite_engine.check(current.as_str()) {
                None => {
                    return (current, None, false);
                },
                Some(rr) => {
                    match rr.action {
                        RewriteAction::MapToDomain(target) => {
                            current = target;
                            d = d + 1;
                        },
                        RewriteAction::MapToIp(ip) => {
                            return (current, Some(RewriteAction::MapToIp(ip)), false);
                        },
                        RewriteAction::Block => {
                            return (current, Some(RewriteAction::Block), false);
                        },
                    }
                },
            }
        }
    }
}

/// An empty-flagged NOERROR response answering `name` with `ip` when the
/// family matches.
fn ip_response(id: u16, name: &str, record_type: RecordType, ip: IpAddr) -> (r: DnsResponse)
    ensures
        response_is(r, id, DnsResponseCode::NoError, ip_answers(name@, record_type, ip)),
{
    let mut response = DnsResponse::new(id);
    match (ip, record_type) {
        (IpAddr::V4(a), RecordType::A) => {
            response.add_answer(DnsRecordData::a(name, a, REWRITE_TTL));
        },
        (IpAddr::V6(b), RecordType::AAAA) => {
            response.add_answer(DnsRecordData::aaaa(name, b, REWRITE_TTL));
        },
        _ => {},
    }
    assert(answers_view(response) =~= ip_answers(name@, record_type, ip));
    response
}

} // verus!

verus! {

/// `a` is `b` under another ID.
pub open spec fn same_but_id(a: DnsResponse, b: DnsResponse, id: u16) -> bool {
    &&& a.id == id
    &&& a.response_code == b.response_code
    &&& a.authoritative == b.authoritative
    &&& a.recursion_available == b.recursion_available
    &&& a.answers@ == b.answers@
    &&& a.authority@ == b.authority@
    &&& a.additional@ == b.additional@
}

/// The response built from stored local records for `query`, if any of
/// them gives a record (see `local_answer`).
pub fn build_local_response(query: &DnsQuery, records: &Vec<DnsRecordRow>) -> (r: Option<DnsResponse>)
    ensures
        match r {
            Some(resp) => local_answers(query.name@, query.record_type, records@).len() > 0
                && response_is(
                resp,
                query.id,
                DnsResponseCode::NoError,
                local_answers(query.name@, query.record_type, records@),
            ),
            None => local_answers(query.name@, query.record_type, records@).len() == 0,
        },
{
    let mut response = DnsResponse::new(query.id);
    assert(answers_view(response) =~= local_answers(
        query.name@,
        query.record_type,
        records@.subrange(0, 0),
    ));
    let mut i: usize = 0;
    while i < records.len()
        invariant
            0 <= i <= records@.len(),
            response_is(
                response,
                query.id,
                DnsResponseCode::NoError,
                local_answers(query.name@, query.record_type, records@.subrange(0, i as int)),
            ),
        decreases records@.len() - i,
    {
        let record: &DnsRecordRow = &records[i];
        proof {
            assert(records@.subrange(0, i + 1).drop_last() =~= records@.subrange(0, i as int));
            assert(records@.subrange(0, i + 1).last() == records@[i as int]);
        }
        if record.enabled {
            let rn: Vec<char> = chars_of(record.name.as_str());
            let wildcard: bool = rn.len() >= 2 && rn[0] == '*' && rn[1] == '.';
            let response_name: &str = if wildcard {
                query.name.as_str()
            } else {
                record.name.as_str()
            };
            let ttl: u32 = #[verifier::truncate] (record.ttl as u32);
            let ghost want = local_answer(query.name@, query.record_type, records@[i as int]);
            let made: Option<DnsRecordData> = match query.record_type {
                RecordType::A => match parse_ipv4(record.value.as_str()) {
                    Some(ip) => Some(DnsRecordData::a(response_name, ip, ttl)),
                    None => None,
                },
                RecordType::AAAA => match parse_ipv6(record.value.as_str()) {
                    Some(ip) => Some(DnsRecordData::aaaa(response_name, ip, ttl)),
                    None => None,
                },
                RecordType::CNAME => Some(DnsRecordData::cname(response_name, record.value.as_str(), ttl)),
                RecordType::MX => Some(
                    DnsRecordData::mx(
                        response_name,
                        record.value.as_str(),
                        #[verifier::truncate] (record.priority as u16),
                        ttl,
                    ),
                ),
                RecordType::TXT => Some(DnsRecordData::txt(response_name, record.value.as_str(), ttl)),
                RecordType::PTR => Some(DnsRecordData::ptr(response_name, record.value.as_str(), ttl)),
                RecordType::NS => Some(DnsRecordData::ns(response_name, record.value.as_str(), ttl)),
                _ => None,
            };
            match made {
                Some(rec) => {
                    assert(want == Some(record_view(rec)));
                    response.add_answer(rec);
                    assert(answers_view(response) =~= local_answers(
                        query.name@,
                        query.record_type,
                        records@.subrange(0, i + 1),
                    ));
                },
                None => {
                    assert(want is None);
                },
            }
        }
        i = i + 1;
    }
    assert(records@.subrange(0, records@.len() as int) =~= records@);
    if response.answers.len() == 0 {
        None
    } else {
        Some(response)
    }
}


/// What a cache lookup for the resolution's target leads to: a served
/// entry finishes it (under the client's ID, counted as a cache hit unless
/// the client query was rewritten) and has its read time set, every other
/// entry unchanged; a miss forwards the target upstream.
pub open spec fn cache_step(
    old_cache: CacheManager,
    new_cache: CacheManager,
    res: Resolution,
    now: u64,
    step: ResolveStep,
) -> bool {
    let key = (key_name(res.target.name@), res.target.record_type);
    match served(old_cache.entries(), key, now) {
        Some(e) => {
            &&& step matches ResolveStep::Done(Ok(rr))
            &&& same_but_id(rr.response, e.response, res.client_id)
            &&& rr.metadata.cache_hit == (res.metadata.cache_hit || !res.rewritten)
            &&& rr.metadata.upstream_used == res.metadata.upstream_used
            &&& rr.metadata.rewrite_applied == res.metadata.rewrite_applied
            &&& rr.metadata.rewrite_rule_id == res.metadata.rewrite_rule_id
            &&& rr.metadata.response_time_ms == res.metadata.response_time_ms
            &&& new_cache.entries().dom() == old_cache.entries().dom()
            &&& new_cache.entries()[key].last_accessed_ms == now
            &&& crate::message::same_response(new_cache.entries()[key].response, e.response)
            &&& new_cache.entries()[key].expires_at_ms == e.expires_at_ms
            &&& new_cache.entries()[key].created_at_ms == e.created_at_ms
            &&& forall|k: (Seq<char>, RecordType)|
                k != key && #[trigger] old_cache.entries().contains_key(k) ==> new_cache.entries()[k]
                    == old_cache.entries()[k]
            &&& new_cache.hits_view() == crate::cache::count_up(old_cache.hits_view())
            &&& new_cache.misses_view() == old_cache.misses_view()
        },
        None => {
            &&& step matches ResolveStep::Forward(q)
            &&& q == res.target
            &&& new_cache.entries() == old_cache.entries()
            &&& new_cache.misses_view() == crate::cache::count_up(old_cache.misses_view())
        },
    }
}

impl DnsResolver {
    /// Answers from the cache, or asks for the target to be forwarded.
    fn from_cache(&mut self, res: &Resolution, now_ms: u64) -> (step: ResolveStep)
        requires
            old(self).wf(),
        ensures
            final(self).wf(),
            final(self).rewrite_engine == old(self).rewrite_engine,
            final(self).has_db == old(self).has_db,
            final(self).cache.config_view() == old(self).cache.config_view(),
            cache_step(old(self).cache, final(self).cache, *res, now_ms, step),
    {
        let key: CacheKey = CacheKey::from_query(&res.target);
        match self.cache.get_at(&key, now_ms) {
            Some(cached) => {
                let mut response = cached;
                response.id = res.client_id;
                let mut metadata = res.metadata.clone();
                if !res.rewritten {
                    metadata.cache_hit = true;
                }
                ResolveStep::Done(Ok(ResolveResult { response, metadata }))
            },
            None => ResolveStep::Forward(res.target.clone()),
        }
    }

    /// Starts resolving `query`. `disabled` says whether its record type is
    /// disabled, which matters only where a database is attached.
    ///
    /// A disabled type is answered NXDOMAIN. Otherwise rewrite rules are
    /// followed from the query's name: a block answers NXDOMAIN, an address
    /// answers with a record of it (when its family matches the type), more
    /// than `MAX_REWRITE_DEPTH` hops is an error; every answer carries the
    /// client's ID. Where no rule applies to the last name reached, its
    /// local records are asked for (with a database) or the cache is tried.
    pub fn begin(&mut self, query: &DnsQuery, disabled: bool, now_ms: u64) -> (r: (Resolution, ResolveStep))
        requires
            old(self).wf(),
        ensures
            final(self).wf(),
            final(self).rewrite_engine == old(self).rewrite_engine,
            final(self).has_db == old(self).has_db,
            final(self).cache.config_view() == old(self).cache.config_view(),
            r.0.client_id == query.id,
            old(self).has_db && disabled ==> {
                &&& r.1 matches ResolveStep::Done(Ok(rr))
                &&& empty_response_is(rr.response, query.id, DnsResponseCode::NxDomain)
                &&& plain_metadata(rr.metadata)
                &&& final(self).cache == old(self).cache
            },
            !(old(self).has_db && disabled) ==> {
                let (n, act, deep) = follow_rewrites(old(self).rules(), query.name@, 0);
                &&& r.0.rewritten == first_match(old(self).rules(), query.name@) is Some
                &&& start_metadata(old(self).rules(), query.name@, r.0.metadata)
                &&& deep ==> (r.1 matches ResolveStep::Done(Err(e)) && e@
                    == depth_exceeded_message()) && final(self).cache == old(self).cache
                &&& !deep ==> match act {
                    Some(RewriteAction::Block) => {
                        &&& r.1 matches ResolveStep::Done(Ok(rr))
                        &&& empty_response_is(rr.response, query.id, DnsResponseCode::NxDomain)
                        &&& rr.metadata == r.0.metadata
                        &&& final(self).cache == old(self).cache
                    },
                    Some(RewriteAction::MapToIp(ip)) => {
                        &&& r.1 matches ResolveStep::Done(Ok(rr))
                        &&& response_is(
                            rr.response,
                            query.id,
                            DnsResponseCode::NoError,
                            ip_answers(n, query.record_type, ip),
                        )
                        &&& rr.metadata == r.0.metadata
                        &&& final(self).cache == old(self).cache
                    },
                    Some(RewriteAction::MapToDomain(_)) => false,
                    None => {
                        &&& r.0.target.name@ == n
                        &&& r.0.target.record_type == query.record_type
                        &&& !r.0.rewritten ==> r.0.target == *query
                        &&& old(self).has_db ==> (r.1 matches ResolveStep::LookupLocal(q) && q
                            == r.0.target) && final(self).cache == old(self).cache
                        &&& !old(self).has_db ==> cache_step(
                            old(self).cache,
                            final(self).cache,
                            r.0,
                            now_ms,
                            r.1,
                        )
                    },
                }
            },
    {
        if self.has_db && disabled {
            let res = Resolution {
                client_id: query.id,
                target: query.clone(),
                metadata: QueryMetadata::default(),
                rewritten: false,
            };
            let done = ResolveResult {
                response: DnsResponse::nxdomain(query.id),
                metadata: QueryMetadata::default(),
            };
            return (res, ResolveStep::Done(Ok(done)));
        }
        let mut metadata = QueryMetadata::default();
        let ghost rules = self.rules();
        proof {
            reveal_with_fuel(follow_rewrites, 2);
            lemma_follow_ends_without_redirect(rules, query.name@, 0);
        }
        let (name, action, too_deep, rewritten): (String, Option<RewriteAction>, bool, bool) =
            match self.rewrite_engine.check(query.name.as_str()) {
            Some(rr) => {
                metadata.rewrite_applied = true;
                metadata.rewrite_rule_id = Some(rr.rule_id);
                match rr.action {
                    RewriteAction::MapToDomain(d) => {
                        let (n, a, deep) = self.follow(d.as_str(), 1);
                        (n, a, deep, true)
                    },
                    RewriteAction::MapToIp(ip) => (
                        query.name.clone(),
                        Some(RewriteAction::MapToIp(ip)),
                        false,
                        true,
                    ),
                    RewriteAction::Block => (query.name.clone(), Some(RewriteAction::Block), false, true),
                }
            },
            None => (query.name.clone(), None, false, false),
        };
        assert((name@, action, too_deep) == follow_rewrites(rules, query.name@, 0));
        if too_deep {
            let res = Resolution { client_id: query.id, target: query.clone(), metadata, rewritten };
            return (
                res,
                ResolveStep::Done(
                    Err(string_of(&chars_of("Max rewrite depth exceeded, possible circular reference"))),
                ),
            );
        }
        match action {
            Some(RewriteAction::Block) => {
                let done = ResolveResult {
                    response: DnsResponse::nxdomain(query.id),
                    metadata: metadata.clone(),
                };
                let res = Resolution { client_id: query.id, target: query.clone(), metadata, rewritten };
                (res, ResolveStep::Done(Ok(done)))
            },
            Some(RewriteAction::MapToIp(ip)) => {
                let done = ResolveResult {
                    response: ip_response(query.id, name.as_str(), query.record_type, ip),
                    metadata: metadata.clone(),
                };
                let res = Resolution { client_id: query.id, target: query.clone(), metadata, rewritten };
                (res, ResolveStep::Done(Ok(done)))
            },
            _ => {
                let target: DnsQuery = if rewritten {
                    DnsQuery::new(name.as_str(), query.record_type)
                } else {
                    query.clone()
                };
                let res = Resolution { client_id: query.id, target, metadata, rewritten };
                if self.has_db {
                    let q: DnsQuery = res.target.clone();
                    (res, ResolveStep::LookupLocal(q))
                } else {
                    let step: ResolveStep = self.from_cache(&res, now_ms);
                    (res, step)
                }
            },
        }
    }

    /// Goes on from the outcome of the local record lookup: records that
    /// answer the target finish the resolution under the client's ID; an
    /// error finishes it with that error; otherwise the cache is tried.
    pub fn on_local_records(
        &mut self,
        res: &Resolution,
        records: Result<Vec<DnsRecordRow>, String>,
        now_ms: u64,
    ) -> (step: ResolveStep)
        requires
            old(self).wf(),
        ensures
            final(self).wf(),
            final(self).rewrite_engine == old(self).rewrite_engine,
            final(self).has_db == old(self).has_db,
            final(self).cache.config_view() == old(self).cache.config_view(),
            match records {
                Err(e) => (step matches ResolveStep::Done(Err(m)) && m@ == e@) && final(self).cache
                    == old(self).cache,
                Ok(rows) => {
                    let ans = local_answers(res.target.name@, res.target.record_type, rows@);
                    &&& ans.len() > 0 ==> {
                        &&& step matches ResolveStep::Done(Ok(rr))
                        &&& response_is(rr.response, res.client_id, DnsResponseCode::NoError, ans)
                        &&& rr.metadata == res.metadata
                        &&& final(self).cache == old(self).cache
                    }
                    &&& ans.len() == 0 ==> cache_step(
                        old(self).cache,
                        final(self).cache,
                        *res,
                        now_ms,
                        step,
                    )
                },
            },
    {
        match records {
            Err(e) => ResolveStep::Done(Err(e)),
            Ok(rows) => match build_local_response(&res.target, &rows) {
                Some(response) => {
                    let mut response = response;
                    response.id = res.client_id;
                    ResolveStep::Done(Ok(ResolveResult { response, metadata: res.metadata.clone() }))
                },
                None => self.from_cache(res, now_ms),
            },
        }
    }

    /// Finishes with the upstream server's answer, or its error. The answer
    /// is returned under the client's ID; a NOERROR answer is also cached
    /// under the target. The server is reported unless the client query was
    /// rewritten.
    pub fn on_upstream_answer(
        &mut self,
        res: &Resolution,
        answer: Result<(DnsResponse, String), String>,
        now_ms: u64,
    ) -> (step: ResolveStep)
        requires
            old(self).wf(),
        ensures
            final(self).wf(),
            final(self).rewrite_engine == old(self).rewrite_engine,
            final(self).has_db == old(self).has_db,
            final(self).cache.config_view() == old(self).cache.config_view(),
            match answer {
                Err(e) => (step matches ResolveStep::Done(Err(m)) && m@ == e@) && final(self).cache
                    == old(self).cache,
                Ok((resp, server)) => {
                    let key = (key_name(res.target.name@), res.target.record_type);
                    &&& step matches ResolveStep::Done(Ok(rr))
                    &&& same_but_id(rr.response, resp, res.client_id)
                    &&& rr.metadata.upstream_used == (if res.rewritten {
                        res.metadata.upstream_used
                    } else {
                        Some(server)
                    })
                    &&& rr.metadata.cache_hit == res.metadata.cache_hit
                    &&& rr.metadata.rewrite_applied == res.metadata.rewrite_applied
                    &&& rr.metadata.rewrite_rule_id == res.metadata.rewrite_rule_id
                    &&& rr.metadata.response_time_ms == res.metadata.response_time_ms
                    &&& resp.response_code != DnsResponseCode::NoError ==> final(self).cache == old(
                        self,
                    ).cache
                    &&& resp.response_code == DnsResponseCode::NoError
                        && old(self).cache.config_view().max_entries > 0 ==> {
                        &&& final(self).cache.entries().contains_key(key)
                        &&& same_but_id(
                            final(self).cache.entries()[key].response,
                            resp,
                            res.target.id,
                        )
                        &&& final(self).cache.entries()[key].expires_at_ms == saturated_sum(
                            now_ms,
                            old(self).cache.lifetime_ms(resp),
                        )
                    }
                },
            },
    {
        match answer {
            Err(e) => ResolveStep::Done(Err(e)),
            Ok((resp, server)) => {
                let mut metadata = res.metadata.clone();
                if !res.rewritten {
                    metadata.upstream_used = Some(server);
                }
                let mut response = resp;
                response.id = res.target.id;
                if response.response_code == DnsResponseCode::NoError {
                    let key: CacheKey = CacheKey::from_query(&res.target);
                    let copy = response.clone();
                    assert(self.cache.lifetime_ms(copy) == self.cache.lifetime_ms(resp));
                    self.cache.set_at(key, copy, now_ms);
                }
                response.id = res.client_id;
                ResolveStep::Done(Ok(ResolveResult { response, metadata }))
            },
        }
    }
}

/// Whether a stored disabled-type setting lists a record type, in any
/// letter case. A missing or malformed setting disables nothing.
pub open spec fn setting_disables(raw: Option<Seq<char>>, record_type: Seq<char>) -> bool {
    match raw {
        None => false,
        Some(t) => match json_string_list(t) {
            Err(_) => false,
            Ok(names) => exists|i: int|
                0 <= i < names.len() && uppercase(#[trigger] names[i]) == uppercase(record_type),
        },
    }
}

/// Whether the stored disabled-type setting turns `record_type` off.
pub fn is_record_type_disabled(raw: Option<&str>, record_type: &str) -> (r: bool)
    ensures
        r == setting_disables(
            match raw {
                Some(t) => Some(t@),
                None => None,
            },
            record_type@,
        ),
{
    match raw {
        None => false,
        Some(text) => match parse_string_list(text) {
            Err(_) => false,
            Ok(names) => {
                let upper: String = to_uppercase(record_type);
                let mut i: usize = 0;
                while i < names.len()
                    invariant
                        0 <= i <= names@.len(),
                        raw == Some(text),
                        upper@ == uppercase(record_type@),
                        json_string_list(text@) == Ok::<Seq<Seq<char>>, Seq<char>>(
                            crate::plane_state::strings_view(names@),
                        ),
                        forall|j: int|
                            0 <= j < i ==> uppercase(#[trigger] names@[j]@) != uppercase(record_type@),
                    decreases names@.len() - i,
                {
                    let t: String = to_uppercase(names[i].as_str());
                    if str_eq(t.as_str(), upper.as_str()) {
                        proof {
                            let ns = crate::plane_state::strings_view(names@);
                            assert(ns[i as int] == names@[i as int]@);
                            assert(uppercase(ns[i as int]) == uppercase(record_type@));
                            assert(exists|k: int|
                                0 <= k < ns.len() && uppercase(#[trigger] ns[k]) == uppercase(
                                    record_type@,
                                ));
                            assert(json_string_list(text@)->Ok_0 == ns);
                        }
                        return true;
                    }
                    i = i + 1;
                }
                proof {
                    let ns = crate::plane_state::strings_view(names@);
                    assert forall|j: int| 0 <= j < ns.len() implies uppercase(#[trigger] ns[j])
                        != uppercase(record_type@) by {
                        assert(ns[j] == names@[j]@);
                    }
                }
                false
            },
        },
    }
}

/// A NOERROR answer from upstream that the cache holds, under the key of
/// the target, is what a later lookup of that target is served before its
/// lifetime is over: the resolution ends there, under the client's ID,
/// without asking upstream again.
pub proof fn law_cached_upstream_answer_is_served(
    cache: CacheManager,
    after: CacheManager,
    res: Resolution,
    resp: DnsResponse,
    written_at: u64,
    now: u64,
    step: ResolveStep,
)
    requires
        cache.entries().contains_key((key_name(res.target.name@), res.target.record_type)),
        same_but_id(
            cache.entries()[(key_name(res.target.name@), res.target.record_type)].response,
            resp,
            res.target.id,
        ),
        cache.entries()[(key_name(res.target.name@), res.target.record_type)].expires_at_ms
            == saturated_sum(written_at, cache.lifetime_ms(resp)),
        now < saturated_sum(written_at, cache.lifetime_ms(resp)),
        cache_step(cache, after, res, now, step),
    ensures
        step matches ResolveStep::Done(Ok(rr)) && rr.response.id == res.client_id
            && rr.response.response_code == resp.response_code && rr.response.answers@
            == resp.answers@,
{
}
} // verus!
