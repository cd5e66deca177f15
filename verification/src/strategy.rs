//! Query strategies and the decisions of the proxy: which server to ask,
//! which replies to accept, where to fail over.

use vstd::prelude::*;
use crate::ip::{decimal, push_decimal};
use crate::message::{response_code_text, DnsResponse, DnsResponseCode};
use crate::text::{all_ascii, ascii_lower, ascii_lower_char, chars_of, lowercase, push_chars, push_str, str_eq, string_of, to_lowercase};
use crate::upstream::{servers_without, UpstreamServer};
use rand::Rng;

verus! {

broadcast use vstd::string::group_string_axioms;

/// Query strategy types.
#[derive(Debug, Clone, Copy, PartialEq, Eq, Structural)]
pub enum QueryStrategy {
    /// Query all servers simultaneously, return first response
    Concurrent,
    /// Use the server with the best historical response time
    Fastest,
    /// Rotate through servers sequentially
    RoundRobin,
    /// Select a random server for each query
    Random,
}

/// The strategy a text names, compared after lowercasing.
pub open spec fn strategy_of_text(s: Seq<char>) -> Option<QueryStrategy> {
    let l = lowercase(s);
    if l == "concurrent"@ {
        Some(QueryStrategy::Concurrent)
    } else if l == "fastest"@ || l == "fastest_first"@ {
        Some(QueryStrategy::Fastest)
    } else if l == "round_robin"@ || l == "roundrobin"@ {
        Some(QueryStrategy::RoundRobin)
    } else if l == "random"@ {
        Some(QueryStrategy::Random)
    } else {
        None
    }
}

/// Lowercasing ASCII text twice is lowercasing it once.
proof fn lemma_ascii_lower_twice(s: Seq<char>)
    requires
        all_ascii(s),
    ensures
        all_ascii(ascii_lower(s)),
        lowercase(ascii_lower(s)) == ascii_lower(s),
{
    let l = ascii_lower(s);
    assert forall|i: int| 0 <= i < l.len() implies (#[trigger] l[i] as u32) < 128 by {
        assert((s[i] as u32) < 128);
    }
    assert forall|i: int| 0 <= i < l.len() implies ascii_lower_char(#[trigger] l[i]) == l[i] by {
        let c = s[i];
        if 'A' <= c && c <= 'Z' {
            assert(l[i] as u32 == (c as u32) + 32);
        }
    }
    assert(ascii_lower(l) =~= l);
}

/// Reading a strategy from ASCII text gives the same as reading it from
/// the text lowercased.
pub proof fn law_strategy_text_ignores_ascii_case(s: Seq<char>)
    requires
        all_ascii(s),
    ensures
        strategy_of_text(s) == strategy_of_text(lowercase(s)),
{
    lemma_ascii_lower_twice(s);
}

/// Every strategy reads back from its name.
pub proof fn law_strategy_name_roundtrip(q: QueryStrategy)
    ensures
        strategy_of_text(strategy_name(q)) == Some(q),
{
    reveal_strlit("concurrent");
    reveal_strlit("fastest");
    reveal_strlit("fastest_first");
    reveal_strlit("round_robin");
    reveal_strlit("roundrobin");
    reveal_strlit("random");
    let n = strategy_name(q);
    assert forall|i: int| 0 <= i < n.len() implies (#[trigger] n[i] as u32) < 128 by {}
    assert(ascii_lower(n) =~= n);
}

/// The name of a strategy.
pub open spec fn strategy_name(s: QueryStrategy) -> Seq<char> {
    match s {
        QueryStrategy::Concurrent => "concurrent"@,
        QueryStrategy::Fastest => "fastest"@,
        QueryStrategy::RoundRobin => "round_robin"@,
        QueryStrategy::Random => "random"@,
    }
}

impl QueryStrategy {
    /// Reads a strategy from its name, in any letter case.
    pub fn from_str(s: &str) -> (r: Option<QueryStrategy>)
        ensures
            r == strategy_of_text(s@),
    {
        let lower: String = to_lowercase(s);
        let l: &str = lower.as_str();
        if str_eq(l, "concurrent") {
            Some(QueryStrategy::Concurrent)
        } else if str_eq(l, "fastest") || str_eq(l, "fastest_first") {
            Some(QueryStrategy::Fastest)
        } else if str_eq(l, "round_robin") || str_eq(l, "roundrobin") {
            Some(QueryStrategy::RoundRobin)
        } else if str_eq(l, "random") {
            Some(QueryStrategy::Random)
        } else {
            None
        }
    }

    /// The name of this strategy.
    pub fn as_str(&self) -> (s: &'static str)
        ensures
            s@ == strategy_name(*self),
    {
        match self {
            QueryStrategy::Concurrent => "concurrent",
            QueryStrategy::Fastest => "fastest",
            QueryStrategy::RoundRobin => "round_robin",
            QueryStrategy::Random => "random",
        }
    }

    /// The name of this strategy, as a `String`.
    pub fn to_string(&self) -> (s: String)
        ensures
            s@ == strategy_name(*self),
    {
        self.as_str().to_owned()
    }
}

impl Default for QueryStrategy {
    fn default() -> (s: QueryStrategy)
        ensures
            s == QueryStrategy::Concurrent,
    {
        QueryStrategy::Concurrent
    }
}

/// Whether an upstream reply ends the search: NOERROR and NXDOMAIN are
/// answers, every other code counts as a failure of that server.
pub open spec fn reply_accepted(code: DnsResponseCode) -> bool {
    code == DnsResponseCode::NoError || code == DnsResponseCode::NxDomain
}

/// Whether an upstream reply with this code ends the search.
pub fn accepts_reply(code: DnsResponseCode) -> (r: bool)
    ensures
        r == reply_accepted(code),
{
    code == DnsResponseCode::NoError || code == DnsResponseCode::NxDomain
}

/// Calls `rand::thread_rng().gen_range(0..len)`: an index below `len`.
#[verifier::external_body]
fn random_index(len: usize) -> (i: usize)
    requires
        len > 0,
    ensures
        i < len,
{
    rand::thread_rng().gen_range(0..len)
}

/// Strategy state of the proxy: the chosen strategy and the round-robin
/// counter.
pub struct ProxyManager {
    strategy: QueryStrategy,
    round_robin_counter: usize,
}

impl ProxyManager {
    pub closed spec fn strategy_view(&self) -> QueryStrategy {
        self.strategy
    }

    pub closed spec fn counter_view(&self) -> usize {
        self.round_robin_counter
    }

    /// The default strategy with the counter at zero.
    pub fn new() -> (p: ProxyManager)
        ensures
            p.strategy_view() == QueryStrategy::Concurrent,
            p.counter_view() == 0,
    {
        ProxyManager { strategy: QueryStrategy::Concurrent, round_robin_counter: 0 }
    }

    /// The current strategy.
    pub fn get_strategy(&self) -> (s: QueryStrategy)
        ensures
            s == self.strategy_view(),
    {
        self.strategy
    }

    /// Sets the strategy.
    pub fn set_strategy(&mut self, strategy: QueryStrategy)
        ensures
            final(self).strategy_view() == strategy,
            final(self).counter_view() == old(self).counter_view(),
    {
        self.strategy = strategy;
    }

    /// The round-robin counter.
    pub fn round_robin_counter(&self) -> (c: usize)
        ensures
            c == self.counter_view(),
    {
        self.round_robin_counter
    }

    /// The round-robin pick among `len` servers: the counter modulo `len`;
    /// the counter advances by one, wrapping.
    pub fn next_round_robin(&mut self, len: usize) -> (i: usize)
        requires
            len > 0,
        ensures
            i == old(self).counter_view() % len,
            final(self).counter_view() == (if old(self).counter_view() == usize::MAX {
                0
            } else {
                (old(self).counter_view() + 1) as usize
            }),
            final(self).strategy_view() == old(self).strategy_view(),
    {
        let i: usize = self.round_robin_counter % len;
        self.round_robin_counter = if self.round_robin_counter == usize::MAX {
            0
        } else {
            self.round_robin_counter + 1
        };
        i
    }

    /// A random pick among `len` servers.
    pub fn random_pick(&self, len: usize) -> (i: usize)
        requires
            len > 0,
        ensures
            i < len,
    {
        random_index(len)
    }
}

/// The servers to try after `failed_id` failed: every other server, in order.
pub fn failover_candidates(servers: &Vec<UpstreamServer>, failed_id: i64) -> (v: Vec<UpstreamServer>)
    ensures
        v@ == servers_without(servers@, failed_id),
{
    let mut v: Vec<UpstreamServer> = Vec::new();
    let mut i: usize = 0;
    while i < servers.len()
        invariant
            0 <= i <= servers@.len(),
            v@ == servers_without(servers@.subrange(0, i as int), failed_id),
        decreases servers@.len() - i,
    {
        assert(servers@.subrange(0, i + 1).drop_last() =~= servers@.subrange(0, i as int));
        if servers[i].id != failed_id {
            v.push(servers[i].clone());
        }
        i = i + 1;
    }
    assert(servers@.subrange(0, servers@.len() as int) =~= servers@);
    v
}

/// The failover list never holds the server that failed.
pub proof fn law_failover_skips_failed_server(servers: Seq<UpstreamServer>, failed_id: i64)
    ensures
        forall|k: int| 0 <= k < servers_without(servers, failed_id).len() ==> (#[trigger] servers_without(servers, failed_id)[k]).id != failed_id,
    decreases servers.len(),
{
    if servers.len() > 0 {
        law_failover_skips_failed_server(servers.drop_last(), failed_id);
    }
}

/// The error when no upstream server can be asked.
pub open spec fn no_healthy_message() -> Seq<char> {
    "No healthy upstream servers available"@
}

fn no_healthy() -> (m: String)
    ensures
        m@ == no_healthy_message(),
{
    string_of(&chars_of("No healthy upstream servers available"))
}

/// How one query goes upstream.
#[derive(Debug)]
pub enum QueryPlan {
    /// Ask all these servers at once; the first accepted reply wins.
    AllAtOnce(Vec<UpstreamServer>),
    /// Ask this server; if it fails, fail over to the other healthy ones.
    One(UpstreamServer),
}

impl ProxyManager {
    /// Plans a query by the current strategy, from the healthy servers and
    /// the fastest one: all healthy servers (concurrent), the fastest, the
    /// next in round-robin order, or a random one. Without a server to
    /// ask, the plan is an error.
    pub fn plan_query(&mut self, healthy: &Vec<UpstreamServer>, fastest: Option<UpstreamServer>) -> (r:
        Result<QueryPlan, String>)
        ensures
            final(self).strategy_view() == old(self).strategy_view(),
            old(self).strategy_view() != QueryStrategy::RoundRobin ==> final(self).counter_view()
                == old(self).counter_view(),
            match old(self).strategy_view() {
                QueryStrategy::Concurrent => if healthy@.len() == 0 {
                    r matches Err(m) && m@ == no_healthy_message()
                } else {
                    r matches Ok(QueryPlan::AllAtOnce(v)) && v@ == healthy@
                },
                QueryStrategy::Fastest => match fastest {
                    Some(s) => r matches Ok(QueryPlan::One(t)) && t == s,
                    None => r matches Err(m) && m@ == no_healthy_message(),
                },
                QueryStrategy::RoundRobin => if healthy@.len() == 0 {
                    &&& r matches Err(m) && m@ == no_healthy_message()
                    &&& final(self).counter_view() == old(self).counter_view()
                } else {
                    &&& r matches Ok(QueryPlan::One(t)) && t == healthy@[old(self).counter_view() as int
                        % healthy@.len() as int]
                    &&& final(self).counter_view() == (if old(self).counter_view() == usize::MAX {
                        0
                    } else {
                        (old(self).counter_view() + 1) as usize
                    })
                },
                QueryStrategy::Random => if healthy@.len() == 0 {
                    r matches Err(m) && m@ == no_healthy_message()
                } else {
                    r matches Ok(QueryPlan::One(t)) && healthy@.contains(t)
                },
            },
    {
        match self.strategy {
            QueryStrategy::Concurrent => {
                if healthy.len() == 0 {
                    return Err(no_healthy());
                }
                let mut v: Vec<UpstreamServer> = Vec::new();
                let mut i: usize = 0;
                while i < healthy.len()
                    invariant
                        0 <= i <= healthy@.len(),
                        v@ == healthy@.subrange(0, i as int),
                    decreases healthy@.len() - i,
                {
                    v.push(healthy[i].clone());
                    assert(v@ =~= healthy@.subrange(0, i + 1));
                    i = i + 1;
                }
                assert(healthy@.subrange(0, healthy@.len() as int) =~= healthy@);
                Ok(QueryPlan::AllAtOnce(v))
            },
            QueryStrategy::Fastest => match fastest {
                Some(s) => Ok(QueryPlan::One(s)),
                None => Err(no_healthy()),
            },
            QueryStrategy::RoundRobin => {
                if healthy.len() == 0 {
                    return Err(no_healthy());
                }
                let i: usize = self.next_round_robin(healthy.len());
                Ok(QueryPlan::One(healthy[i].clone()))
            },
            QueryStrategy::Random => {
                if healthy.len() == 0 {
                    return Err(no_healthy());
                }
                let i: usize = self.random_pick(healthy.len());
                assert(healthy@.contains(healthy@[i as int]));
                Ok(QueryPlan::One(healthy[i].clone()))
            },
        }
    }
}

/// The error of a server whose reply was not accepted.
pub open spec fn rejected_reply_message(server: Seq<char>, code: DnsResponseCode) -> Seq<char> {
    server + " returned "@ + response_code_text(code)
}

/// The error when every server asked at once failed.
pub open spec fn all_failed_message(received: nat, last_error: Option<Seq<char>>) -> Seq<char> {
    "All "@ + decimal(received) + " upstream servers failed: "@ + match last_error {
        Some(e) => e,
        None => "unknown error"@,
    }
}

/// The replies of a concurrent query gathered so far: how many arrived
/// and the error of the last one that failed.
#[derive(Debug)]
pub struct ConcurrentTally {
    /// Replies received
    pub received: usize,
    /// Error of the last failed reply
    pub last_error: Option<String>,
}

impl ConcurrentTally {
    /// Nothing received yet.
    pub fn new() -> (t: ConcurrentTally)
        ensures
            t.received == 0,
            t.last_error is None,
    {
        ConcurrentTally { received: 0, last_error: None }
    }

    /// Takes one server's outcome: its name and reply code, or its error.
    /// Returns whether that reply is accepted (and wins). A rejected reply
    /// or an error becomes the last error.
    pub fn on_result(&mut self, outcome: &Result<(String, DnsResponseCode), String>) -> (accepted: bool)
        requires
            old(self).received < usize::MAX,
        ensures
            final(self).received == old(self).received + 1,
            match outcome {
                Ok((server, code)) => {
                    &&& accepted == reply_accepted(*code)
                    &&& accepted ==> final(self).last_error == old(self).last_error
                    &&& !accepted ==> (final(self).last_error matches Some(e) && e@
                        == rejected_reply_message(server@, *code))
                },
                Err(e) => !accepted && (final(self).last_error matches Some(m) && m@ == e@),
            },
    {
        self.received = self.received + 1;
        match outcome {
            Ok((server, code)) => {
                if accepts_reply(*code) {
                    true
                } else {
                    let mut v: Vec<char> = chars_of(server.as_str());
                    push_str(&mut v, " returned ");
                    let c: String = code.to_string();
                    push_chars(&mut v, &chars_of(c.as_str()));
                    self.last_error = Some(string_of(&v));
                    false
                }
            },
            Err(e) => {
                self.last_error = Some(e.clone());
                false
            },
        }
    }

    /// The error once every server failed.
    pub fn exhausted_message(&self) -> (m: String)
        ensures
            m@ == all_failed_message(
                self.received as nat,
                match self.last_error {
                    Some(e) => Some(e@),
                    None => None,
                },
            ),
    {
        let mut v: Vec<char> = Vec::new();
        push_str(&mut v, "All ");
        push_decimal(&mut v, self.received as u64);
        push_str(&mut v, " upstream servers failed: ");
        match &self.last_error {
            Some(e) => push_chars(&mut v, &chars_of(e.as_str())),
            None => push_str(&mut v, "unknown error"),
        }
        string_of(&v)
    }
}

/// The error when a server and every failover server failed.
pub open spec fn failover_exhausted_message(first_error: Seq<char>) -> Seq<char> {
    "Query failed and failover exhausted: "@ + first_error
}

/// The error reported when the chosen server failed with `first_error`
/// and no failover server answered.
pub fn failover_exhausted(first_error: &str) -> (m: String)
    ensures
        m@ == failover_exhausted_message(first_error@),
{
    let mut v: Vec<char> = Vec::new();
    push_str(&mut v, "Query failed and failover exhausted: ");
    push_chars(&mut v, &chars_of(first_error));
    string_of(&v)
}

/// An upstream server's answer: the response, how long it took, and which
/// server gave it.
#[derive(Debug)]
pub struct QueryResult {
    /// The DNS response
    pub response: DnsResponse,
    /// Response time in milliseconds
    pub response_time_ms: u64,
    /// Server ID that responded
    pub server_id: i64,
    /// Server name
    pub server_name: String,
}

impl ConcurrentTally {
    /// Takes one server's answer or error, judged by the answer's response
    /// code as `on_result` judges a reply.
    pub fn on_query_result(&mut self, outcome: &Result<QueryResult, String>) -> (accepted: bool)
        requires
            old(self).received < usize::MAX,
        ensures
            final(self).received == old(self).received + 1,
            match outcome {
                Ok(r) => {
                    &&& accepted == reply_accepted(r.response.response_code)
                    &&& accepted ==> final(self).last_error == old(self).last_error
                    &&& !accepted ==> (final(self).last_error matches Some(e) && e@
                        == rejected_reply_message(r.server_name@, r.response.response_code))
                },
                Err(e) => !accepted && (final(self).last_error matches Some(m) && m@ == e@),
            },
    {
        let seen: Result<(String, DnsResponseCode), String> = match outcome {
            Ok(r) => Ok((r.server_name.clone(), r.response.response_code)),
            Err(e) => Err(e.clone()),
        };
        self.on_result(&seen)
    }
}

/// A failover under way, after the chosen server failed: the other servers
/// to try in order, how many were asked, and the first server's error.
#[derive(Debug)]
pub struct Failover {
    candidates: Vec<UpstreamServer>,
    next: usize,
    first_error: String,
}

/// What a failover does next.
#[derive(Debug)]
pub enum FailoverStep {
    /// Ask this server.
    Ask(UpstreamServer),
    /// A server answered: this is the answer.
    Answered(QueryResult),
    /// Every other server failed too: the query fails with this error.
    Exhausted(String),
}

impl Failover {
    /// The servers to try, in order.
    pub closed spec fn candidates_view(&self) -> Seq<UpstreamServer> {
        self.candidates@
    }

    /// How many of them were asked.
    pub closed spec fn asked_view(&self) -> nat {
        self.next as nat
    }

    /// The error of the server that failed first.
    pub closed spec fn first_error_view(&self) -> Seq<char> {
        self.first_error@
    }

    /// No more servers are asked than there are.
    pub closed spec fn wf(&self) -> bool {
        self.next <= self.candidates@.len()
    }

    /// The step after the servers asked so far failed: the next one, or
    /// the end of the failover.
    fn step(&mut self) -> (s: FailoverStep)
        requires
            old(self).wf(),
        ensures
            final(self).wf(),
            final(self).candidates_view() == old(self).candidates_view(),
            final(self).first_error_view() == old(self).first_error_view(),
            old(self).asked_view() < old(self).candidates_view().len() ==> {
                &&& s matches FailoverStep::Ask(t)
                &&& t == old(self).candidates_view()[old(self).asked_view() as int]
                &&& final(self).asked_view() == old(self).asked_view() + 1
            },
            old(self).asked_view() >= old(self).candidates_view().len() ==> {
                &&& s matches FailoverStep::Exhausted(m)
                &&& m@ == failover_exhausted_message(old(self).first_error_view())
                &&& final(self).asked_view() == old(self).asked_view()
            },
    {
        if self.next < self.candidates.len() {
            let t = self.candidates[self.next].clone();
            self.next = self.next + 1;
            FailoverStep::Ask(t)
        } else {
            FailoverStep::Exhausted(failover_exhausted(self.first_error.as_str()))
        }
    }

    /// Starts failing over from server `failed_id`, which failed with
    /// `first_error`: the healthy servers other than it are asked in
    /// order, the first of them now.
    pub fn start(healthy: &Vec<UpstreamServer>, failed_id: i64, first_error: &str) -> (r: (Failover, FailoverStep))
        ensures
            r.0.wf(),
            r.0.candidates_view() == servers_without(healthy@, failed_id),
            r.0.first_error_view() == first_error@,
            servers_without(healthy@, failed_id).len() > 0 ==> {
                &&& r.1 matches FailoverStep::Ask(t)
                &&& t == servers_without(healthy@, failed_id)[0]
                &&& r.0.asked_view() == 1
            },
            servers_without(healthy@, failed_id).len() == 0 ==> (r.1 matches FailoverStep::Exhausted(m)
                && m@ == failover_exhausted_message(first_error@)),
    {
        let mut f = Failover {
            candidates: failover_candidates(healthy, failed_id),
            next: 0,
            first_error: first_error.to_owned(),
        };
        let s = f.step();
        (f, s)
    }

    /// Takes the outcome of asking the last server: an answer ends the
    /// failover with it, an error moves on to the next server.
    pub fn on_result(&mut self, outcome: Result<QueryResult, String>) -> (s: FailoverStep)
        requires
            old(self).wf(),
        ensures
            final(self).wf(),
            final(self).candidates_view() == old(self).candidates_view(),
            final(self).first_error_view() == old(self).first_error_view(),
            match outcome {
                Ok(r) => (s matches FailoverStep::Answered(a) && a == r) && final(self).asked_view()
                    == old(self).asked_view(),
                Err(_) => {
                    &&& old(self).asked_view() < old(self).candidates_view().len() ==> {
                        &&& s matches FailoverStep::Ask(t)
                        &&& t == old(self).candidates_view()[old(self).asked_view() as int]
                        &&& final(self).asked_view() == old(self).asked_view() + 1
                    }
                    &&& old(self).asked_view() >= old(self).candidates_view().len() ==> (s matches FailoverStep::Exhausted(
                        m,
                    ) && m@ == failover_exhausted_message(old(self).first_error_view()))
                },
            },
    {
        match outcome {
            Ok(r) => FailoverStep::Answered(r),
            Err(_) => self.step(),
        }
    }
}

} // verus!
