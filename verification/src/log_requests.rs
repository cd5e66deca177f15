//! Query log requests and answers: listing filters, pages, cleanup
//! messages, and the CSV export.

use vstd::prelude::*;
use crate::ip::{decimal, push_decimal, push_signed_decimal, signed_decimal};
use crate::models::{PaginatedResult, QueryLog, QueryLogFilter};
use crate::rewrite_requests::opt_view;
use crate::text::{chars_of, push_chars, push_str, string_of};

verus! {

broadcast use vstd::string::group_string_axioms;

/// Rows an export holds at most.
pub const EXPORT_MAX_ROWS: i64 = 10000;

/// What `chrono::DateTime::parse_from_rfc3339` reads from a text, as
/// milliseconds since the Unix epoch, if it reads one.
pub uninterp spec fn rfc3339_millis(text: Seq<char>) -> Option<i64>;

/// Calls `chrono::DateTime::parse_from_rfc3339` and converts the time to
/// milliseconds since the Unix epoch; the outcome is named by
/// `rfc3339_millis`.
#[verifier::external_body]
fn parse_rfc3339_millis(text: &str) -> (r: Option<i64>)
    ensures
        r == rfc3339_millis(text@),
{
    chrono::DateTime::parse_from_rfc3339(text).ok().map(|dt| dt.timestamp_millis())
}

/// Query parameters of a log listing or export.
#[derive(Debug)]
pub struct LogsQueryParams {
    pub query_name: Option<String>,
    pub query_type: Option<String>,
    pub client_ip: Option<String>,
    pub cache_hit: Option<bool>,
    pub start_time: Option<String>,
    pub end_time: Option<String>,
    pub limit: Option<i64>,
    pub offset: Option<i64>,
    pub format: Option<String>,
}

/// A time bound of a listing: an RFC 3339 text that reads, else none.
pub open spec fn time_bound(t: Option<String>) -> Option<i64> {
    match t {
        Some(s) => rfc3339_millis(s@),
        None => None,
    }
}

fn read_time_bound(t: &Option<String>) -> (r: Option<i64>)
    ensures
        r == time_bound(*t),
{
    match t {
        Some(s) => parse_rfc3339_millis(s.as_str()),
        None => None,
    }
}

impl From<LogsQueryParams> for QueryLogFilter {
    fn from(params: LogsQueryParams) -> (f: QueryLogFilter) {
        let start_time = read_time_bound(&params.start_time);
        let end_time = read_time_bound(&params.end_time);
        QueryLogFilter {
            query_name: params.query_name,
            query_type: params.query_type,
            client_ip: params.client_ip,
            cache_hit: params.cache_hit,
            start_time,
            end_time,
            limit: params.limit,
            offset: params.offset,
        }
    }
}

impl vstd::std_specs::convert::FromSpecImpl<LogsQueryParams> for QueryLogFilter {
    open spec fn obeys_from_spec() -> bool {
        true
    }

    open spec fn from_spec(params: LogsQueryParams) -> QueryLogFilter {
        QueryLogFilter {
            query_name: params.query_name,
            query_type: params.query_type,
            client_ip: params.client_ip,
            cache_hit: params.cache_hit,
            start_time: time_bound(params.start_time),
            end_time: time_bound(params.end_time),
            limit: params.limit,
            offset: params.offset,
        }
    }
}

/// One page of query logs, as the listing answers it.
#[derive(Debug)]
pub struct LogsListResponse {
    pub data: Vec<QueryLog>,
    pub total: i64,
    pub limit: i64,
    pub offset: i64,
    pub has_more: bool,
}

impl From<PaginatedResult<QueryLog>> for LogsListResponse {
    fn from(result: PaginatedResult<QueryLog>) -> (r: LogsListResponse) {
        let has_more: bool = (result.offset as i128) + (result.items.len() as i128)
            < (result.total as i128);
        LogsListResponse {
            data: result.items,
            total: result.total,
            limit: result.limit,
            offset: result.offset,
            has_more,
        }
    }
}

impl vstd::std_specs::convert::FromSpecImpl<PaginatedResult<QueryLog>> for LogsListResponse {
    open spec fn obeys_from_spec() -> bool {
        true
    }

    /// More entries follow the page when its end falls short of the total.
    open spec fn from_spec(result: PaginatedResult<QueryLog>) -> LogsListResponse {
        LogsListResponse {
            data: result.items,
            total: result.total,
            limit: result.limit,
            offset: result.offset,
            has_more: result.offset + result.items@.len() < result.total,
        }
    }
}

/// Cleanup parameters of a retention-based deletion.
#[derive(Debug)]
pub struct CleanupParams {
    pub days: i64,
}

/// The retention period of a cleanup that names none, in days.
pub fn default_retention_days() -> (d: i64)
    ensures
        d == 30,
{
    30
}

/// Cleanup parameters of a date-based deletion.
#[derive(Debug)]
pub struct CleanupBeforeDateParams {
    pub before_date: String,
}

/// Changes to the retention settings.
#[derive(Debug)]
pub struct UpdateRetentionParams {
    pub auto_cleanup_enabled: Option<bool>,
    pub retention_days: Option<i64>,
}

/// The report of a retention-based deletion.
pub fn older_than_message(deleted: u64, days: i64) -> (m: String)
    ensures
        m@ == "Deleted "@ + decimal(deleted as nat) + " query logs older than "@ + signed_decimal(
            days as int,
        ) + " days"@,
{
    let mut v: Vec<char> = Vec::new();
    push_str(&mut v, "Deleted ");
    push_decimal(&mut v, deleted);
    push_str(&mut v, " query logs older than ");
    push_signed_decimal(&mut v, days);
    push_str(&mut v, " days");
    string_of(&v)
}

/// The report of a date-based deletion.
pub fn before_date_message(deleted: u64, before_date: &str) -> (m: String)
    ensures
        m@ == "Deleted "@ + decimal(deleted as nat) + " query logs before "@ + before_date@,
{
    let mut v: Vec<char> = Vec::new();
    push_str(&mut v, "Deleted ");
    push_decimal(&mut v, deleted);
    push_str(&mut v, " query logs before ");
    push_str(&mut v, before_date);
    string_of(&v)
}

/// The report of a deletion of every log.
pub fn all_deleted_message(deleted: u64) -> (m: String)
    ensures
        m@ == "Deleted all "@ + decimal(deleted as nat) + " query logs"@,
{
    let mut v: Vec<char> = Vec::new();
    push_str(&mut v, "Deleted all ");
    push_decimal(&mut v, deleted);
    push_str(&mut v, " query logs");
    string_of(&v)
}

/// Whether an export is JSON: its format says `json` in any ASCII case;
/// without a format it is CSV.
pub fn export_as_json(format: &Option<String>) -> (r: bool)
    ensures
        r == (match format {
            Some(f) => crate::text::ascii_lower(f@) == "json"@,
            None => false,
        }),
{
    match format {
        Some(f) => {
            let lower: Vec<char> = crate::text::lower_ascii(&chars_of(f.as_str()));
            let json: Vec<char> = chars_of("json");
            let same: bool = lower.len() == json.len() && crate::text::starts_with(&lower, &json);
            assert(lower@.subrange(0, lower@.len() as int) =~= lower@);
            same
        },
        None => false,
    }
}

/// Whether a CSV field must be quoted: it holds a comma, a quote, a line
/// feed or a carriage return.
pub open spec fn needs_quotes(s: Seq<char>) -> bool {
    s.contains(',') || s.contains('"') || s.contains('\n') || s.contains('\r')
}

/// `s` with every quote doubled.
pub open spec fn double_quotes(s: Seq<char>) -> Seq<char>
    decreases s.len(),
{
    if s.len() == 0 {
        Seq::empty()
    } else {
        double_quotes(s.drop_last()) + if s.last() == '"' {
            seq!['"', '"']
        } else {
            seq![s.last()]
        }
    }
}

/// A value as a CSV field: quoted, with quotes doubled, when it holds a
/// separator, a quote or a line break; otherwise as it is.
pub open spec fn csv_field_text(s: Seq<char>) -> Seq<char> {
    if needs_quotes(s) {
        seq!['"'] + double_quotes(s) + seq!['"']
    } else {
        s
    }
}

/// Renders a value as a CSV field.
pub fn csv_field(value: &str) -> (r: String)
    ensures
        r@ == csv_field_text(value@),
{
    let cs: Vec<char> = chars_of(value);
    let needs: bool = crate::text::contains_char(&cs, ',') || crate::text::contains_char(&cs, '"')
        || crate::text::contains_char(&cs, '\n') || crate::text::contains_char(&cs, '\r');
    if !needs {
        return value.to_owned();
    }
    let mut v: Vec<char> = Vec::new();
    v.push('"');
    let mut i: usize = 0;
    while i < cs.len()
        invariant
            0 <= i <= cs@.len(),
            v@ == seq!['"'] + double_quotes(cs@.subrange(0, i as int)),
        decreases cs@.len() - i,
    {
        assert(cs@.subrange(0, i + 1).drop_last() =~= cs@.subrange(0, i as int));
        if cs[i] == '"' {
            v.push('"');
            v.push('"');
        } else {
            v.push(cs[i]);
        }
        assert(v@ =~= seq!['"'] + double_quotes(cs@.subrange(0, i + 1)));
        i = i + 1;
    }
    assert(cs@.subrange(0, cs@.len() as int) =~= cs@);
    v.push('"');
    assert(v@ =~= seq!['"'] + double_quotes(cs@) + seq!['"']);
    string_of(&v)
}

/// The header line of a CSV export.
pub open spec fn csv_header() -> Seq<char> {
    "Time,Client IP,Domain,Type,Response Code,Response Time(ms),Cache Hit,Upstream\n"@
}

/// An optional text, or the empty text.
pub open spec fn text_or_empty(o: Option<String>) -> Seq<char> {
    match o {
        Some(s) => s@,
        None => Seq::empty(),
    }
}

/// The CSV line of one log entry.
pub open spec fn csv_line(log: QueryLog) -> Seq<char> {
    csv_field_text(log.created_at@) + ","@ + csv_field_text(log.client_ip@) + ","@
        + csv_field_text(log.query_name@) + ","@ + csv_field_text(log.query_type@) + ","@
        + csv_field_text(text_or_empty(log.response_code)) + ","@ + signed_decimal(
        match log.response_time {
            Some(t) => t as int,
            None => 0,
        },
    ) + ","@ + (if log.cache_hit {
        "true"@
    } else {
        "false"@
    }) + ","@ + csv_field_text(text_or_empty(log.upstream_used)) + "\n"@
}

/// The Cache Hit column of a log's CSV line: the line ends with a comma,
/// `true` when the entry was answered from the cache and `false` when not,
/// a comma, the Upstream field and a newline.
pub proof fn law_csv_cache_hit_column(log: QueryLog)
    ensures
        ({
            let line = csv_line(log);
            let tail = ","@ + (if log.cache_hit {
                "true"@
            } else {
                "false"@
            }) + ","@ + csv_field_text(text_or_empty(log.upstream_used)) + "\n"@;
            line.len() >= tail.len() && line.subrange(line.len() - tail.len(), line.len() as int) == tail
        }),
{
    let line = csv_line(log);
    let cache = if log.cache_hit {
        "true"@
    } else {
        "false"@
    };
    let tail = ","@ + cache + ","@ + csv_field_text(text_or_empty(log.upstream_used)) + "\n"@;
    let head = csv_field_text(log.created_at@) + ","@ + csv_field_text(log.client_ip@) + ","@
        + csv_field_text(log.query_name@) + ","@ + csv_field_text(log.query_type@) + ","@
        + csv_field_text(text_or_empty(log.response_code)) + ","@ + signed_decimal(
        match log.response_time {
            Some(t) => t as int,
            None => 0,
        },
    );
    assert(line =~= head + tail);
    assert(line.subrange(line.len() - tail.len(), line.len() as int) =~= tail);
}

/// The CSV lines of log entries, in order.
pub open spec fn csv_lines(logs: Seq<QueryLog>) -> Seq<char>
    decreases logs.len(),
{
    if logs.len() == 0 {
        Seq::empty()
    } else {
        csv_lines(logs.drop_last()) + csv_line(logs.last())
    }
}

fn push_field(out: &mut Vec<char>, value: &str)
    ensures
        final(out)@ == old(out)@ + csv_field_text(value@),
{
    let f: String = csv_field(value);
    push_chars(out, &chars_of(f.as_str()));
}

fn opt_str(o: &Option<String>) -> (s: &str)
    ensures
        s@ == text_or_empty(*o),
{
    proof {
        reveal_strlit("");
    }
    match o {
        Some(v) => v.as_str(),
        None => "",
    }
}

/// The CSV line of one log entry.
fn csv_line_of(log: &QueryLog) -> (line: Vec<char>)
    ensures
        line@ == csv_line(*log),
{
    let first: String = csv_field(log.created_at.as_str());
    let mut v: Vec<char> = chars_of(first.as_str());
    push_str(&mut v, ",");
    push_field(&mut v, log.client_ip.as_str());
    push_str(&mut v, ",");
    push_field(&mut v, log.query_name.as_str());
    push_str(&mut v, ",");
    push_field(&mut v, log.query_type.as_str());
    push_str(&mut v, ",");
    push_field(&mut v, opt_str(&log.response_code));
    push_str(&mut v, ",");
    let t: i32 = match log.response_time {
        Some(t) => t,
        None => 0,
    };
    push_signed_decimal(&mut v, t as i64);
    push_str(&mut v, ",");
    if log.cache_hit {
        push_str(&mut v, "true");
    } else {
        push_str(&mut v, "false");
    }
    push_str(&mut v, ",");
    push_field(&mut v, opt_str(&log.upstream_used));
    push_str(&mut v, "\n");
    v
}

/// Renders log entries as CSV: a header line, then one line per entry
/// with its time, client, name, type, code, response time (0 when
/// unknown), cache hit and upstream.
pub fn to_csv(logs: &Vec<QueryLog>) -> (r: String)
    ensures
        r@ == csv_header() + csv_lines(logs@),
{
    let mut v: Vec<char> = Vec::new();
    push_str(&mut v, "Time,Client IP,Domain,Type,Response Code,Response Time(ms),Cache Hit,Upstream\n");
    let mut i: usize = 0;
    while i < logs.len()
        invariant
            0 <= i <= logs@.len(),
            v@ == csv_header() + csv_lines(logs@.subrange(0, i as int)),
        decreases logs@.len() - i,
    {
        let ghost before = v@;
        let line: Vec<char> = csv_line_of(&logs[i]);
        push_chars(&mut v, &line);
        proof {
            assert(logs@.subrange(0, i + 1).drop_last() =~= logs@.subrange(0, i as int));
            assert(logs@.subrange(0, i + 1).last() == logs@[i as int]);
            assert(v@ =~= before + csv_line(logs@[i as int]));
        }
        i = i + 1;
    }
    assert(logs@.subrange(0, logs@.len() as int) =~= logs@);
    string_of(&v)
}

} // verus!
