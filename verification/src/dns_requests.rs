//! The DNS query tool: its request, what makes it valid, and its answer.

use vstd::prelude::*;
use crate::message::{
    parse_record_type, record_type_name, record_type_named, record_type_of_text,
    response_code_text, DnsRecordData, RecordType,
};
use crate::resolver::ResolveResult;
use crate::rewrite_requests::{errors_view, field_error, validation_outcome, ValidationError, ValidationErrors};
use crate::text::{chars_of, str_eq, string_of, to_uppercase, uppercase, utf8_len, utf8_len_exceeds};

verus! {

broadcast use vstd::string::group_string_axioms;

/// A request of the query tool.
#[derive(Debug)]
pub struct DnsQueryRequest {
    pub domain: String,
    pub record_type: String,
}

/// One record of the tool's answer.
#[derive(Debug)]
pub struct DnsRecordResult {
    pub name: String,
    pub record_type: String,
    pub value: String,
    pub ttl: u32,
}

/// The tool's answer.
#[derive(Debug)]
pub struct DnsQueryResponse {
    pub domain: String,
    pub record_type: String,
    pub records: Vec<DnsRecordResult>,
    pub response_time_ms: u64,
    pub cache_hit: bool,
    pub upstream_used: Option<String>,
    pub rewrite_applied: bool,
    pub response_code: String,
}

/// The message for an unsupported record type.
pub open spec fn record_type_message() -> Seq<char> {
    "Invalid record type. Must be one of: A, AAAA, CNAME, MX, TXT, PTR, NS, SOA, SRV"@
}

/// The errors of a request: an empty domain or one longer than 255
/// bytes; a record type that is not one of the nine supported.
pub open spec fn query_request_errors(domain: Seq<char>, record_type: Seq<char>) -> Seq<
    (Seq<char>, Seq<char>),
> {
    let a = if domain.len() == 0 {
        seq![("domain"@, "Domain cannot be empty"@)]
    } else if utf8_len(domain) > 255 {
        seq![("domain"@, "Domain cannot exceed 255 characters"@)]
    } else {
        Seq::empty()
    };
    let b = if record_type_named(uppercase(record_type)) is Some {
        Seq::empty()
    } else {
        seq![("record_type"@, record_type_message())]
    };
    a + b
}

fn text(s: &str) -> (r: String)
    ensures
        r@ == s@,
{
    string_of(&chars_of(s))
}

fn supported(upper: &str) -> (r: bool)
    ensures
        r == (record_type_named(upper@) is Some),
{
    str_eq(upper, "A") || str_eq(upper, "AAAA") || str_eq(upper, "CNAME") || str_eq(upper, "MX")
        || str_eq(upper, "TXT") || str_eq(upper, "PTR") || str_eq(upper, "NS") || str_eq(upper, "SOA")
        || str_eq(upper, "SRV")
}

impl DnsQueryRequest {
    /// Checks the request, reporting every invalid field.
    pub fn validate(&self) -> (r: Result<(), ValidationErrors>)
        ensures
            validation_outcome(r, query_request_errors(self.domain@, self.record_type@)),
    {
        let mut errors: Vec<ValidationError> = Vec::new();
        let d: Vec<char> = chars_of(self.domain.as_str());
        if d.len() == 0 {
            errors.push(field_error("domain", text("Domain cannot be empty")));
        } else if utf8_len_exceeds(&d, 255) {
            errors.push(field_error("domain", text("Domain cannot exceed 255 characters")));
        }
        let ghost e1 = errors_view(errors@);
        let upper: String = to_uppercase(self.record_type.as_str());
        if !supported(upper.as_str()) {
            errors.push(
                field_error(
                    "record_type",
                    text(
                        "Invalid record type. Must be one of: A, AAAA, CNAME, MX, TXT, PTR, NS, SOA, SRV",
                    ),
                ),
            );
        }
        proof {
            let a = if self.domain@.len() == 0 {
                seq![("domain"@, "Domain cannot be empty"@)]
            } else if utf8_len(self.domain@) > 255 {
                seq![("domain"@, "Domain cannot exceed 255 characters"@)]
            } else {
                Seq::<(Seq<char>, Seq<char>)>::empty()
            };
            assert(e1 =~= a);
            assert(errors_view(errors@) =~= query_request_errors(self.domain@, self.record_type@));
        }
        if errors.len() == 0 {
            Ok(())
        } else {
            Err(ValidationErrors { errors })
        }
    }

    /// The record type the request names, in any letter case.
    pub fn get_record_type(&self) -> (r: Option<RecordType>)
        ensures
            r == record_type_of_text(self.record_type@),
    {
        match parse_record_type(self.record_type.as_str()) {
            Ok(t) => Some(t),
            Err(_) => None,
        }
    }
}

/// One record of a response, as the tool shows it.
pub fn record_result(r: &DnsRecordData) -> (x: DnsRecordResult)
    ensures
        x.name@ == r.name@,
        x.record_type@ == record_type_name(r.record_type),
        x.value@ == r.value@,
        x.ttl == r.ttl,
{
    DnsRecordResult {
        name: r.name.clone(),
        record_type: r.record_type.to_string(),
        value: r.value.clone(),
        ttl: r.ttl,
    }
}

impl DnsQueryResponse {
    /// The tool's answer for a request and its resolution: the domain, the
    /// uppercased type, every answer record, and what the resolution
    /// reported.
    pub fn from_result(request: &DnsQueryRequest, result: ResolveResult) -> (r: DnsQueryResponse)
        ensures
            r.domain@ == request.domain@,
            r.record_type@ == uppercase(request.record_type@),
            r.records@.len() == result.response.answers@.len(),
            forall|i: int|
                0 <= i < r.records@.len() ==> {
                    &&& (#[trigger] r.records@[i]).name@ == result.response.answers@[i].name@
                    &&& r.records@[i].record_type@ == record_type_name(
                        result.response.answers@[i].record_type,
                    )
                    &&& r.records@[i].value@ == result.response.answers@[i].value@
                    &&& r.records@[i].ttl == result.response.answers@[i].ttl
                },
            r.response_time_ms == result.metadata.response_time_ms,
            r.cache_hit == result.metadata.cache_hit,
            r.upstream_used == result.metadata.upstream_used,
            r.rewrite_applied == result.metadata.rewrite_applied,
            r.response_code@ == response_code_text(result.response.response_code),
    {
        let mut records: Vec<DnsRecordResult> = Vec::new();
        let mut i: usize = 0;
        while i < result.response.answers.len()
            invariant
                0 <= i <= result.response.answers@.len(),
                records@.len() == i,
                forall|k: int|
                    0 <= k < i ==> {
                        &&& (#[trigger] records@[k]).name@ == result.response.answers@[k].name@
                        &&& records@[k].record_type@ == record_type_name(
                            result.response.answers@[k].record_type,
                        )
                        &&& records@[k].value@ == result.response.answers@[k].value@
                        &&& records@[k].ttl == result.response.answers@[k].ttl
                    },
            decreases result.response.answers@.len() - i,
        {
            records.push(record_result(&result.response.answers[i]));
            i = i + 1;
        }
        DnsQueryResponse {
            domain: request.domain.clone(),
            record_type: to_uppercase(request.record_type.as_str()),
            records,
            response_time_ms: result.metadata.response_time_ms,
            cache_hit: result.metadata.cache_hit,
            upstream_used: result.metadata.upstream_used,
            rewrite_applied: result.metadata.rewrite_applied,
            response_code: result.response.response_code.to_string(),
        }
    }
}

} // verus!
