//! DNS message model: record types, queries, records, response codes and
//! responses, with the header fields read straight from wire bytes.

use vstd::prelude::*;
use crate::ip::{decimal, ip_text, ipv4_text, ipv6_text, push_decimal, Ipv4Addr, Ipv6Addr};
use crate::text::{all_ascii, ascii_upper, str_eq, string_of, to_uppercase, uppercase};

verus! {

broadcast use vstd::string::group_string_axioms;

/// Errors of DNS message handling.
#[derive(Debug)]
pub enum DnsError {
    ParseError(String),
    EncodeError(String),
    InvalidRecordType(String),
    InvalidDomainName(String),
    QueryFailed(String),
}

impl DnsError {
    /// The human-readable message of this error.
    pub fn to_string(&self) -> (s: String)
        ensures
            s@ == dns_error_text(*self),
    {
        let (prefix, detail): (&str, &String) = match self {
            DnsError::ParseError(m) => ("Failed to parse DNS message: ", m),
            DnsError::EncodeError(m) => ("Failed to encode DNS message: ", m),
            DnsError::InvalidRecordType(m) => ("Invalid record type: ", m),
            DnsError::InvalidDomainName(m) => ("Invalid domain name: ", m),
            DnsError::QueryFailed(m) => ("Query failed: ", m),
        };
        let mut s: String = prefix.to_owned();
        s.append(detail.as_str());
        s
    }
}

/// The message text of a DNS error.
pub open spec fn dns_error_text(e: DnsError) -> Seq<char> {
    match e {
        DnsError::ParseError(m) => "Failed to parse DNS message: "@ + m@,
        DnsError::EncodeError(m) => "Failed to encode DNS message: "@ + m@,
        DnsError::InvalidRecordType(m) => "Invalid record type: "@ + m@,
        DnsError::InvalidDomainName(m) => "Invalid domain name: "@ + m@,
        DnsError::QueryFailed(m) => "Query failed: "@ + m@,
    }
}

/// Supported DNS record types.
#[allow(non_camel_case_types, clippy::upper_case_acronyms)]
#[derive(Debug, Clone, Copy, PartialEq, Eq, Hash, Structural)]
pub enum RecordType {
    A,
    AAAA,
    CNAME,
    MX,
    TXT,
    PTR,
    NS,
    SOA,
    SRV,
}

/// The canonical (uppercase) name of a record type.
pub open spec fn record_type_name(t: RecordType) -> Seq<char> {
    match t {
        RecordType::A => "A"@,
        RecordType::AAAA => "AAAA"@,
        RecordType::CNAME => "CNAME"@,
        RecordType::MX => "MX"@,
        RecordType::TXT => "TXT"@,
        RecordType::PTR => "PTR"@,
        RecordType::NS => "NS"@,
        RecordType::SOA => "SOA"@,
        RecordType::SRV => "SRV"@,
    }
}

/// The record type whose canonical name is exactly `n`.
pub open spec fn record_type_named(n: Seq<char>) -> Option<RecordType> {
    if n == "A"@ {
        Some(RecordType::A)
    } else if n == "AAAA"@ {
        Some(RecordType::AAAA)
    } else if n == "CNAME"@ {
        Some(RecordType::CNAME)
    } else if n == "MX"@ {
        Some(RecordType::MX)
    } else if n == "TXT"@ {
        Some(RecordType::TXT)
    } else if n == "PTR"@ {
        Some(RecordType::PTR)
    } else if n == "NS"@ {
        Some(RecordType::NS)
    } else if n == "SOA"@ {
        Some(RecordType::SOA)
    } else if n == "SRV"@ {
        Some(RecordType::SRV)
    } else {
        None
    }
}

/// The record type a text names, compared after uppercasing.
pub open spec fn record_type_of_text(s: Seq<char>) -> Option<RecordType> {
    record_type_named(uppercase(s))
}

/// The position of a record type in `RecordType::all()`.
pub open spec fn record_type_index(t: RecordType) -> nat {
    match t {
        RecordType::A => 0,
        RecordType::AAAA => 1,
        RecordType::CNAME => 2,
        RecordType::MX => 3,
        RecordType::TXT => 4,
        RecordType::PTR => 5,
        RecordType::NS => 6,
        RecordType::SOA => 7,
        RecordType::SRV => 8,
    }
}

/// All supported record types, in declaration order.
pub open spec fn all_record_types() -> Seq<RecordType> {
    seq![
        RecordType::A,
        RecordType::AAAA,
        RecordType::CNAME,
        RecordType::MX,
        RecordType::TXT,
        RecordType::PTR,
        RecordType::NS,
        RecordType::SOA,
        RecordType::SRV,
    ]
}

impl RecordType {
    /// All supported record types.
    pub fn all() -> (r: &'static [RecordType])
        ensures
            r@ == all_record_types(),
    {
        let r: &'static [RecordType] = &[
            RecordType::A,
            RecordType::AAAA,
            RecordType::CNAME,
            RecordType::MX,
            RecordType::TXT,
            RecordType::PTR,
            RecordType::NS,
            RecordType::SOA,
            RecordType::SRV,
        ];
        assert(r@ =~= all_record_types());
        r
    }

    /// The canonical name of this record type.
    pub fn as_str(&self) -> (s: &'static str)
        ensures
            s@ == record_type_name(*self),
    {
        match self {
            RecordType::A => "A",
            RecordType::AAAA => "AAAA",
            RecordType::CNAME => "CNAME",
            RecordType::MX => "MX",
            RecordType::TXT => "TXT",
            RecordType::PTR => "PTR",
            RecordType::NS => "NS",
            RecordType::SOA => "SOA",
            RecordType::SRV => "SRV",
        }
    }

    /// The canonical name of this record type, as a `String`.
    pub fn to_string(&self) -> (s: String)
        ensures
            s@ == record_type_name(*self),
    {
        self.as_str().to_owned()
    }

    /// Position of this record type in the data plane bitmasks.
    pub fn mask_bit(self) -> (b: u16)
        ensures
            b == mask_bit_of(self),
    {
        let index: u16 = match self {
            RecordType::A => 0,
            RecordType::AAAA => 1,
            RecordType::CNAME => 2,
            RecordType::MX => 3,
            RecordType::TXT => 4,
            RecordType::PTR => 5,
            RecordType::NS => 6,
            RecordType::SOA => 7,
            RecordType::SRV => 8,
        };
        1u16 << index
    }
}

/// The data plane bit of a record type: bit `i` for the `i`-th type.
pub open spec fn mask_bit_of(t: RecordType) -> u16 {
    1u16 << (record_type_index(t) as u16)
}

/// Two bits below 16 overlap exactly when they are the same bit.
pub proof fn lemma_single_bits_overlap(i: u16, j: u16)
    requires
        i < 16,
        j < 16,
    ensures
        ((1u16 << i) & (1u16 << j) != 0) == (i == j),
{
    assert(i < 16 && j < 16 ==> (((1u16 << i) & (1u16 << j) != 0) == (i == j))) by (bit_vector);
}

/// Distinct record types have disjoint data plane bits.
pub proof fn law_record_type_bits_distinct(a: RecordType, b: RecordType)
    ensures
        (mask_bit_of(a) & mask_bit_of(b) != 0) == (a == b),
{
    lemma_single_bits_overlap(record_type_index(a) as u16, record_type_index(b) as u16);
}

/// Reads a record type from its name, in any letter case.
pub fn parse_record_type(s: &str) -> (r: Result<RecordType, DnsError>)
    ensures
        match record_type_of_text(s@) {
            Some(t) => r == Ok::<RecordType, DnsError>(t),
            None => r matches Err(DnsError::InvalidRecordType(m)) && m@ == s@,
        },
{
    let upper: String = to_uppercase(s);
    let u: &str = upper.as_str();
    if str_eq(u, "A") {
        Ok(RecordType::A)
    } else if str_eq(u, "AAAA") {
        Ok(RecordType::AAAA)
    } else if str_eq(u, "CNAME") {
        Ok(RecordType::CNAME)
    } else if str_eq(u, "MX") {
        Ok(RecordType::MX)
    } else if str_eq(u, "TXT") {
        Ok(RecordType::TXT)
    } else if str_eq(u, "PTR") {
        Ok(RecordType::PTR)
    } else if str_eq(u, "NS") {
        Ok(RecordType::NS)
    } else if str_eq(u, "SOA") {
        Ok(RecordType::SOA)
    } else if str_eq(u, "SRV") {
        Ok(RecordType::SRV)
    } else {
        Err(DnsError::InvalidRecordType(s.to_owned()))
    }
}

impl std::str::FromStr for RecordType {
    type Err = DnsError;

    fn from_str(s: &str) -> (r: Result<RecordType, DnsError>)
        ensures
            match record_type_of_text(s@) {
                Some(t) => r == Ok::<RecordType, DnsError>(t),
                None => r matches Err(DnsError::InvalidRecordType(m)) && m@ == s@,
            },
    {
        parse_record_type(s)
    }
}


/// A DNS query.
#[derive(Debug)]
pub struct DnsQuery {
    /// Query ID for matching responses
    pub id: u16,
    /// Domain name being queried
    pub name: String,
    /// Record type being queried
    pub record_type: RecordType,
    /// Whether recursion is desired
    pub recursion_desired: bool,
}

impl Clone for DnsQuery {
    fn clone(&self) -> (q: DnsQuery)
        ensures
            q == *self,
    {
        DnsQuery {
            id: self.id,
            name: self.name.clone(),
            record_type: self.record_type,
            recursion_desired: self.recursion_desired,
        }
    }
}

impl DnsQuery {
    /// A recursive query for `name` with an ID drawn from the clock.
    pub fn new(name: &str, record_type: RecordType) -> (q: DnsQuery)
        ensures
            q.name@ == name@,
            q.record_type == record_type,
            q.recursion_desired,
    {
        DnsQuery { id: rand_id(), name: name.to_owned(), record_type, recursion_desired: true }
    }

    /// A recursive query for `name` with the given ID.
    pub fn with_id(id: u16, name: &str, record_type: RecordType) -> (q: DnsQuery)
        ensures
            q.id == id,
            q.name@ == name@,
            q.record_type == record_type,
            q.recursion_desired,
    {
        DnsQuery { id, name: name.to_owned(), record_type, recursion_desired: true }
    }
}

/// A query ID taken from the sub-second part of the clock.
fn rand_id() -> (id: u16) {
    let nanos: u32 = crate::clock::subsec_nanos_now();
    (nanos % 65536) as u16
}

/// One DNS record of a response.
#[derive(Debug)]
pub struct DnsRecordData {
    /// Record name
    pub name: String,
    /// Record type
    pub record_type: RecordType,
    /// Record value (formatted as string)
    pub value: String,
    /// Time to live in seconds
    pub ttl: u32,
    /// Priority (for MX and SRV records)
    pub priority: Option<u16>,
}

/// The fields of a record, by views.
pub open spec fn record_is(
    r: DnsRecordData,
    name: Seq<char>,
    record_type: RecordType,
    value: Seq<char>,
    ttl: u32,
    priority: Option<u16>,
) -> bool {
    &&& r.name@ == name
    &&& r.record_type == record_type
    &&& r.value@ == value
    &&& r.ttl == ttl
    &&& r.priority == priority
}

/// The fields of a record, by views.
pub open spec fn record_view(r: DnsRecordData) -> (Seq<char>, RecordType, Seq<char>, u32, Option<u16>) {
    (r.name@, r.record_type, r.value@, r.ttl, r.priority)
}

impl Clone for DnsRecordData {
    fn clone(&self) -> (r: DnsRecordData)
        ensures
            r == *self,
    {
        DnsRecordData {
            name: self.name.clone(),
            record_type: self.record_type,
            value: self.value.clone(),
            ttl: self.ttl,
            priority: self.priority,
        }
    }
}

impl DnsRecordData {
    /// An A record; its value is the dotted-decimal address.
    pub fn a(name: &str, ip: Ipv4Addr, ttl: u32) -> (r: DnsRecordData)
        ensures
            record_is(r, name@, RecordType::A, ipv4_text(ip.octets_view()), ttl, None),
    {
        DnsRecordData {
            name: name.to_owned(),
            record_type: RecordType::A,
            value: ip.to_string(),
            ttl,
            priority: None,
        }
    }

    /// An AAAA record; its value is the address text.
    pub fn aaaa(name: &str, ip: Ipv6Addr, ttl: u32) -> (r: DnsRecordData)
        ensures
            record_is(r, name@, RecordType::AAAA, ipv6_text(ip.segments_view()), ttl, None),
    {
        DnsRecordData {
            name: name.to_owned(),
            record_type: RecordType::AAAA,
            value: ip.to_string(),
            ttl,
            priority: None,
        }
    }

    /// A CNAME record pointing at `target`.
    pub fn cname(name: &str, target: &str, ttl: u32) -> (r: DnsRecordData)
        ensures
            record_is(r, name@, RecordType::CNAME, target@, ttl, None),
    {
        DnsRecordData {
            name: name.to_owned(),
            record_type: RecordType::CNAME,
            value: target.to_owned(),
            ttl,
            priority: None,
        }
    }

    /// An MX record with the given exchange and priority.
    pub fn mx(name: &str, exchange: &str, priority: u16, ttl: u32) -> (r: DnsRecordData)
        ensures
            record_is(r, name@, RecordType::MX, exchange@, ttl, Some(priority)),
    {
        DnsRecordData {
            name: name.to_owned(),
            record_type: RecordType::MX,
            value: exchange.to_owned(),
            ttl,
            priority: Some(priority),
        }
    }

    /// A TXT record holding `text`.
    pub fn txt(name: &str, text: &str, ttl: u32) -> (r: DnsRecordData)
        ensures
            record_is(r, name@, RecordType::TXT, text@, ttl, None),
    {
        DnsRecordData {
            name: name.to_owned(),
            record_type: RecordType::TXT,
            value: text.to_owned(),
            ttl,
            priority: None,
        }
    }

    /// A PTR record pointing at `target`.
    pub fn ptr(name: &str, target: &str, ttl: u32) -> (r: DnsRecordData)
        ensures
            record_is(r, name@, RecordType::PTR, target@, ttl, None),
    {
        DnsRecordData {
            name: name.to_owned(),
            record_type: RecordType::PTR,
            value: target.to_owned(),
            ttl,
            priority: None,
        }
    }

    /// An NS record naming `nameserver`.
    pub fn ns(name: &str, nameserver: &str, ttl: u32) -> (r: DnsRecordData)
        ensures
            record_is(r, name@, RecordType::NS, nameserver@, ttl, None),
    {
        DnsRecordData {
            name: name.to_owned(),
            record_type: RecordType::NS,
            value: nameserver.to_owned(),
            ttl,
            priority: None,
        }
    }
}

/// DNS response codes.
#[derive(Debug, Clone, Copy, PartialEq, Eq, Structural)]
pub enum DnsResponseCode {
    NoError,
    FormErr,
    ServFail,
    NxDomain,
    NotImp,
    Refused,
    Other(u16),
}

/// The text of a response code.
pub open spec fn response_code_text(c: DnsResponseCode) -> Seq<char> {
    match c {
        DnsResponseCode::NoError => "NOERROR"@,
        DnsResponseCode::FormErr => "FORMERR"@,
        DnsResponseCode::ServFail => "SERVFAIL"@,
        DnsResponseCode::NxDomain => "NXDOMAIN"@,
        DnsResponseCode::NotImp => "NOTIMP"@,
        DnsResponseCode::Refused => "REFUSED"@,
        DnsResponseCode::Other(n) => "OTHER("@ + decimal(n as nat) + ")"@,
    }
}

/// The numeric RCODE of a response code.
pub open spec fn response_code_value(c: DnsResponseCode) -> u16 {
    match c {
        DnsResponseCode::NoError => 0,
        DnsResponseCode::FormErr => 1,
        DnsResponseCode::ServFail => 2,
        DnsResponseCode::NxDomain => 3,
        DnsResponseCode::NotImp => 4,
        DnsResponseCode::Refused => 5,
        DnsResponseCode::Other(n) => n,
    }
}

/// The response code with the numeric RCODE `v`.
pub open spec fn response_code_of_value(v: u16) -> DnsResponseCode {
    if v == 0 {
        DnsResponseCode::NoError
    } else if v == 1 {
        DnsResponseCode::FormErr
    } else if v == 2 {
        DnsResponseCode::ServFail
    } else if v == 3 {
        DnsResponseCode::NxDomain
    } else if v == 4 {
        DnsResponseCode::NotImp
    } else if v == 5 {
        DnsResponseCode::Refused
    } else {
        DnsResponseCode::Other(v)
    }
}

impl DnsResponseCode {
    /// The text of this response code.
    pub fn to_string(&self) -> (s: String)
        ensures
            s@ == response_code_text(*self),
    {
        match self {
            DnsResponseCode::NoError => "NOERROR".to_owned(),
            DnsResponseCode::FormErr => "FORMERR".to_owned(),
            DnsResponseCode::ServFail => "SERVFAIL".to_owned(),
            DnsResponseCode::NxDomain => "NXDOMAIN".to_owned(),
            DnsResponseCode::NotImp => "NOTIMP".to_owned(),
            DnsResponseCode::Refused => "REFUSED".to_owned(),
            DnsResponseCode::Other(n) => {
                let mut v: Vec<char> = Vec::new();
                v.push('O');
                v.push('T');
                v.push('H');
                v.push('E');
                v.push('R');
                v.push('(');
                push_decimal(&mut v, *n as u64);
                v.push(')');
                proof {
                    reveal_strlit("OTHER(");
                    reveal_strlit(")");
                }
                assert(v@ =~= "OTHER("@ + decimal(*n as nat) + ")"@);
                string_of(&v)
            },
        }
    }

    /// The response code with the numeric RCODE `v`.
    pub fn from_value(v: u16) -> (c: DnsResponseCode)
        ensures
            c == response_code_of_value(v),
    {
        match v {
            0 => DnsResponseCode::NoError,
            1 => DnsResponseCode::FormErr,
            2 => DnsResponseCode::ServFail,
            3 => DnsResponseCode::NxDomain,
            4 => DnsResponseCode::NotImp,
            5 => DnsResponseCode::Refused,
            _ => DnsResponseCode::Other(v),
        }
    }

    /// The numeric RCODE of this response code.
    pub fn value(&self) -> (v: u16)
        ensures
            v == response_code_value(*self),
    {
        match self {
            DnsResponseCode::NoError => 0,
            DnsResponseCode::FormErr => 1,
            DnsResponseCode::ServFail => 2,
            DnsResponseCode::NxDomain => 3,
            DnsResponseCode::NotImp => 4,
            DnsResponseCode::Refused => 5,
            DnsResponseCode::Other(n) => *n,
        }
    }
}

/// A DNS response.
#[derive(Debug)]
pub struct DnsResponse {
    /// Response ID (matches query ID)
    pub id: u16,
    /// Response code
    pub response_code: DnsResponseCode,
    /// Whether this is an authoritative answer
    pub authoritative: bool,
    /// Whether recursion is available
    pub recursion_available: bool,
    /// Answer records
    pub answers: Vec<DnsRecordData>,
    /// Authority records
    pub authority: Vec<DnsRecordData>,
    /// Additional records
    pub additional: Vec<DnsRecordData>,
}

/// An empty, non-authoritative, recursion-available response.
pub open spec fn empty_response_is(r: DnsResponse, id: u16, code: DnsResponseCode) -> bool {
    &&& r.id == id
    &&& r.response_code == code
    &&& !r.authoritative
    &&& r.recursion_available
    &&& r.answers@.len() == 0
    &&& r.authority@.len() == 0
    &&& r.additional@.len() == 0
}

/// The smallest TTL among the answers, if there is any answer.
pub open spec fn min_ttl(answers: Seq<DnsRecordData>) -> Option<u32>
    decreases answers.len(),
{
    if answers.len() == 0 {
        None
    } else {
        let last = answers.last().ttl;
        match min_ttl(answers.drop_last()) {
            None => Some(last),
            Some(m) => Some(if m <= last { m } else { last }),
        }
    }
}

/// Two responses carry the same header fields and the same records.
pub open spec fn same_response(a: DnsResponse, b: DnsResponse) -> bool {
    &&& a.id == b.id
    &&& a.response_code == b.response_code
    &&& a.authoritative == b.authoritative
    &&& a.recursion_available == b.recursion_available
    &&& a.answers@ == b.answers@
    &&& a.authority@ == b.authority@
    &&& a.additional@ == b.additional@
}

fn clone_records(v: &Vec<DnsRecordData>) -> (r: Vec<DnsRecordData>)
    ensures
        r@ == v@,
{
    let mut r: Vec<DnsRecordData> = Vec::new();
    let mut i: usize = 0;
    while i < v.len()
        invariant
            0 <= i <= v@.len(),
            r@ == v@.subrange(0, i as int),
        decreases v@.len() - i,
    {
        r.push(v[i].clone());
        assert(r@ =~= v@.subrange(0, i + 1));
        i = i + 1;
    }
    assert(v@.subrange(0, v@.len() as int) =~= v@);
    r
}

impl Clone for DnsResponse {
    fn clone(&self) -> (r: DnsResponse)
        ensures
            same_response(r, *self),
    {
        DnsResponse {
            id: self.id,
            response_code: self.response_code,
            authoritative: self.authoritative,
            recursion_available: self.recursion_available,
            answers: clone_records(&self.answers),
            authority: clone_records(&self.authority),
            additional: clone_records(&self.additional),
        }
    }
}

impl DnsResponse {
    fn empty(id: u16, code: DnsResponseCode) -> (r: DnsResponse)
        ensures
            empty_response_is(r, id, code),
    {
        DnsResponse {
            id,
            response_code: code,
            authoritative: false,
            recursion_available: true,
            answers: Vec::new(),
            authority: Vec::new(),
            additional: Vec::new(),
        }
    }

    /// An empty NOERROR response.
    pub fn new(id: u16) -> (r: DnsResponse)
        ensures
            empty_response_is(r, id, DnsResponseCode::NoError),
    {
        Self::empty(id, DnsResponseCode::NoError)
    }

    /// An empty NXDOMAIN response.
    pub fn nxdomain(id: u16) -> (r: DnsResponse)
        ensures
            empty_response_is(r, id, DnsResponseCode::NxDomain),
    {
        Self::empty(id, DnsResponseCode::NxDomain)
    }

    /// An empty SERVFAIL response.
    pub fn servfail(id: u16) -> (r: DnsResponse)
        ensures
            empty_response_is(r, id, DnsResponseCode::ServFail),
    {
        Self::empty(id, DnsResponseCode::ServFail)
    }

    /// An empty REFUSED response.
    pub fn refused(id: u16) -> (r: DnsResponse)
        ensures
            empty_response_is(r, id, DnsResponseCode::Refused),
    {
        Self::empty(id, DnsResponseCode::Refused)
    }

    /// Appends an answer record.
    pub fn add_answer(&mut self, record: DnsRecordData)
        ensures
            final(self).answers@ == old(self).answers@.push(record),
            final(self).id == old(self).id,
            final(self).response_code == old(self).response_code,
            final(self).authoritative == old(self).authoritative,
            final(self).recursion_available == old(self).recursion_available,
            final(self).authority@ == old(self).authority@,
            final(self).additional@ == old(self).additional@,
    {
        self.answers.push(record);
    }

    /// The smallest TTL among the answer records, if there is any answer.
    pub fn min_answer_ttl(&self) -> (r: Option<u32>)
        ensures
            r == min_ttl(self.answers@),
    {
        let mut best: Option<u32> = None;
        let mut i: usize = 0;
        while i < self.answers.len()
            invariant
                0 <= i <= self.answers@.len(),
                best == min_ttl(self.answers@.subrange(0, i as int)),
            decreases self.answers@.len() - i,
        {
            let t: u32 = self.answers[i].ttl;
            best = match best {
                None => Some(t),
                Some(m) => Some(if m <= t { m } else { t }),
            };
            assert(self.answers@.subrange(0, i + 1).drop_last() =~= self.answers@.subrange(0, i as int));
            i = i + 1;
        }
        assert(self.answers@.subrange(0, self.answers@.len() as int) =~= self.answers@);
        best
    }
}

/// The transaction ID of a wire-format message: its first two bytes, big-endian.
pub open spec fn wire_transaction_id(bytes: Seq<u8>) -> Option<u16> {
    if bytes.len() < 2 {
        None
    } else {
        Some((bytes[0] as u16 * 256 + bytes[1] as u16) as u16)
    }
}

/// Whether the TC (truncation) bit of a wire-format header is set: bit 1 of byte 2.
pub open spec fn wire_truncated(bytes: Seq<u8>) -> bool {
    bytes.len() >= 3 && (bytes[2] / 2) % 2 == 1
}

/// The transaction ID of a wire-format message, if the header is long enough.
pub fn message_transaction_id(bytes: &[u8]) -> (r: Option<u16>)
    ensures
        r == wire_transaction_id(bytes@),
{
    if bytes.len() < 2 {
        None
    } else {
        let hi: u16 = bytes[0] as u16;
        let lo: u16 = bytes[1] as u16;
        Some(hi * 256 + lo)
    }
}

/// Whether a wire-format message has the TC (truncated) bit set.
pub fn message_is_truncated(bytes: &[u8]) -> (r: bool)
    ensures
        r == wire_truncated(bytes@),
{
    bytes.len() >= 3 && (bytes[2] / 2) % 2 == 1
}

/// A record type read back from its own name is the same type, whatever
/// the letter case of the name.
pub proof fn law_record_type_name_roundtrip(t: RecordType)
    ensures
        record_type_named(record_type_name(t)) == Some(t),
        all_ascii(record_type_name(t)),
        ascii_upper(record_type_name(t)) == record_type_name(t),
{
    reveal_strlit("A");
    reveal_strlit("AAAA");
    reveal_strlit("CNAME");
    reveal_strlit("MX");
    reveal_strlit("TXT");
    reveal_strlit("PTR");
    reveal_strlit("NS");
    reveal_strlit("SOA");
    reveal_strlit("SRV");
    let n = record_type_name(t);
    assert(t != RecordType::A ==> n != "A"@) by {
        if t != RecordType::A {
            assert(n.len() != 1 || n[0] != 'A');
        }
    }
    assert(t != RecordType::AAAA ==> n != "AAAA"@) by {
        if t != RecordType::AAAA {
            assert(n.len() != 4 || n[0] != 'A');
        }
    }
    assert(t != RecordType::CNAME ==> n != "CNAME"@) by {
        if t != RecordType::CNAME {
            assert(n.len() != 5);
        }
    }
    assert(t != RecordType::MX ==> n != "MX"@) by {
        if t != RecordType::MX {
            assert(n.len() != 2 || n[0] != 'M');
        }
    }
    assert(t != RecordType::TXT ==> n != "TXT"@) by {
        if t != RecordType::TXT {
            assert(n.len() != 3 || n[0] != 'T');
        }
    }
    assert(t != RecordType::PTR ==> n != "PTR"@) by {
        if t != RecordType::PTR {
            assert(n.len() != 3 || n[0] != 'P');
        }
    }
    assert(t != RecordType::NS ==> n != "NS"@) by {
        if t != RecordType::NS {
            assert(n.len() != 2 || n[0] != 'N');
        }
    }
    assert(t != RecordType::SOA ==> n != "SOA"@) by {
        if t != RecordType::SOA {
            assert(n.len() != 3 || n[1] != 'O');
        }
    }
    assert(ascii_upper(record_type_name(t)) =~= record_type_name(t));
}

} // verus!
