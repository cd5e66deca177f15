//! Wire-format DNS messages. A decoded message is held as plain values
//! (`WireMessage`); verified functions turn it into queries and responses of
//! this library and back, and small calls into hickory-proto decode and
//! encode the bytes.

use vstd::prelude::*;
use hickory_proto::op::{Message, MessageType, OpCode, Query};
use hickory_proto::rr::rdata::{A, AAAA, CNAME, MX, NS, PTR, SOA, SRV, TXT};
use hickory_proto::rr::{Name, RData, Record, RecordType as WireType};
use hickory_proto::serialize::binary::{BinDecodable, BinEncodable};
use std::str::FromStr;
use crate::ip::{
    decimal, ipv4_text, ipv6_text, parse_ipv4, parse_ipv6, parsed_ipv4, parsed_ipv6, push_decimal,
    push_signed_decimal, signed_decimal, Ipv4Addr, Ipv6Addr,
};
use crate::message::{
    record_view, response_code_of_value, response_code_value, DnsError, DnsQuery, DnsRecordData,
    DnsResponse, DnsResponseCode, RecordType,
};
use crate::number::{parse_i32_chars, parse_u16, parse_u32_chars, parsed_i32, parsed_u16, parsed_u32};
use crate::text::{ascii_lower, ascii_lower_char, chars_of, push_chars, push_str, split_words, string_of, trim_dots, trim_trailing_dots, words};

verus! {

/// hickory-proto's DNS message.
#[verifier::external_type_specification]
#[verifier::external_body]
pub struct ExMessage(Message);

/// hickory-proto's domain name.
#[verifier::external_type_specification]
#[verifier::external_body]
pub struct ExName(Name);

/// hickory-proto's record data.
#[verifier::external_type_specification]
#[verifier::external_body]
pub struct ExRData(RData);

/// The header fields of a message that this library reads and writes.
#[derive(Debug, Clone, Copy, PartialEq, Eq, Structural)]
pub struct WireHeader {
    pub id: u16,
    pub authoritative: bool,
    pub recursion_desired: bool,
    pub recursion_available: bool,
    /// The numeric response code (RCODE, extended by EDNS where present).
    pub response_code: u16,
}

/// A question: the name as text and the numeric record type.
#[derive(Debug)]
pub struct WireQuestion {
    pub name: String,
    pub type_code: u16,
}

/// Record data, with domain names as text.
#[derive(Debug)]
pub enum WireData {
    /// The four octets of an IPv4 address.
    A([u8; 4]),
    /// The eight segments of an IPv6 address.
    AAAA([u16; 8]),
    CNAME(String),
    /// Preference and exchange.
    MX(u16, String),
    /// The character strings of the record, as bytes.
    TXT(Vec<Vec<u8>>),
    PTR(String),
    NS(String),
    /// Primary name server, responsible mailbox, serial, refresh, retry,
    /// expire and minimum.
    SOA(String, String, u32, i32, i32, i32, u32),
    /// Priority, weight, port and target.
    SRV(u16, u16, u16, String),
    /// Any other type of record data.
    Other,
}

/// A resource record: owner name as text, TTL and data.
#[derive(Debug)]
pub struct WireRecord {
    pub name: String,
    pub ttl: u32,
    pub data: WireData,
}

/// A message: header, questions and the three record sections.
#[derive(Debug)]
pub struct WireMessage {
    pub header: WireHeader,
    pub questions: Vec<WireQuestion>,
    pub answers: Vec<WireRecord>,
    pub authority: Vec<WireRecord>,
    pub additional: Vec<WireRecord>,
}

/// Record data as plain values: what a `WireData` holds, by views.
pub enum DataView {
    A(Seq<u8>),
    AAAA(Seq<u16>),
    CNAME(Seq<char>),
    MX(u16, Seq<char>),
    TXT(Seq<Seq<u8>>),
    PTR(Seq<char>),
    NS(Seq<char>),
    SOA(Seq<char>, Seq<char>, u32, i32, i32, i32, u32),
    SRV(u16, u16, u16, Seq<char>),
    Other,
}

/// A message as plain values: what a `WireMessage` holds, by views.
pub struct MessageView {
    pub header: WireHeader,
    pub questions: Seq<(Seq<char>, u16)>,
    pub answers: Seq<(Seq<char>, u32, DataView)>,
    pub authority: Seq<(Seq<char>, u32, DataView)>,
    pub additional: Seq<(Seq<char>, u32, DataView)>,
}

/// The plain values of record data.
pub open spec fn data_view(d: WireData) -> DataView {
    match d {
        WireData::A(o) => DataView::A(o@),
        WireData::AAAA(g) => DataView::AAAA(g@),
        WireData::CNAME(t) => DataView::CNAME(t@),
        WireData::MX(p, e) => DataView::MX(p, e@),
        WireData::TXT(parts) => DataView::TXT(parts@.map_values(|p: Vec<u8>| p@)),
        WireData::PTR(t) => DataView::PTR(t@),
        WireData::NS(t) => DataView::NS(t@),
        WireData::SOA(m, rn, serial, refresh, retry, expire, minimum) => DataView::SOA(
            m@,
            rn@,
            serial,
            refresh,
            retry,
            expire,
            minimum,
        ),
        WireData::SRV(p, w, port, t) => DataView::SRV(p, w, port, t@),
        WireData::Other => DataView::Other,
    }
}

/// The plain values of a section of records: owner name, TTL and data.
pub open spec fn records_view(ws: Seq<WireRecord>) -> Seq<(Seq<char>, u32, DataView)> {
    ws.map_values(|w: WireRecord| (w.name@, w.ttl, data_view(w.data)))
}

/// The plain values of a message.
pub open spec fn message_view(m: WireMessage) -> MessageView {
    MessageView {
        header: m.header,
        questions: m.questions@.map_values(|q: WireQuestion| (q.name@, q.type_code)),
        answers: records_view(m.answers@),
        authority: records_view(m.authority@),
        additional: records_view(m.additional@),
    }
}

/// What hickory-proto's `Message::to_bytes` writes for a message of type
/// response (or query) with opcode QUERY and the header fields, questions
/// and records of the view (names read by `Name::from_str`); `None` where a
/// name or the encoder is refused.
pub uninterp spec fn message_encoding(response: bool, m: MessageView) -> Option<Seq<u8>>;

/// What hickory-proto's `Message::from_bytes` decodes the bytes into, read
/// as plain values: header fields, questions and the records of the answer,
/// authority and additional sections, with names as `Display` for `Name`
/// writes them; `None` where it refuses the bytes.
pub uninterp spec fn wire_decoding(bytes: Seq<u8>) -> Option<WireMessage>;

/// Whether hickory-proto's `Message::from_bytes` accepts the bytes.
pub open spec fn wire_decodes(bytes: Seq<u8>) -> bool {
    wire_decoding(bytes) is Some
}

/// The message the bytes decode into, where they decode.
pub open spec fn decoded_wire(bytes: Seq<u8>) -> WireMessage {
    wire_decoding(bytes)->0
}

/// The message a query is written as: the ID and recursion-desired flag,
/// no other flag, RCODE 0, one question of the name and numeric type, and
/// no records.
pub open spec fn query_message_view(id: u16, recursion_desired: bool, name: Seq<char>, type_code: u16) -> MessageView {
    MessageView {
        header: WireHeader {
            id,
            authoritative: false,
            recursion_desired,
            recursion_available: false,
            response_code: 0,
        },
        questions: seq![(name, type_code)],
        answers: seq![],
        authority: seq![],
        additional: seq![],
    }
}

/// Whether hickory-proto's `Name::from_str` accepts the text as a domain name.
pub uninterp spec fn name_parses(text: Seq<char>) -> bool;

/// What `Display` for hickory-proto's `RecordType` writes for a numeric type.
pub uninterp spec fn wire_type_name(code: u16) -> Seq<char>;

/// What `String::from_utf8_lossy` makes of the bytes.
pub uninterp spec fn utf8_lossy_text(bytes: Seq<u8>) -> Seq<char>;

/// The records of the three sections of a message, in order: answers,
/// then authority, then additional records.
pub open spec fn all_records(m: WireMessage) -> Seq<WireRecord> {
    m.answers@ + m.authority@ + m.additional@
}

/// Data of type A, AAAA or TXT.
pub open spec fn is_address_data(d: WireData) -> bool {
    d is A || d is AAAA || d is TXT
}

/// Data of type CNAME, PTR or NS.
pub open spec fn is_name_data(d: WireData) -> bool {
    d is CNAME || d is PTR || d is NS
}

/// Data of type MX, SOA or SRV.
pub open spec fn is_compound_data(d: WireData) -> bool {
    d is MX || d is SOA || d is SRV
}

/// Two messages with the same header, questions and sections.
pub open spec fn same_wire(a: WireMessage, b: WireMessage) -> bool {
    &&& a.header == b.header
    &&& a.questions@ == b.questions@
    &&& a.answers@ == b.answers@
    &&& a.authority@ == b.authority@
    &&& a.additional@ == b.additional@
}

/// Decodes the bytes with hickory-proto's `Message::from_bytes` and reads
/// `id`, `authoritative`, `recursion_desired`, `recursion_available` and
/// `response_code` (as a number): the header of the message
/// `wire_decoding` names, which is `None` exactly where the decoder refuses
/// the bytes; on refusal the error's text comes back.
#[verifier::external_body]
fn decode_header(bytes: &[u8]) -> (r: Result<WireHeader, String>)
    ensures
        r is Ok == wire_decoding(bytes@) is Some,
        r matches Ok(h) ==> wire_decoding(bytes@) matches Some(d) && h == d.header,
{
    Message::from_bytes(bytes).map_err(|e| e.to_string()).map(|m| WireHeader {
        id: m.id(),
        authoritative: m.authoritative(),
        recursion_desired: m.recursion_desired(),
        recursion_available: m.recursion_available(),
        response_code: u16::from(m.response_code()),
    })
}

/// Decodes the bytes with hickory-proto's `Message::from_bytes` and hands
/// out `Message::queries`, in order, each name through `Display` for
/// `Name` and each type as a number: the questions of the message
/// `wire_decoding` names.
#[verifier::external_body]
fn decode_questions(bytes: &[u8]) -> (r: Vec<WireQuestion>)
    ensures
        wire_decoding(bytes@) matches Some(d) ==> r@ == d.questions@,
{
    Message::from_bytes(bytes).map(|m| m.queries().iter().map(|q| WireQuestion {
        name: q.name().to_string(),
        type_code: u16::from(q.query_type()),
    }).collect()).unwrap_or_default()
}

/// Decodes the bytes with hickory-proto's `Message::from_bytes` and counts
/// `answers` and `name_servers`: the lengths of the answer and authority
/// sections of the message `wire_decoding` names.
#[verifier::external_body]
fn decode_section_sizes(bytes: &[u8]) -> (r: (usize, usize))
    ensures
        wire_decoding(bytes@) matches Some(d) ==> r.0 == d.answers@.len() && r.1 == d.authority@.len(),
{
    Message::from_bytes(bytes).map(|m| (m.answers().len(), m.name_servers().len())).unwrap_or_default()
}

/// Decodes the bytes with hickory-proto's `Message::from_bytes` and hands
/// out, for each record of `Message::all_sections` in order, its owner name
/// through `Display` for `Name` and its TTL: those of the records of
/// the message `wire_decoding` names.
#[verifier::external_body]
fn decode_record_heads(bytes: &[u8]) -> (r: Vec<(String, u32)>)
    ensures
        wire_decoding(bytes@) matches Some(d) ==> r@.len() == all_records(d).len() && forall|k: int|
            0 <= k < r@.len() ==> (#[trigger] r@[k]).0 == all_records(d)[k].name && r@[k].1 == all_records(
                d,
            )[k].ttl,
{
    Message::from_bytes(bytes).map(|m| m.all_sections().map(|r| (r.name().to_string(), r.ttl())).collect()).unwrap_or_default()
}

/// Decodes the bytes with hickory-proto's `Message::from_bytes` and, for
/// each record of `Message::all_sections` in order, reads `RData` of the
/// variants A, AAAA and TXT; `None` for the others. This is the data of the
/// records of those types of the message `wire_decoding` names.
#[verifier::external_body]
fn decode_address_data(bytes: &[u8]) -> (r: Vec<Option<WireData>>)
    ensures
        wire_decoding(bytes@) matches Some(d) ==> r@.len() == all_records(d).len() && forall|k: int|
            0 <= k < r@.len() ==> ((#[trigger] r@[k]) is Some == is_address_data(all_records(d)[k].data)) && (
            r@[k] matches Some(w) ==> w == all_records(d)[k].data),
{
    let m = Message::from_bytes(bytes).unwrap_or_default();
    m.all_sections().map(|r| match r.data() {
        RData::A(a) => Some(WireData::A(a.0.octets())),
        RData::AAAA(a) => Some(WireData::AAAA(a.0.segments())),
        RData::TXT(t) => Some(WireData::TXT(t.txt_data().iter().map(|b| b.to_vec()).collect())),
        _ => None,
    }).collect()
}

/// Decodes the bytes with hickory-proto's `Message::from_bytes` and, for
/// each record of `Message::all_sections` in order, reads `RData` of the
/// variants CNAME, PTR and NS (names through `Display` for `Name`); `None`
/// for the others. This is the data of the records of those types of the
/// message `wire_decoding` names.
#[verifier::external_body]
fn decode_name_data(bytes: &[u8]) -> (r: Vec<Option<WireData>>)
    ensures
        wire_decoding(bytes@) matches Some(d) ==> r@.len() == all_records(d).len() && forall|k: int|
            0 <= k < r@.len() ==> ((#[trigger] r@[k]) is Some == is_name_data(all_records(d)[k].data)) && (
            r@[k] matches Some(w) ==> w == all_records(d)[k].data),
{
    let m = Message::from_bytes(bytes).unwrap_or_default();
    m.all_sections().map(|r| match r.data() {
        RData::CNAME(n) => Some(WireData::CNAME(n.0.to_string())),
        RData::PTR(n) => Some(WireData::PTR(n.0.to_string())),
        RData::NS(n) => Some(WireData::NS(n.0.to_string())),
        _ => None,
    }).collect()
}

/// Decodes the bytes with hickory-proto's `Message::from_bytes` and, for
/// each record of `Message::all_sections` in order, reads `RData` of the
/// variants MX, SOA and SRV (names through `Display` for `Name`); `None`
/// for the others. This is the data of the records of those types of the
/// message `wire_decoding` names.
#[verifier::external_body]
fn decode_compound_data(bytes: &[u8]) -> (r: Vec<Option<WireData>>)
    ensures
        wire_decoding(bytes@) matches Some(d) ==> r@.len() == all_records(d).len() && forall|k: int|
            0 <= k < r@.len() ==> ((#[trigger] r@[k]) is Some == is_compound_data(all_records(d)[k].data)) && (
            r@[k] matches Some(w) ==> w == all_records(d)[k].data),
{
    let m = Message::from_bytes(bytes).unwrap_or_default();
    m.all_sections().map(|r| match r.data() {
        RData::MX(x) => Some(WireData::MX(x.preference(), x.exchange().to_string())),
        RData::SOA(x) => Some(WireData::SOA(
            x.mname().to_string(), x.rname().to_string(), x.serial(), x.refresh(), x.retry(), x.expire(), x.minimum(),
        )),
        RData::SRV(x) => Some(WireData::SRV(x.priority(), x.weight(), x.port(), x.target().to_string())),
        _ => None,
    }).collect()
}

/// A host name of ASCII letters and digits in labels joined by single
/// dots, with no dot at either end.
pub open spec fn plain_host(s: Seq<char>) -> bool {
    &&& s.len() > 0
    &&& s[0] != '.'
    &&& s.last() != '.'
    &&& forall|i: int|
        0 <= i < s.len() ==> (#[trigger] s[i] == '.' || ('a' <= s[i] && s[i] <= 'z') || ('A' <= s[i]
            && s[i] <= 'Z') || ('0' <= s[i] && s[i] <= '9'))
    &&& forall|i: int| 0 <= i < s.len() - 1 ==> !(#[trigger] s[i] == '.' && s[i + 1] == '.')
}

/// Builds hickory-proto's query `Message` (opcode QUERY, the ID and
/// recursion-desired flag, and one `Query::query` of `Name::from_str` of the
/// name and the numeric type) and calls `Message::to_bytes`. The bytes, or
/// `None` on refusal, are named by `message_encoding` of
/// `query_message_view`; an error's text comes back. Bytes written for a
/// plain host name and a supported type decode again to that message, the
/// name as `host_read_back` gives it (lowercased by IDNA mapping, and
/// fully qualified with a trailing dot by `Display` for `Name`); nothing is
/// said of the read-back for other names or types.
#[verifier::external_body]
fn encode_query(id: u16, recursion_desired: bool, name: &str, type_code: u16) -> (r: Result<Vec<u8>, String>)
    ensures
        match r {
            Ok(b) => message_encoding(false, query_message_view(id, recursion_desired, name@, type_code))
                == Some(b@),
            Err(_) => message_encoding(false, query_message_view(id, recursion_desired, name@, type_code))
                is None,
        },
        plain_message(query_message_view(id, recursion_desired, name@, type_code)) ==> (r matches Ok(b)
            ==> wire_decoding(b@) matches Some(d) && message_view(d) == view_read_back(
            query_message_view(id, recursion_desired, name@, type_code),
        )),
{
    let name = Name::from_str(name).map_err(|e| e.to_string())?;
    let mut m = Message::new();
    m.set_id(id).set_message_type(MessageType::Query).set_op_code(OpCode::Query);
    m.set_recursion_desired(recursion_desired);
    m.add_query(Query::query(name, WireType::from(type_code)));
    m.to_bytes().map_err(|e| e.to_string())
}

/// Calls hickory-proto's `Name::from_str`: whether it accepts the text is
/// named by `name_parses`; on refusal the error's text comes back.
#[verifier::external_body]
fn parse_name(text: &str) -> (r: Result<Name, String>)
    ensures
        r is Ok == name_parses(text@),
{
    Name::from_str(text).map_err(|e| e.to_string())
}

/// Formats a numeric record type through `Display` for hickory-proto's
/// `RecordType`; the text is named by `wire_type_name`.
#[verifier::external_body]
fn type_text(code: u16) -> (s: String)
    ensures
        s@ == wire_type_name(code),
{
    WireType::from(code).to_string()
}

/// Calls `String::from_utf8_lossy`; the text is named by `utf8_lossy_text`.
/// Valid UTF-8 comes back decoded, unchanged, as std documents.
#[verifier::external_body]
fn utf8_lossy(bytes: &[u8]) -> (s: String)
    ensures
        s@ == utf8_lossy_text(bytes@),
        s@ == lossy_text(bytes@),
{
    String::from_utf8_lossy(bytes).into_owned()
}

/// hickory-proto's `RData::A` of the octets.
#[verifier::external_body]
fn rdata_a(octets: [u8; 4]) -> (d: RData) {
    let [a, b, c, d] = octets;
    RData::A(A::new(a, b, c, d))
}

/// hickory-proto's `RData::AAAA` of the segments.
#[verifier::external_body]
fn rdata_aaaa(segments: [u16; 8]) -> (d: RData) {
    let [a, b, c, d, e, f, g, h] = segments;
    RData::AAAA(AAAA::new(a, b, c, d, e, f, g, h))
}

/// hickory-proto's `RData::CNAME` of the name.
#[verifier::external_body]
fn rdata_cname(target: Name) -> (d: RData) {
    RData::CNAME(CNAME(target))
}

/// hickory-proto's `RData::MX` of `MX::new`.
#[verifier::external_body]
fn rdata_mx(preference: u16, exchange: Name) -> (d: RData) {
    RData::MX(MX::new(preference, exchange))
}

/// hickory-proto's `RData::TXT` of `TXT::from_bytes`.
#[verifier::external_body]
fn rdata_txt(parts: &Vec<Vec<u8>>) -> (d: RData) {
    RData::TXT(TXT::from_bytes(parts.iter().map(|p| p.as_slice()).collect()))
}

/// hickory-proto's `RData::PTR` of the name.
#[verifier::external_body]
fn rdata_ptr(target: Name) -> (d: RData) {
    RData::PTR(PTR(target))
}

/// hickory-proto's `RData::NS` of the name.
#[verifier::external_body]
fn rdata_ns(target: Name) -> (d: RData) {
    RData::NS(NS(target))
}

/// hickory-proto's `RData::SOA` of `SOA::new`.
#[verifier::external_body]
fn rdata_soa(mname: Name, rname: Name, serial: u32, refresh: i32, retry: i32, expire: i32, minimum: u32) -> (d: RData) {
    RData::SOA(SOA::new(mname, rname, serial, refresh, retry, expire, minimum))
}

/// hickory-proto's `RData::SRV` of `SRV::new`.
#[verifier::external_body]
fn rdata_srv(priority: u16, weight: u16, port: u16, target: Name) -> (d: RData) {
    RData::SRV(SRV::new(priority, weight, port, target))
}

/// Every domain name in the data is accepted by `Name::from_str`, and the
/// data is of one of the nine supported types.
pub open spec fn wire_data_names_parse(d: WireData) -> bool {
    match d {
        WireData::A(_) => true,
        WireData::AAAA(_) => true,
        WireData::CNAME(t) => name_parses(t@),
        WireData::MX(_, e) => name_parses(e@),
        WireData::TXT(_) => true,
        WireData::PTR(t) => name_parses(t@),
        WireData::NS(t) => name_parses(t@),
        WireData::SOA(a, b, _, _, _, _, _) => name_parses(a@) && name_parses(b@),
        WireData::SRV(_, _, _, t) => name_parses(t@),
        WireData::Other => false,
    }
}

/// What `String::from_utf8_lossy` makes of the bytes: valid UTF-8 decoded,
/// as std documents; other bytes as named by `utf8_lossy_text`.
pub open spec fn lossy_text(bytes: Seq<u8>) -> Seq<char> {
    if vstd::utf8::valid_utf8(bytes) {
        vstd::utf8::decode_utf8(bytes)
    } else {
        utf8_lossy_text(bytes)
    }
}

/// The numeric code of a record type.
pub open spec fn type_code(t: RecordType) -> u16 {
    match t {
        RecordType::A => 1,
        RecordType::AAAA => 28,
        RecordType::CNAME => 5,
        RecordType::MX => 15,
        RecordType::TXT => 16,
        RecordType::PTR => 12,
        RecordType::NS => 2,
        RecordType::SOA => 6,
        RecordType::SRV => 33,
    }
}

/// The supported record type with a numeric code, if there is one.
pub open spec fn record_type_of_code(c: u16) -> Option<RecordType> {
    if c == 1 {
        Some(RecordType::A)
    } else if c == 28 {
        Some(RecordType::AAAA)
    } else if c == 5 {
        Some(RecordType::CNAME)
    } else if c == 15 {
        Some(RecordType::MX)
    } else if c == 16 {
        Some(RecordType::TXT)
    } else if c == 12 {
        Some(RecordType::PTR)
    } else if c == 2 {
        Some(RecordType::NS)
    } else if c == 6 {
        Some(RecordType::SOA)
    } else if c == 33 {
        Some(RecordType::SRV)
    } else {
        None
    }
}

/// The numeric code of a record type.
pub fn wire_type_code(t: RecordType) -> (c: u16)
    ensures
        c == type_code(t),
{
    match t {
        RecordType::A => 1,
        RecordType::AAAA => 28,
        RecordType::CNAME => 5,
        RecordType::MX => 15,
        RecordType::TXT => 16,
        RecordType::PTR => 12,
        RecordType::NS => 2,
        RecordType::SOA => 6,
        RecordType::SRV => 33,
    }
}

/// The supported record type with a numeric code, if there is one.
pub fn record_type_from_code(c: u16) -> (r: Option<RecordType>)
    ensures
        r == record_type_of_code(c),
{
    match c {
        1 => Some(RecordType::A),
        28 => Some(RecordType::AAAA),
        5 => Some(RecordType::CNAME),
        15 => Some(RecordType::MX),
        16 => Some(RecordType::TXT),
        12 => Some(RecordType::PTR),
        2 => Some(RecordType::NS),
        6 => Some(RecordType::SOA),
        33 => Some(RecordType::SRV),
        _ => None,
    }
}

/// The RCODE written on the wire for a response code. The six named codes
/// have their own numbers; for `Other(n)` the high byte of `n` goes to bits
/// 4 to 11 and its lowest four bits to bits 0 to 3.
pub open spec fn wire_rcode(c: DnsResponseCode) -> u16 {
    match c {
        DnsResponseCode::Other(n) => ((n / 256) * 16 + n % 16) as u16,
        _ => response_code_value(c),
    }
}

/// The RCODE written on the wire for a response code.
pub fn rcode_for_wire(c: DnsResponseCode) -> (v: u16)
    ensures
        v == wire_rcode(c),
{
    match c {
        DnsResponseCode::Other(n) => (n / 256) * 16 + n % 16,
        _ => c.value(),
    }
}

/// The text of the character strings of a TXT record, joined.
pub open spec fn lossy_join(parts: Seq<Vec<u8>>) -> Seq<char>
    decreases parts.len(),
{
    if parts.len() == 0 {
        seq![]
    } else {
        lossy_join(parts.drop_last()) + lossy_text(parts.last()@)
    }
}

/// The value of an SOA record as text: both names without trailing dots,
/// then the five numbers, separated by single spaces.
pub open spec fn soa_text(
    mname: Seq<char>,
    rname: Seq<char>,
    serial: u32,
    refresh: i32,
    retry: i32,
    expire: i32,
    minimum: u32,
) -> Seq<char> {
    trim_dots(mname) + seq![' '] + trim_dots(rname) + seq![' '] + decimal(serial as nat) + seq![' ']
        + signed_decimal(refresh as int) + seq![' '] + signed_decimal(retry as int) + seq![' ']
        + signed_decimal(expire as int) + seq![' '] + decimal(minimum as nat)
}

/// The value of an SRV record as text: weight, port and the target without
/// trailing dots, separated by single spaces.
pub open spec fn srv_text(weight: u16, port: u16, target: Seq<char>) -> Seq<char> {
    decimal(weight as nat) + seq![' '] + decimal(port as nat) + seq![' '] + trim_dots(target)
}

/// The record of this library that a record read from the wire gives, as
/// its fields (owner name without trailing dots); `None` for record data of
/// another type.
pub open spec fn data_of_wire(r: WireRecord) -> Option<(Seq<char>, RecordType, Seq<char>, u32, Option<u16>)> {
    let name = trim_dots(r.name@);
    match r.data {
        WireData::A(o) => Some((name, RecordType::A, ipv4_text(o@), r.ttl, None)),
        WireData::AAAA(g) => Some((name, RecordType::AAAA, ipv6_text(g@), r.ttl, None)),
        WireData::CNAME(t) => Some((name, RecordType::CNAME, trim_dots(t@), r.ttl, None)),
        WireData::MX(p, e) => Some((name, RecordType::MX, trim_dots(e@), r.ttl, Some(p))),
        WireData::TXT(parts) => Some((name, RecordType::TXT, lossy_join(parts@), r.ttl, None)),
        WireData::PTR(t) => Some((name, RecordType::PTR, trim_dots(t@), r.ttl, None)),
        WireData::NS(t) => Some((name, RecordType::NS, trim_dots(t@), r.ttl, None)),
        WireData::SOA(m, rn, serial, refresh, retry, expire, minimum) => Some(
            (name, RecordType::SOA, soa_text(m@, rn@, serial, refresh, retry, expire, minimum), r.ttl, None),
        ),
        WireData::SRV(p, w, port, t) => Some((name, RecordType::SRV, srv_text(w, port, t@), r.ttl, Some(p))),
        WireData::Other => None,
    }
}

/// The records of this library that a section read from the wire gives,
/// in order, leaving out those of unsupported types.
pub open spec fn decoded_records(ws: Seq<WireRecord>) -> Seq<(Seq<char>, RecordType, Seq<char>, u32, Option<u16>)>
    decreases ws.len(),
{
    if ws.len() == 0 {
        seq![]
    } else {
        let rest = decoded_records(ws.drop_last());
        match data_of_wire(ws.last()) {
            Some(v) => rest.push(v),
            None => rest,
        }
    }
}

fn push_trimmed(out: &mut Vec<char>, s: &String)
    ensures
        final(out)@ == old(out)@ + trim_dots(s@),
{
    let t: String = trim_trailing_dots(s.as_str());
    push_str(out, t.as_str());
}

fn joined_text(parts: &Vec<Vec<u8>>) -> (s: String)
    ensures
        s@ == lossy_join(parts@),
{
    let mut v: Vec<char> = Vec::new();
    let mut i: usize = 0;
    while i < parts.len()
        invariant
            0 <= i <= parts@.len(),
            v@ == lossy_join(parts@.subrange(0, i as int)),
        decreases parts@.len() - i,
    {
        let piece: String = utf8_lossy(parts[i].as_slice());
        push_str(&mut v, piece.as_str());
        assert(parts@.subrange(0, i + 1).drop_last() =~= parts@.subrange(0, i as int));
        i = i + 1;
    }
    assert(parts@.subrange(0, parts@.len() as int) =~= parts@);
    string_of(&v)
}

fn soa_value(
    mname: &String,
    rname: &String,
    serial: u32,
    refresh: i32,
    retry: i32,
    expire: i32,
    minimum: u32,
) -> (s: String)
    ensures
        s@ == soa_text(mname@, rname@, serial, refresh, retry, expire, minimum),
{
    let mut v: Vec<char> = Vec::new();
    push_trimmed(&mut v, mname);
    v.push(' ');
    push_trimmed(&mut v, rname);
    v.push(' ');
    push_decimal(&mut v, serial as u64);
    v.push(' ');
    push_signed_decimal(&mut v, refresh as i64);
    v.push(' ');
    push_signed_decimal(&mut v, retry as i64);
    v.push(' ');
    push_signed_decimal(&mut v, expire as i64);
    v.push(' ');
    push_decimal(&mut v, minimum as u64);
    assert(v@ =~= soa_text(mname@, rname@, serial, refresh, retry, expire, minimum));
    string_of(&v)
}

fn srv_value(weight: u16, port: u16, target: &String) -> (s: String)
    ensures
        s@ == srv_text(weight, port, target@),
{
    let mut v: Vec<char> = Vec::new();
    push_decimal(&mut v, weight as u64);
    v.push(' ');
    push_decimal(&mut v, port as u64);
    v.push(' ');
    push_trimmed(&mut v, target);
    assert(v@ =~= srv_text(weight, port, target@));
    string_of(&v)
}

/// The record of this library that a record read from the wire gives:
/// names lose their trailing dots, addresses and numbers are written out,
/// TXT strings are joined; `None` for data of an unsupported type.
pub fn record_to_data(r: &WireRecord) -> (d: Option<DnsRecordData>)
    ensures
        match d {
            Some(x) => data_of_wire(*r) == Some(record_view(x)),
            None => data_of_wire(*r) is None,
        },
{
    let name: String = trim_trailing_dots(r.name.as_str());
    let ttl: u32 = r.ttl;
    let (record_type, value, priority): (RecordType, String, Option<u16>) = match &r.data {
        WireData::A(o) => {
            let ip = Ipv4Addr::new(o[0], o[1], o[2], o[3]);
            assert(ip.octets_view() =~= o@);
            (RecordType::A, ip.to_string(), None)
        },
        WireData::AAAA(g) => {
            let ip = Ipv6Addr::new(g[0], g[1], g[2], g[3], g[4], g[5], g[6], g[7]);
            assert(ip.segments_view() =~= g@);
            (RecordType::AAAA, ip.to_string(), None)
        },
        WireData::CNAME(t) => (RecordType::CNAME, trim_trailing_dots(t.as_str()), None),
        WireData::MX(p, e) => (RecordType::MX, trim_trailing_dots(e.as_str()), Some(*p)),
        WireData::TXT(parts) => (RecordType::TXT, joined_text(parts), None),
        WireData::PTR(t) => (RecordType::PTR, trim_trailing_dots(t.as_str()), None),
        WireData::NS(t) => (RecordType::NS, trim_trailing_dots(t.as_str()), None),
        WireData::SOA(m, rn, serial, refresh, retry, expire, minimum) => (
            RecordType::SOA,
            soa_value(m, rn, *serial, *refresh, *retry, *expire, *minimum),
            None,
        ),
        WireData::SRV(p, w, port, t) => (RecordType::SRV, srv_value(*w, *port, t), Some(*p)),
        WireData::Other => return None,
    };
    Some(DnsRecordData { name, record_type, value, ttl, priority })
}

/// The records of this library that a section read from the wire gives.
pub fn records_from_wire(ws: &Vec<WireRecord>) -> (r: Vec<DnsRecordData>)
    ensures
        r@.map_values(|d: DnsRecordData| record_view(d)) == decoded_records(ws@),
{
    let mut r: Vec<DnsRecordData> = Vec::new();
    let mut i: usize = 0;
    while i < ws.len()
        invariant
            0 <= i <= ws@.len(),
            r@.map_values(|d: DnsRecordData| record_view(d)) == decoded_records(ws@.subrange(0, i as int)),
        decreases ws@.len() - i,
    {
        assert(ws@.subrange(0, i + 1).drop_last() =~= ws@.subrange(0, i as int));
        match record_to_data(&ws[i]) {
            Some(d) => {
                let ghost before = r@;
                r.push(d);
                assert(r@.map_values(|d: DnsRecordData| record_view(d)) =~= before.map_values(
                    |d: DnsRecordData| record_view(d),
                ).push(record_view(d)));
            },
            None => {},
        }
        i = i + 1;
    }
    assert(ws@.subrange(0, ws@.len() as int) =~= ws@);
    r
}

/// The query that a message read from the wire asks, as its fields (name
/// without trailing dots); `None` when it has no question or the type of
/// its first question is not supported.
pub open spec fn query_of_wire(m: WireMessage) -> Option<(u16, Seq<char>, RecordType, bool)> {
    if m.questions@.len() == 0 {
        None
    } else {
        let q = m.questions@[0];
        match record_type_of_code(q.type_code) {
            Some(t) => Some((m.header.id, trim_dots(q.name@), t, m.header.recursion_desired)),
            None => None,
        }
    }
}

/// What reading a query from a message gives: the query it asks; a
/// `ParseError` when it has no question; an `InvalidRecordType` naming the
/// type of its first question when that type is not supported.
pub open spec fn query_read_from(m: WireMessage, r: Result<DnsQuery, DnsError>) -> bool {
    &&& (r is Ok) == (query_of_wire(m) is Some)
    &&& match r {
        Ok(q) => query_of_wire(m) == Some(query_view(q)),
        Err(DnsError::ParseError(e)) => m.questions@.len() == 0 && e@ == "No query in message"@,
        Err(DnsError::InvalidRecordType(e)) => m.questions@.len() > 0 && record_type_of_code(
            m.questions@[0].type_code,
        ) is None && e@ == wire_type_name(m.questions@[0].type_code),
        Err(_) => false,
    }
}

/// What reading a response from a message gives: its header fields, and
/// the records of its three sections that are of a supported type.
pub open spec fn response_read_from(m: WireMessage, r: DnsResponse) -> bool {
    &&& r.id == m.header.id
    &&& r.response_code == response_code_of_value(m.header.response_code)
    &&& r.authoritative == m.header.authoritative
    &&& r.recursion_available == m.header.recursion_available
    &&& r.answers@.map_values(|d: DnsRecordData| record_view(d)) == decoded_records(m.answers@)
    &&& r.authority@.map_values(|d: DnsRecordData| record_view(d)) == decoded_records(m.authority@)
    &&& r.additional@.map_values(|d: DnsRecordData| record_view(d)) == decoded_records(m.additional@)
}

/// The fields of a query.
pub open spec fn query_view(q: DnsQuery) -> (u16, Seq<char>, RecordType, bool) {
    (q.id, q.name@, q.record_type, q.recursion_desired)
}

impl DnsQuery {
    /// The query that a message read from the wire asks: its first
    /// question, with the message's ID and recursion-desired flag.
    pub fn from_wire(m: &WireMessage) -> (r: Result<DnsQuery, DnsError>)
        ensures
            query_read_from(*m, r),
    {
        if m.questions.len() == 0 {
            return Err(DnsError::ParseError("No query in message".to_owned()));
        }
        let q = &m.questions[0];
        match record_type_from_code(q.type_code) {
            None => Err(DnsError::InvalidRecordType(type_text(q.type_code))),
            Some(t) => Ok(
                DnsQuery {
                    id: m.header.id,
                    name: trim_trailing_dots(q.name.as_str()),
                    record_type: t,
                    recursion_desired: m.header.recursion_desired,
                },
            ),
        }
    }
}

impl DnsResponse {
    /// The response that a message read from the wire carries: its header
    /// fields, and the records of its three sections that are of a
    /// supported type.
    pub fn from_wire(m: &WireMessage) -> (r: DnsResponse)
        ensures
            response_read_from(*m, r),
    {
        DnsResponse {
            id: m.header.id,
            response_code: DnsResponseCode::from_value(m.header.response_code),
            authoritative: m.header.authoritative,
            recursion_available: m.header.recursion_available,
            answers: records_from_wire(&m.answers),
            authority: records_from_wire(&m.authority),
            additional: records_from_wire(&m.additional),
        }
    }
}

/// `p`, or `d` when there is none.
pub open spec fn or_default(p: Option<u16>, d: u16) -> u16 {
    match p {
        Some(v) => v,
        None => d,
    }
}

/// An SOA value as seven words: two domain names, then a `u32`, three
/// `i32` and a `u32`.
pub open spec fn soa_readable(ws: Seq<Seq<char>>) -> bool {
    &&& ws.len() == 7
    &&& name_parses(ws[0])
    &&& name_parses(ws[1])
    &&& parsed_u32(ws[2]) is Some
    &&& parsed_i32(ws[3]) is Some
    &&& parsed_i32(ws[4]) is Some
    &&& parsed_i32(ws[5]) is Some
    &&& parsed_u32(ws[6]) is Some
}

/// An SRV value as three words: weight, port and target name.
pub open spec fn srv_readable(ws: Seq<Seq<char>>) -> bool {
    &&& ws.len() == 3
    &&& parsed_u16(ws[0]) is Some
    &&& parsed_u16(ws[1]) is Some
    &&& name_parses(ws[2])
}

/// The value of a record of this library can be written on the wire for
/// its type.
pub open spec fn value_readable(d: DnsRecordData) -> bool {
    let v = d.value@;
    match d.record_type {
        RecordType::A => parsed_ipv4(v) is Some,
        RecordType::AAAA => parsed_ipv6(v) is Some,
        RecordType::CNAME => name_parses(v),
        RecordType::MX => name_parses(v),
        RecordType::TXT => true,
        RecordType::PTR => name_parses(v),
        RecordType::NS => name_parses(v),
        RecordType::SOA => soa_readable(words(v)),
        RecordType::SRV => srv_readable(words(v)),
    }
}

/// A record of this library can be written on the wire: its owner name
/// and its value are readable.
pub open spec fn record_encodable(d: DnsRecordData) -> bool {
    name_parses(d.name@) && value_readable(d)
}

/// The wire data a record of this library is written with: the address or
/// names read from the value, MX preference defaulting to 10 and SRV
/// priority to 0, the TXT value as one string of its UTF-8 bytes, SOA and
/// SRV numbers read from the words of the value.
pub open spec fn wire_data_is(d: DnsRecordData, w: WireData) -> bool {
    let v = d.value@;
    let ws = words(v);
    match (d.record_type, w) {
        (RecordType::A, WireData::A(o)) => parsed_ipv4(v) matches Some(ip) && o@ == ip.octets_view(),
        (RecordType::AAAA, WireData::AAAA(g)) => parsed_ipv6(v) matches Some(ip) && g@
            == ip.segments_view(),
        (RecordType::CNAME, WireData::CNAME(t)) => name_parses(v) && t@ == v,
        (RecordType::MX, WireData::MX(p, e)) => name_parses(v) && p == or_default(d.priority, 10) && e@
            == v,
        (RecordType::TXT, WireData::TXT(parts)) => parts@.len() == 1 && parts@[0]@
            == vstd::utf8::encode_utf8(v),
        (RecordType::PTR, WireData::PTR(t)) => name_parses(v) && t@ == v,
        (RecordType::NS, WireData::NS(t)) => name_parses(v) && t@ == v,
        (RecordType::SOA, WireData::SOA(m, rn, serial, refresh, retry, expire, minimum)) => {
            &&& soa_readable(ws)
            &&& m@ == ws[0]
            &&& rn@ == ws[1]
            &&& parsed_u32(ws[2]) == Some(serial)
            &&& parsed_i32(ws[3]) == Some(refresh)
            &&& parsed_i32(ws[4]) == Some(retry)
            &&& parsed_i32(ws[5]) == Some(expire)
            &&& parsed_u32(ws[6]) == Some(minimum)
        },
        (RecordType::SRV, WireData::SRV(p, weight, port, t)) => {
            &&& srv_readable(ws)
            &&& p == or_default(d.priority, 0)
            &&& parsed_u16(ws[0]) == Some(weight)
            &&& parsed_u16(ws[1]) == Some(port)
            &&& t@ == ws[2]
        },
        _ => false,
    }
}

/// The wire record a record of this library is written as.
pub open spec fn wire_record_is(d: DnsRecordData, w: WireRecord) -> bool {
    &&& w.name@ == d.name@
    &&& w.ttl == d.ttl
    &&& wire_data_is(d, w.data)
}

/// The wire records a list of records is written as: each that can be
/// written, in order; the others are left out.
pub open spec fn encodes_records(ds: Seq<DnsRecordData>, ws: Seq<WireRecord>) -> bool
    decreases ds.len(),
{
    if ds.len() == 0 {
        ws.len() == 0
    } else if record_encodable(ds.last()) {
        &&& ws.len() > 0
        &&& wire_record_is(ds.last(), ws.last())
        &&& encodes_records(ds.drop_last(), ws.drop_last())
    } else {
        encodes_records(ds.drop_last(), ws)
    }
}

fn name_ok(text: &str) -> (r: bool)
    ensures
        r == name_parses(text@),
{
    parse_name(text).is_ok()
}

fn soa_data(value: &String) -> (r: Option<WireData>)
    ensures
        r is Some == soa_readable(words(value@)),
        r matches Some(w) ==> w matches WireData::SOA(m, rn, serial, refresh, retry, expire, minimum) && {
            let ws = words(value@);
            &&& m@ == ws[0]
            &&& rn@ == ws[1]
            &&& parsed_u32(ws[2]) == Some(serial)
            &&& parsed_i32(ws[3]) == Some(refresh)
            &&& parsed_i32(ws[4]) == Some(retry)
            &&& parsed_i32(ws[5]) == Some(expire)
            &&& parsed_u32(ws[6]) == Some(minimum)
        },
{
    let ws: Vec<Vec<char>> = split_words(&chars_of(value.as_str()));
    let ghost wv = ws@.map_values(|w: Vec<char>| w@);
    assert(wv == words(value@));
    if ws.len() != 7 {
        return None;
    }
    assert(wv[0] == ws@[0]@ && wv[1] == ws@[1]@ && wv[2] == ws@[2]@ && wv[3] == ws@[3]@);
    assert(wv[4] == ws@[4]@ && wv[5] == ws@[5]@ && wv[6] == ws@[6]@);
    let mname: String = string_of(&ws[0]);
    let rname: String = string_of(&ws[1]);
    if !name_ok(mname.as_str()) || !name_ok(rname.as_str()) {
        return None;
    }
    let serial = match parse_u32_chars(&ws[2]) {
        Some(x) => x,
        None => return None,
    };
    let refresh = match parse_i32_chars(&ws[3]) {
        Some(x) => x,
        None => return None,
    };
    let retry = match parse_i32_chars(&ws[4]) {
        Some(x) => x,
        None => return None,
    };
    let expire = match parse_i32_chars(&ws[5]) {
        Some(x) => x,
        None => return None,
    };
    let minimum = match parse_u32_chars(&ws[6]) {
        Some(x) => x,
        None => return None,
    };
    Some(WireData::SOA(mname, rname, serial, refresh, retry, expire, minimum))
}

fn srv_data(value: &String, priority: Option<u16>) -> (r: Option<WireData>)
    ensures
        r is Some == srv_readable(words(value@)),
        r matches Some(w) ==> w matches WireData::SRV(p, weight, port, t) && {
            let ws = words(value@);
            &&& p == or_default(priority, 0)
            &&& parsed_u16(ws[0]) == Some(weight)
            &&& parsed_u16(ws[1]) == Some(port)
            &&& t@ == ws[2]
        },
{
    let ws: Vec<Vec<char>> = split_words(&chars_of(value.as_str()));
    let ghost wv = ws@.map_values(|w: Vec<char>| w@);
    assert(wv == words(value@));
    if ws.len() != 3 {
        return None;
    }
    assert(wv[0] == ws@[0]@ && wv[1] == ws@[1]@ && wv[2] == ws@[2]@);
    let weight = match parse_u16(&ws[0]) {
        Some(x) => x,
        None => return None,
    };
    let port = match parse_u16(&ws[1]) {
        Some(x) => x,
        None => return None,
    };
    let target: String = string_of(&ws[2]);
    if !name_ok(target.as_str()) {
        return None;
    }
    let p: u16 = match priority {
        Some(x) => x,
        None => 0,
    };
    Some(WireData::SRV(p, weight, port, target))
}

/// The wire record a record of this library is written as, when its owner
/// name and value can be read for its type.
pub fn data_to_record(d: &DnsRecordData) -> (r: Option<WireRecord>)
    ensures
        r is Some == record_encodable(*d),
        r matches Some(w) ==> wire_record_is(*d, w),
{
    if !name_ok(d.name.as_str()) {
        return None;
    }
    let data: WireData = match d.record_type {
        RecordType::A => match parse_ipv4(d.value.as_str()) {
            Some(ip) => WireData::A(ip.octets()),
            None => return None,
        },
        RecordType::AAAA => match parse_ipv6(d.value.as_str()) {
            Some(ip) => WireData::AAAA(ip.segments()),
            None => return None,
        },
        RecordType::CNAME => {
            if !name_ok(d.value.as_str()) {
                return None;
            }
            WireData::CNAME(d.value.clone())
        },
        RecordType::MX => {
            if !name_ok(d.value.as_str()) {
                return None;
            }
            let p: u16 = match d.priority {
                Some(x) => x,
                None => 10,
            };
            WireData::MX(p, d.value.clone())
        },
        RecordType::TXT => {
            let bytes: Vec<u8> = vstd::slice::slice_to_vec(d.value.as_str().as_bytes());
            let mut parts: Vec<Vec<u8>> = Vec::new();
            parts.push(bytes);
            WireData::TXT(parts)
        },
        RecordType::PTR => {
            if !name_ok(d.value.as_str()) {
                return None;
            }
            WireData::PTR(d.value.clone())
        },
        RecordType::NS => {
            if !name_ok(d.value.as_str()) {
                return None;
            }
            WireData::NS(d.value.clone())
        },
        RecordType::SOA => match soa_data(&d.value) {
            Some(w) => w,
            None => return None,
        },
        RecordType::SRV => match srv_data(&d.value, d.priority) {
            Some(w) => w,
            None => return None,
        },
    };
    Some(WireRecord { name: d.name.clone(), ttl: d.ttl, data })
}

/// The wire records a list of records is written as.
pub fn records_to_wire(ds: &Vec<DnsRecordData>) -> (ws: Vec<WireRecord>)
    ensures
        encodes_records(ds@, ws@),
{
    let mut ws: Vec<WireRecord> = Vec::new();
    let mut i: usize = 0;
    while i < ds.len()
        invariant
            0 <= i <= ds@.len(),
            encodes_records(ds@.subrange(0, i as int), ws@),
        decreases ds@.len() - i,
    {
        assert(ds@.subrange(0, i + 1).drop_last() =~= ds@.subrange(0, i as int));
        match data_to_record(&ds[i]) {
            Some(w) => {
                let ghost before = ws@;
                ws.push(w);
                assert(ws@.drop_last() =~= before);
            },
            None => {},
        }
        i = i + 1;
    }
    assert(ds@.subrange(0, ds@.len() as int) =~= ds@);
    ws
}

/// The message a query is written as: its ID and recursion-desired flag,
/// no other flag, RCODE 0, its name and type as the question, no records.
pub open spec fn query_wire_is(q: DnsQuery, m: WireMessage) -> bool {
    &&& m.header == WireHeader {
        id: q.id,
        authoritative: false,
        recursion_desired: q.recursion_desired,
        recursion_available: false,
        response_code: 0,
    }
    &&& m.questions@.len() == 1
    &&& m.questions@[0].name@ == q.name@
    &&& m.questions@[0].type_code == type_code(q.record_type)
    &&& m.answers@.len() == 0
    &&& m.authority@.len() == 0
    &&& m.additional@.len() == 0
}

/// The message a response to a query is written as: the response's ID,
/// flags and RCODE with the query's recursion-desired flag, the query's
/// name and type as the question, and the records that can be written.
pub open spec fn response_wire_is(r: DnsResponse, q: DnsQuery, m: WireMessage) -> bool {
    &&& m.header == WireHeader {
        id: r.id,
        authoritative: r.authoritative,
        recursion_desired: q.recursion_desired,
        recursion_available: r.recursion_available,
        response_code: wire_rcode(r.response_code),
    }
    &&& m.questions@.len() == 1
    &&& m.questions@[0].name@ == q.name@
    &&& m.questions@[0].type_code == type_code(q.record_type)
    &&& encodes_records(r.answers@, m.answers@)
    &&& encodes_records(r.authority@, m.authority@)
    &&& encodes_records(r.additional@, m.additional@)
}

/// A plain host name as hickory-proto reads it back after writing it:
/// lowercased by IDNA mapping, with the trailing dot of a fully qualified
/// name.
pub open spec fn host_read_back(s: Seq<char>) -> Seq<char> {
    ascii_lower(s) + seq!['.']
}

/// Record data as it reads back after writing: its names as
/// `host_read_back` gives them, all else unchanged.
pub open spec fn data_read_back(d: DataView) -> DataView {
    match d {
        DataView::CNAME(t) => DataView::CNAME(host_read_back(t)),
        DataView::MX(p, e) => DataView::MX(p, host_read_back(e)),
        DataView::PTR(t) => DataView::PTR(host_read_back(t)),
        DataView::NS(t) => DataView::NS(host_read_back(t)),
        DataView::SOA(a, b, serial, refresh, retry, expire, minimum) => DataView::SOA(
            host_read_back(a),
            host_read_back(b),
            serial,
            refresh,
            retry,
            expire,
            minimum,
        ),
        DataView::SRV(p, w, port, t) => DataView::SRV(p, w, port, host_read_back(t)),
        _ => d,
    }
}

/// A section of records as it reads back after writing.
pub open spec fn records_read_back(v: Seq<(Seq<char>, u32, DataView)>) -> Seq<(Seq<char>, u32, DataView)> {
    v.map_values(|x: (Seq<char>, u32, DataView)| (host_read_back(x.0), x.1, data_read_back(x.2)))
}

/// A message as it reads back after writing: the same header, and its
/// names as `host_read_back` gives them.
pub open spec fn view_read_back(m: MessageView) -> MessageView {
    MessageView {
        header: m.header,
        questions: m.questions.map_values(|q: (Seq<char>, u16)| (host_read_back(q.0), q.1)),
        answers: records_read_back(m.answers),
        authority: records_read_back(m.authority),
        additional: records_read_back(m.additional),
    }
}

/// Record data whose names are plain host names, of a supported type, and
/// (for TXT) with at least one character string.
pub open spec fn plain_data(d: DataView) -> bool {
    match d {
        DataView::A(_) => true,
        DataView::AAAA(_) => true,
        DataView::CNAME(t) => plain_host(t),
        DataView::MX(_, e) => plain_host(e),
        DataView::TXT(parts) => parts.len() > 0,
        DataView::PTR(t) => plain_host(t),
        DataView::NS(t) => plain_host(t),
        DataView::SOA(a, b, _, _, _, _, _) => plain_host(a) && plain_host(b),
        DataView::SRV(_, _, _, t) => plain_host(t),
        DataView::Other => false,
    }
}

/// Records with plain host owner names and plain data.
pub open spec fn plain_records(v: Seq<(Seq<char>, u32, DataView)>) -> bool {
    forall|i: int| 0 <= i < v.len() ==> plain_host(#[trigger] v[i].0) && plain_data(v[i].2)
}

/// A message that reads back as `view_read_back` says: an RCODE that fits
/// the header, questions of plain host names and supported types, and
/// plain records.
pub open spec fn plain_message(m: MessageView) -> bool {
    &&& m.header.response_code < 16
    &&& forall|i: int|
        0 <= i < m.questions.len() ==> plain_host(#[trigger] m.questions[i].0) && record_type_of_code(
            m.questions[i].1,
        ) is Some
    &&& plain_records(m.answers)
    &&& plain_records(m.authority)
    &&& plain_records(m.additional)
}

/// Every name of a message is accepted by `Name::from_str`, and every
/// record holds data of a supported type.
pub open spec fn writable_message(m: WireMessage) -> bool {
    &&& forall|i: int| 0 <= i < m.questions@.len() ==> name_parses(#[trigger] m.questions@[i].name@)
    &&& writable_records(m.answers@)
    &&& writable_records(m.authority@)
    &&& writable_records(m.additional@)
}

/// Every record has an owner name accepted by `Name::from_str` and data
/// of a supported type whose names it accepts too.
pub open spec fn writable_records(ws: Seq<WireRecord>) -> bool {
    forall|i: int| 0 <= i < ws.len() ==> name_parses(#[trigger] ws[i].name@) && wire_data_names_parse(ws[i].data)
}

/// The hickory-proto owner name, TTL and data a writable wire record is
/// written with.
fn record_parts(w: &WireRecord) -> (r: (Name, u32, RData))
    requires
        name_parses(w.name@),
        wire_data_names_parse(w.data),
    ensures
        r.1 == w.ttl,
{
    let name = match parse_name(w.name.as_str()) {
        Ok(n) => n,
        Err(_) => unreached(),
    };
    let data = match to_rdata(&w.data) {
        Some(d) => d,
        None => unreached(),
    };
    (name, w.ttl, data)
}

/// The hickory-proto name and numeric type a question with a readable
/// name is written with.
fn question_parts(q: &WireQuestion) -> (r: (Name, u16))
    requires
        name_parses(q.name@),
    ensures
        r.1 == q.type_code,
{
    let name = match parse_name(q.name.as_str()) {
        Ok(n) => n,
        Err(_) => unreached(),
    };
    (name, q.type_code)
}

/// Builds hickory-proto's response `Message` (`Message::error_msg` of the
/// ID, opcode QUERY and `ResponseCode::from` of the RCODE, then the other
/// header flags) with the questions and the records of the three sections
/// (`Query::query` of `question_parts`, `Record::from_rdata` of
/// `record_parts`), and calls `Message::to_bytes`. The bytes, or `None` on
/// refusal, are named by `message_encoding`; an error's text comes back.
/// Bytes written for a message whose names are plain host names decode
/// again to that message, with its names as `host_read_back` gives them
/// (`Display` for `Name` writes a decoded name fully qualified); nothing
/// is said of the read-back of other messages.
#[verifier::external_body]
fn encode_response(m: &WireMessage) -> (r: Result<Vec<u8>, String>)
    requires
        writable_message(*m),
    ensures
        match r {
            Ok(b) => message_encoding(true, message_view(*m)) == Some(b@),
            Err(_) => message_encoding(true, message_view(*m)) is None,
        },
        plain_message(message_view(*m)) ==> (r matches Ok(b) ==> wire_decoding(b@) matches Some(d)
            && message_view(d) == view_read_back(message_view(*m))),
{
    let h = &m.header;
    let rec = |w| {
        let (n, t, d) = record_parts(w);
        Record::from_rdata(n, t, d)
    };
    let mut msg = Message::error_msg(h.id, OpCode::Query, h.response_code.into());
    msg.set_authoritative(h.authoritative).set_recursion_desired(h.recursion_desired)
        .set_recursion_available(h.recursion_available)
        .add_queries(m.questions.iter().map(question_parts).map(|(n, c)| Query::query(n, c.into())))
        .add_answers(m.answers.iter().map(rec)).add_name_servers(m.authority.iter().map(rec))
        .add_additionals(m.additional.iter().map(rec));
    msg.to_bytes().map_err(|e| e.to_string())
}

/// The wire records a list of records is written as can be written.
proof fn lemma_encoded_records_writable(ds: Seq<DnsRecordData>, ws: Seq<WireRecord>)
    requires
        encodes_records(ds, ws),
    ensures
        writable_records(ws),
    decreases ds.len(),
{
    if ds.len() > 0 {
        if record_encodable(ds.last()) {
            lemma_encoded_records_writable(ds.drop_last(), ws.drop_last());
            assert forall|i: int| 0 <= i < ws.len() implies name_parses(#[trigger] ws[i].name@)
                && wire_data_names_parse(ws[i].data) by {
                if i < ws.len() - 1 {
                    assert(ws[i] == ws.drop_last()[i]);
                }
            }
        } else {
            lemma_encoded_records_writable(ds.drop_last(), ws);
        }
    }
}

fn to_rdata(d: &WireData) -> (r: Option<RData>)
    ensures
        r is Some == wire_data_names_parse(*d),
{
    match d {
        WireData::A(o) => Some(rdata_a(*o)),
        WireData::AAAA(g) => Some(rdata_aaaa(*g)),
        WireData::CNAME(t) => match parse_name(t.as_str()) {
            Ok(n) => Some(rdata_cname(n)),
            Err(_) => None,
        },
        WireData::MX(p, e) => match parse_name(e.as_str()) {
            Ok(n) => Some(rdata_mx(*p, n)),
            Err(_) => None,
        },
        WireData::TXT(parts) => Some(rdata_txt(parts)),
        WireData::PTR(t) => match parse_name(t.as_str()) {
            Ok(n) => Some(rdata_ptr(n)),
            Err(_) => None,
        },
        WireData::NS(t) => match parse_name(t.as_str()) {
            Ok(n) => Some(rdata_ns(n)),
            Err(_) => None,
        },
        WireData::SOA(m, rn, serial, refresh, retry, expire, minimum) => match (
            parse_name(m.as_str()),
            parse_name(rn.as_str()),
        ) {
            (Ok(a), Ok(b)) => Some(rdata_soa(a, b, *serial, *refresh, *retry, *expire, *minimum)),
            _ => None,
        },
        WireData::SRV(p, w, port, t) => match parse_name(t.as_str()) {
            Ok(n) => Some(rdata_srv(*p, *w, *port, n)),
            Err(_) => None,
        },
        WireData::Other => None,
    }
}

/// Moves the first `n` items of `v` out, in order.
fn take_front(v: &mut Vec<WireRecord>, n: usize) -> (r: Vec<WireRecord>)
    requires
        n <= old(v)@.len(),
    ensures
        r@ == old(v)@.subrange(0, n as int),
        final(v)@ == old(v)@.subrange(n as int, old(v)@.len() as int),
{
    let mut r: Vec<WireRecord> = Vec::new();
    let mut i: usize = 0;
    while i < n
        invariant
            i <= n <= old(v)@.len(),
            r@ == old(v)@.subrange(0, i as int),
            v@ == old(v)@.subrange(i as int, old(v)@.len() as int),
        decreases n - i,
    {
        let x = v.remove(0);
        r.push(x);
        i = i + 1;
        assert(r@ =~= old(v)@.subrange(0, i as int));
        assert(v@ =~= old(v)@.subrange(i as int, old(v)@.len() as int));
    }
    r
}

/// The records of a decoded message, in the order of `all_records`, each
/// put together from its owner name and TTL and the data that one of the
/// three readers found (`Other` where none did).
fn decoded_record_list(bytes: &[u8]) -> (r: Vec<WireRecord>)
    requires
        wire_decodes(bytes@),
    ensures
        r@ == all_records(decoded_wire(bytes@)),
{
    let ghost all = all_records(decoded_wire(bytes@));
    let mut heads = decode_record_heads(bytes);
    let mut addr = decode_address_data(bytes);
    let mut names = decode_name_data(bytes);
    let mut comp = decode_compound_data(bytes);
    let n: usize = heads.len();
    let mut records: Vec<WireRecord> = Vec::new();
    let mut k: usize = 0;
    while k < n
        invariant
            n == all.len(),
            k <= n,
            heads@.len() == n - k,
            addr@.len() == n - k,
            names@.len() == n - k,
            comp@.len() == n - k,
            forall|j: int|
                0 <= j < n - k ==> (#[trigger] heads@[j]).0 == all[j + k].name && heads@[j].1 == all[j
                    + k].ttl,
            forall|j: int|
                0 <= j < n - k ==> ((#[trigger] addr@[j]) is Some == is_address_data(all[j + k].data))
                    && (addr@[j] matches Some(w) ==> w == all[j + k].data),
            forall|j: int|
                0 <= j < n - k ==> ((#[trigger] names@[j]) is Some == is_name_data(all[j + k].data))
                    && (names@[j] matches Some(w) ==> w == all[j + k].data),
            forall|j: int|
                0 <= j < n - k ==> ((#[trigger] comp@[j]) is Some == is_compound_data(all[j + k].data))
                    && (comp@[j] matches Some(w) ==> w == all[j + k].data),
            records@ == all.subrange(0, k as int),
        decreases n - k,
    {
        assert(heads@[0].0 == all[k as int].name);
        assert(addr@[0] is Some == is_address_data(all[k as int].data));
        assert(names@[0] is Some == is_name_data(all[k as int].data));
        assert(comp@[0] is Some == is_compound_data(all[k as int].data));
        let ghost old_heads = heads@;
        let ghost old_addr = addr@;
        let ghost old_names = names@;
        let ghost old_comp = comp@;
        let (name, ttl) = heads.remove(0);
        let a = addr.remove(0);
        let b = names.remove(0);
        let c = comp.remove(0);
        let data: WireData = match a {
            Some(w) => w,
            None => match b {
                Some(w) => w,
                None => match c {
                    Some(w) => w,
                    None => WireData::Other,
                },
            },
        };
        assert(data == all[k as int].data);
        records.push(WireRecord { name, ttl, data });
        k = k + 1;
        assert(records@ =~= all.subrange(0, k as int));
        assert forall|j: int| 0 <= j < n - k implies (#[trigger] heads@[j]).0 == all[j + k].name
            && heads@[j].1 == all[j + k].ttl by {
            assert(heads@[j] == old_heads[j + 1]);
        }
        assert forall|j: int| 0 <= j < n - k implies ((#[trigger] addr@[j]) is Some == is_address_data(
            all[j + k].data,
        )) && (addr@[j] matches Some(w) ==> w == all[j + k].data) by {
            assert(addr@[j] == old_addr[j + 1]);
        }
        assert forall|j: int| 0 <= j < n - k implies ((#[trigger] names@[j]) is Some == is_name_data(
            all[j + k].data,
        )) && (names@[j] matches Some(w) ==> w == all[j + k].data) by {
            assert(names@[j] == old_names[j + 1]);
        }
        assert forall|j: int| 0 <= j < n - k implies ((#[trigger] comp@[j]) is Some == is_compound_data(
            all[j + k].data,
        )) && (comp@[j] matches Some(w) ==> w == all[j + k].data) by {
            assert(comp@[j] == old_comp[j + 1]);
        }
    }
    assert(records@ =~= all);
    records
}

/// Decodes wire bytes with hickory-proto into the plain message model: the
/// message `wire_decoding` names, when there is one; otherwise the
/// decoder's error text.
pub fn decode_wire(bytes: &[u8]) -> (r: Result<WireMessage, String>)
    ensures
        r is Ok == wire_decodes(bytes@),
        r matches Ok(m) ==> same_wire(m, decoded_wire(bytes@)),
{
    let header = match decode_header(bytes) {
        Err(e) => return Err(e),
        Ok(h) => h,
    };
    let ghost d = decoded_wire(bytes@);
    let questions = decode_questions(bytes);
    let (na, ns) = decode_section_sizes(bytes);
    let mut records = decoded_record_list(bytes);
    let answers = take_front(&mut records, na);
    let authority = take_front(&mut records, ns);
    assert(answers@ =~= d.answers@);
    assert(authority@ =~= d.authority@);
    assert(records@ =~= d.additional@);
    Ok(WireMessage { header, questions, answers, authority, additional: records })
}

impl DnsQuery {
    /// The message this query is written as.
    pub fn to_wire(&self) -> (m: WireMessage)
        ensures
            query_wire_is(*self, m),
    {
        WireMessage {
            header: WireHeader {
                id: self.id,
                authoritative: false,
                recursion_desired: self.recursion_desired,
                recursion_available: false,
                response_code: 0,
            },
            questions: vec![WireQuestion { name: self.name.clone(), type_code: wire_type_code(self.record_type) }],
            answers: Vec::new(),
            authority: Vec::new(),
            additional: Vec::new(),
        }
    }

    /// Reads a query from wire bytes: the first question of the decoded
    /// message. Bytes that do not decode give a `ParseError`, as does a
    /// message without a question; an unsupported type an
    /// `InvalidRecordType`.
    pub fn from_bytes(data: &[u8]) -> (r: Result<DnsQuery, DnsError>)
        ensures
            !wire_decodes(data@) ==> r matches Err(DnsError::ParseError(_)),
            wire_decodes(data@) ==> query_read_from(decoded_wire(data@), r),
    {
        match decode_wire(data) {
            Err(e) => Err(DnsError::ParseError(e)),
            Ok(m) => DnsQuery::from_wire(&m),
        }
    }

    /// Encodes this query as a wire message: a query with opcode QUERY, its
    /// ID and recursion-desired flag, and its name and type as the
    /// question: the bytes `message_encoding` names for `query_message_view`. A name that hickory-proto
    /// refuses gives `InvalidDomainName`, a failure of the encoder
    /// `EncodeError`.
    pub fn to_bytes(&self) -> (r: Result<Vec<u8>, DnsError>)
        ensures
            !name_parses(self.name@) <==> r matches Err(DnsError::InvalidDomainName(_)),
            name_parses(self.name@) ==> match r {
                Ok(b) => message_encoding(
                    false,
                    query_message_view(self.id, self.recursion_desired, self.name@, type_code(self.record_type)),
                ) == Some(b@),
                Err(e) => e is EncodeError && message_encoding(
                    false,
                    query_message_view(self.id, self.recursion_desired, self.name@, type_code(self.record_type)),
                ) is None,
            },
            plain_host(self.name@) ==> (r matches Ok(b) ==> wire_decodes(b@) && query_of_wire(
                decoded_wire(b@),
            ) == Some((self.id, ascii_lower(self.name@), self.record_type, self.recursion_desired))),
    {
        if let Err(e) = parse_name(self.name.as_str()) {
            return Err(DnsError::InvalidDomainName(e));
        }
        match encode_query(self.id, self.recursion_desired, self.name.as_str(), wire_type_code(self.record_type)) {
            Ok(b) => {
                proof {
                    if plain_host(self.name@) {
                        let qv = query_message_view(
                            self.id,
                            self.recursion_desired,
                            self.name@,
                            type_code(self.record_type),
                        );
                        lemma_plain_host_read_back(self.name@);
                        assert(record_type_of_code(type_code(self.record_type)) == Some(self.record_type));
                        assert(qv.questions[0] == (self.name@, type_code(self.record_type)));
                        assert(plain_message(qv));
                        let d = decoded_wire(b@);
                        let qs = d.questions@.map_values(|q: WireQuestion| (q.name@, q.type_code));
                        assert(qs == view_read_back(qv).questions);
                        assert(qs.len() == 1);
                        assert(qs[0] == (host_read_back(self.name@), type_code(self.record_type)));
                        assert(d.questions@[0].name@ == host_read_back(self.name@));
                    }
                }
                Ok(b)
            },
            Err(e) => Err(DnsError::EncodeError(e)),
        }
    }
}

impl DnsResponse {
    /// The message this response to `query` is written as.
    pub fn to_wire(&self, query: &DnsQuery) -> (m: WireMessage)
        ensures
            response_wire_is(*self, *query, m),
    {
        WireMessage {
            header: WireHeader {
                id: self.id,
                authoritative: self.authoritative,
                recursion_desired: query.recursion_desired,
                recursion_available: self.recursion_available,
                response_code: rcode_for_wire(self.response_code),
            },
            questions: vec![WireQuestion { name: query.name.clone(), type_code: wire_type_code(query.record_type) }],
            answers: records_to_wire(&self.answers),
            authority: records_to_wire(&self.authority),
            additional: records_to_wire(&self.additional),
        }
    }

    /// Reads a response from wire bytes: the header fields and the records
    /// of a supported type of the decoded message. Bytes that do not decode
    /// give a `ParseError`.
    pub fn from_bytes(data: &[u8]) -> (r: Result<DnsResponse, DnsError>)
        ensures
            r is Ok == wire_decodes(data@),
            r matches Err(e) ==> e is ParseError,
            r matches Ok(resp) ==> response_read_from(decoded_wire(data@), resp),
    {
        match decode_wire(data) {
            Err(e) => Err(DnsError::ParseError(e)),
            Ok(m) => Ok(DnsResponse::from_wire(&m)),
        }
    }

    /// Encodes this response to `query` as a wire message: a response with
    /// opcode QUERY, the header of `to_wire`, the query as question and the
    /// records that can be written: the bytes `message_encoding` names for
    /// the message of `to_wire` (whose plain values `response_wire_is` fixes,
    /// as `lemma_response_wire_unique` shows). A query name that
    /// hickory-proto refuses gives `InvalidDomainName`, a failure of the
    /// encoder `EncodeError`. When every name is a plain host name, the
    /// bytes decode to that message with its names as `host_read_back`
    /// gives them.
    pub fn to_bytes(&self, query: &DnsQuery) -> (r: Result<Vec<u8>, DnsError>)
        ensures
            !name_parses(query.name@) <==> r matches Err(DnsError::InvalidDomainName(_)),
            name_parses(query.name@) ==> exists|m: WireMessage|
                #[trigger] response_wire_is(*self, *query, m) && match r {
                    Ok(b) => message_encoding(true, message_view(m)) == Some(b@),
                    Err(e) => e is EncodeError && message_encoding(true, message_view(m)) is None,
                },
            plain_response(*self, *query) ==> (r matches Ok(b) ==> wire_decodes(b@) && exists|m: WireMessage|
                #[trigger] response_wire_is(*self, *query, m) && message_view(decoded_wire(b@)) == view_read_back(
                    message_view(m),
                )),
    {
        if let Err(e) = parse_name(query.name.as_str()) {
            return Err(DnsError::InvalidDomainName(e));
        }
        let w = self.to_wire(query);
        proof {
            lemma_encoded_records_writable(self.answers@, w.answers@);
            lemma_encoded_records_writable(self.authority@, w.authority@);
            lemma_encoded_records_writable(self.additional@, w.additional@);
            if plain_response(*self, *query) {
                lemma_encoded_records_plain(self.answers@, w.answers@);
                lemma_encoded_records_plain(self.authority@, w.authority@);
                lemma_encoded_records_plain(self.additional@, w.additional@);
                assert(record_type_of_code(type_code(query.record_type)) == Some(query.record_type));
                assert(plain_message(message_view(w)));
            }
        }
        let r = match encode_response(&w) {
            Ok(b) => Ok(b),
            Err(e) => Err(DnsError::EncodeError(e)),
        };
        assert(response_wire_is(*self, *query, w));
        r
    }
}

/// The records a list of records is written as are fixed by the list, up
/// to their plain values.
proof fn lemma_encoded_records_unique(ds: Seq<DnsRecordData>, ws1: Seq<WireRecord>, ws2: Seq<WireRecord>)
    requires
        encodes_records(ds, ws1),
        encodes_records(ds, ws2),
    ensures
        records_view(ws1) == records_view(ws2),
    decreases ds.len(),
{
    if ds.len() == 0 {
        assert(records_view(ws1) =~= records_view(ws2));
    } else if record_encodable(ds.last()) {
        lemma_encoded_records_unique(ds.drop_last(), ws1.drop_last(), ws2.drop_last());
        let (w1, w2) = (ws1.last(), ws2.last());
        if w1.data is TXT {
            assert(w1.data->TXT_0@.map_values(|p: Vec<u8>| p@) =~= w2.data->TXT_0@.map_values(|p: Vec<u8>| p@));
        }
        assert(data_view(w1.data) == data_view(w2.data));
        assert(records_view(ws1) =~= records_view(ws1.drop_last()).push((w1.name@, w1.ttl, data_view(w1.data))));
        assert(records_view(ws2) =~= records_view(ws2.drop_last()).push((w2.name@, w2.ttl, data_view(w2.data))));
    } else {
        lemma_encoded_records_unique(ds.drop_last(), ws1, ws2);
    }
}

/// The message a response to a query is written as is fixed by the two,
/// up to its plain values.
pub proof fn lemma_response_wire_unique(r: DnsResponse, q: DnsQuery, m1: WireMessage, m2: WireMessage)
    requires
        response_wire_is(r, q, m1),
        response_wire_is(r, q, m2),
    ensures
        message_view(m1) == message_view(m2),
{
    lemma_encoded_records_unique(r.answers@, m1.answers@, m2.answers@);
    lemma_encoded_records_unique(r.authority@, m1.authority@, m2.authority@);
    lemma_encoded_records_unique(r.additional@, m1.additional@, m2.additional@);
    assert(message_view(m1).questions =~= message_view(m2).questions);
}

/// A plain host name, lowercased and written with its trailing dot, reads
/// back without the dot.
proof fn lemma_plain_host_read_back(s: Seq<char>)
    requires
        plain_host(s),
    ensures
        trim_dots(ascii_lower(s) + seq!['.']) == ascii_lower(s),
        trim_dots(ascii_lower(s)) == ascii_lower(s),
{
    let l = ascii_lower(s);
    let t = l + seq!['.'];
    assert(t.drop_last() =~= l);
    assert(l.last() == ascii_lower_char(s.last()));
    assert(trim_dots(t) == trim_dots(l));
}

/// No trailing dot ends the text.
pub open spec fn no_trailing_dot(s: Seq<char>) -> bool {
    s.len() == 0 || s.last() != '.'
}

/// The priority a record carries after a trip over the wire: an MX
/// record's preference (10 where it had none), an SRV record's priority (0
/// where it had none), and none for the other types.
pub open spec fn wire_priority(d: DnsRecordData) -> Option<u16> {
    match d.record_type {
        RecordType::MX => Some(or_default(d.priority, 10)),
        RecordType::SRV => Some(or_default(d.priority, 0)),
        _ => None,
    }
}

/// The fields of a record as it reads back from the wire: its own, with
/// the priority of `wire_priority`.
pub open spec fn wire_view(d: DnsRecordData) -> (Seq<char>, RecordType, Seq<char>, u32, Option<u16>) {
    (d.name@, d.record_type, d.value@, d.ttl, wire_priority(d))
}

/// A record whose fields come back from the wire: it can be written, its
/// owner name has no trailing dot, and its value is in the form the reader
/// writes: an address as std writes it, a domain name without trailing dot,
/// any TXT value, and SOA and SRV values equal to the text written for the
/// names and numbers read from their words.
pub open spec fn wire_roundtrips(d: DnsRecordData) -> bool {
    let v = d.value@;
    let ws = words(v);
    &&& record_encodable(d)
    &&& no_trailing_dot(d.name@)
    &&& match d.record_type {
        RecordType::A => parsed_ipv4(v) matches Some(ip) && ipv4_text(ip.octets_view()) == v,
        RecordType::AAAA => parsed_ipv6(v) matches Some(ip) && ipv6_text(ip.segments_view()) == v,
        RecordType::CNAME => no_trailing_dot(v),
        RecordType::MX => no_trailing_dot(v),
        RecordType::TXT => true,
        RecordType::PTR => no_trailing_dot(v),
        RecordType::NS => no_trailing_dot(v),
        RecordType::SOA => v == soa_text(
            ws[0],
            ws[1],
            parsed_u32(ws[2])->0,
            parsed_i32(ws[3])->0,
            parsed_i32(ws[4])->0,
            parsed_i32(ws[5])->0,
            parsed_u32(ws[6])->0,
        ),
        RecordType::SRV => v == srv_text(parsed_u16(ws[0])->0, parsed_u16(ws[1])->0, ws[2]),
    }
}

/// A query written as a wire message and read back is the same query,
/// when its name has no trailing dot.
pub proof fn law_query_wire_roundtrip(q: DnsQuery, m: WireMessage)
    requires
        query_wire_is(q, m),
        no_trailing_dot(q.name@),
    ensures
        query_of_wire(m) == Some(query_view(q)),
{
    assert(trim_dots(q.name@) == q.name@);
    assert(record_type_of_code(type_code(q.record_type)) == Some(q.record_type));
}

/// The text of the character strings of a TXT record, joined, taken by
/// their views.
pub open spec fn lossy_join_views(parts: Seq<Seq<u8>>) -> Seq<char>
    decreases parts.len(),
{
    if parts.len() == 0 {
        seq![]
    } else {
        lossy_join_views(parts.drop_last()) + lossy_text(parts.last())
    }
}

proof fn lemma_lossy_join_views(parts: Seq<Vec<u8>>)
    ensures
        lossy_join(parts) == lossy_join_views(parts.map_values(|p: Vec<u8>| p@)),
    decreases parts.len(),
{
    if parts.len() > 0 {
        lemma_lossy_join_views(parts.drop_last());
        assert(parts.drop_last().map_values(|p: Vec<u8>| p@) =~= parts.map_values(|p: Vec<u8>| p@).drop_last());
    }
}

/// The record of this library that a record read from the wire gives, as
/// `data_of_wire` says, taken by the record's plain values.
pub open spec fn data_of_view(x: (Seq<char>, u32, DataView)) -> Option<(Seq<char>, RecordType, Seq<char>, u32, Option<u16>)> {
    let name = trim_dots(x.0);
    match x.2 {
        DataView::A(o) => Some((name, RecordType::A, ipv4_text(o), x.1, None)),
        DataView::AAAA(g) => Some((name, RecordType::AAAA, ipv6_text(g), x.1, None)),
        DataView::CNAME(t) => Some((name, RecordType::CNAME, trim_dots(t), x.1, None)),
        DataView::MX(p, e) => Some((name, RecordType::MX, trim_dots(e), x.1, Some(p))),
        DataView::TXT(parts) => Some((name, RecordType::TXT, lossy_join_views(parts), x.1, None)),
        DataView::PTR(t) => Some((name, RecordType::PTR, trim_dots(t), x.1, None)),
        DataView::NS(t) => Some((name, RecordType::NS, trim_dots(t), x.1, None)),
        DataView::SOA(m, rn, serial, refresh, retry, expire, minimum) => Some(
            (name, RecordType::SOA, soa_text(m, rn, serial, refresh, retry, expire, minimum), x.1, None),
        ),
        DataView::SRV(p, w, port, t) => Some((name, RecordType::SRV, srv_text(w, port, t), x.1, Some(p))),
        DataView::Other => None,
    }
}

/// The records of this library that a section read from the wire gives,
/// as `decoded_records` says, taken by the records' plain values.
pub open spec fn decoded_views(v: Seq<(Seq<char>, u32, DataView)>) -> Seq<(Seq<char>, RecordType, Seq<char>, u32, Option<u16>)>
    decreases v.len(),
{
    if v.len() == 0 {
        seq![]
    } else {
        let rest = decoded_views(v.drop_last());
        match data_of_view(v.last()) {
            Some(x) => rest.push(x),
            None => rest,
        }
    }
}

proof fn lemma_decoded_by_views(ws: Seq<WireRecord>)
    ensures
        decoded_records(ws) == decoded_views(records_view(ws)),
    decreases ws.len(),
{
    if ws.len() > 0 {
        lemma_decoded_by_views(ws.drop_last());
        assert(records_view(ws.drop_last()) =~= records_view(ws).drop_last());
        let w = ws.last();
        if w.data is TXT {
            lemma_lossy_join_views(w.data->TXT_0@);
        }
        assert(data_of_wire(w) == data_of_view(records_view(ws).last()));
    }
}

/// A record whose owner name and the names in its value are plain host
/// names.
pub open spec fn plain_record(d: DnsRecordData) -> bool {
    let v = d.value@;
    let ws = words(v);
    &&& plain_host(d.name@)
    &&& match d.record_type {
        RecordType::CNAME => plain_host(v),
        RecordType::MX => plain_host(v),
        RecordType::PTR => plain_host(v),
        RecordType::NS => plain_host(v),
        RecordType::SOA => plain_host(ws[0]) && plain_host(ws[1]),
        RecordType::SRV => plain_host(ws[2]),
        _ => true,
    }
}

/// The value of a record after a trip over the wire with plain host
/// names: its names lowercased, all else as the reader writes it.
pub open spec fn lowered_value(d: DnsRecordData) -> Seq<char> {
    let v = d.value@;
    let ws = words(v);
    match d.record_type {
        RecordType::CNAME => ascii_lower(v),
        RecordType::MX => ascii_lower(v),
        RecordType::PTR => ascii_lower(v),
        RecordType::NS => ascii_lower(v),
        RecordType::SOA => soa_text(
            ascii_lower(ws[0]),
            ascii_lower(ws[1]),
            parsed_u32(ws[2])->0,
            parsed_i32(ws[3])->0,
            parsed_i32(ws[4])->0,
            parsed_i32(ws[5])->0,
            parsed_u32(ws[6])->0,
        ),
        RecordType::SRV => srv_text(parsed_u16(ws[0])->0, parsed_u16(ws[1])->0, ascii_lower(ws[2])),
        _ => v,
    }
}

/// The fields of a record after a trip over the bytes of the wire with
/// plain host names: the owner name lowercased, the value of
/// `lowered_value` and the priority of `wire_priority`.
pub open spec fn lowered_view(d: DnsRecordData) -> (Seq<char>, RecordType, Seq<char>, u32, Option<u16>) {
    (ascii_lower(d.name@), d.record_type, lowered_value(d), d.ttl, wire_priority(d))
}

proof fn lemma_record_read_back(d: DnsRecordData, w: WireRecord)
    requires
        wire_record_is(d, w),
        wire_roundtrips(d),
        plain_record(d),
    ensures
        plain_host(w.name@),
        plain_data(data_view(w.data)),
        data_of_view((host_read_back(w.name@), w.ttl, data_read_back(data_view(w.data)))) == Some(
            lowered_view(d),
        ),
{
    lemma_plain_host_read_back(d.name@);
    let v = d.value@;
    let ws = words(v);
    match d.record_type {
        RecordType::TXT => {
            let parts = w.data->TXT_0@;
            let views = parts.map_values(|p: Vec<u8>| p@);
            let b = vstd::utf8::encode_utf8(v);
            vstd::utf8::encode_utf8_valid_utf8(v);
            vstd::utf8::encode_utf8_decode_utf8(v);
            assert(views[0] == b);
            assert(views.drop_last() =~= Seq::<Seq<u8>>::empty());
            assert(lossy_join_views(views.drop_last()) =~= Seq::<char>::empty());
            assert(lossy_text(b) == v);
            assert(lossy_join_views(views) =~= v);
        },
        RecordType::CNAME | RecordType::MX | RecordType::PTR | RecordType::NS => {
            lemma_plain_host_read_back(v);
        },
        RecordType::SOA => {
            lemma_plain_host_read_back(ws[0]);
            lemma_plain_host_read_back(ws[1]);
        },
        RecordType::SRV => {
            lemma_plain_host_read_back(ws[2]);
        },
        _ => {},
    }
}

proof fn lemma_records_read_back(ds: Seq<DnsRecordData>, ws: Seq<WireRecord>)
    requires
        encodes_records(ds, ws),
        forall|i: int| 0 <= i < ds.len() ==> wire_roundtrips(#[trigger] ds[i]) && plain_record(ds[i]),
    ensures
        plain_records(records_view(ws)),
        decoded_views(records_read_back(records_view(ws))) == ds.map_values(|d: DnsRecordData| lowered_view(d)),
    decreases ds.len(),
{
    if ds.len() == 0 {
        assert(ds.map_values(|d: DnsRecordData| lowered_view(d)) =~= Seq::empty());
        assert(records_read_back(records_view(ws)) =~= Seq::empty());
    } else {
        let last = ds.last();
        assert(wire_roundtrips(ds[ds.len() - 1]) && plain_record(ds[ds.len() - 1]));
        assert forall|i: int| 0 <= i < ds.drop_last().len() implies wire_roundtrips(#[trigger] ds.drop_last()[i])
            && plain_record(ds.drop_last()[i]) by {
            assert(ds.drop_last()[i] == ds[i]);
        }
        lemma_records_read_back(ds.drop_last(), ws.drop_last());
        lemma_record_read_back(last, ws.last());
        let rv = records_view(ws);
        assert(records_view(ws.drop_last()) =~= rv.drop_last());
        assert(records_read_back(rv).drop_last() =~= records_read_back(rv.drop_last()));
        assert(ds.map_values(|d: DnsRecordData| lowered_view(d)) =~= ds.drop_last().map_values(
            |d: DnsRecordData| lowered_view(d),
        ).push(lowered_view(last)));
        assert forall|i: int| 0 <= i < rv.len() implies plain_host(#[trigger] rv[i].0) && plain_data(rv[i].2) by {
            if i < rv.len() - 1 {
                assert(rv[i] == rv.drop_last()[i]);
            }
        }
    }
}

proof fn lemma_encoded_records_plain(ds: Seq<DnsRecordData>, ws: Seq<WireRecord>)
    requires
        encodes_records(ds, ws),
        forall|i: int| 0 <= i < ds.len() ==> plain_record(#[trigger] ds[i]),
    ensures
        plain_records(records_view(ws)),
    decreases ds.len(),
{
    if ds.len() > 0 {
        assert(plain_record(ds[ds.len() - 1]));
        assert forall|i: int| 0 <= i < ds.drop_last().len() implies plain_record(#[trigger] ds.drop_last()[i]) by {
            assert(ds.drop_last()[i] == ds[i]);
        }
        if record_encodable(ds.last()) {
            lemma_encoded_records_plain(ds.drop_last(), ws.drop_last());
            let rv = records_view(ws);
            assert(records_view(ws.drop_last()) =~= rv.drop_last());
            assert forall|i: int| 0 <= i < rv.len() implies plain_host(#[trigger] rv[i].0) && plain_data(rv[i].2) by {
                if i < rv.len() - 1 {
                    assert(rv[i] == rv.drop_last()[i]);
                }
            }
        } else {
            lemma_encoded_records_plain(ds.drop_last(), ws);
        }
    }
}

/// A response to a query whose names are plain host names throughout, with
/// an RCODE that fits the message header.
pub open spec fn plain_response(r: DnsResponse, q: DnsQuery) -> bool {
    &&& plain_host(q.name@)
    &&& wire_rcode(r.response_code) < 16
    &&& forall|i: int| 0 <= i < r.answers@.len() ==> plain_record(#[trigger] r.answers@[i])
    &&& forall|i: int| 0 <= i < r.authority@.len() ==> plain_record(#[trigger] r.authority@[i])
    &&& forall|i: int| 0 <= i < r.additional@.len() ==> plain_record(#[trigger] r.additional@[i])
}

/// Reading back the bytes a query was written as gives the same query, its
/// name lowercased, when the name is a plain host name.
pub proof fn law_query_bytes_roundtrip(q: DnsQuery, bytes: Seq<u8>, back: Result<DnsQuery, DnsError>)
    requires
        plain_host(q.name@),
        wire_decodes(bytes),
        query_of_wire(decoded_wire(bytes)) == Some(
            (q.id, ascii_lower(q.name@), q.record_type, q.recursion_desired),
        ),
        query_read_from(decoded_wire(bytes), back),
    ensures
        back matches Ok(p) && query_view(p) == (q.id, ascii_lower(q.name@), q.record_type, q.recursion_desired),
{
}

/// A response written as bytes for a query and read back has the same ID,
/// response code and flags, and the same records with their names
/// lowercased (and the priorities of `wire_priority`), when its names are
/// plain host names, the fields of every record come back and its response
/// code does.
pub proof fn law_response_bytes_roundtrip(
    r: DnsResponse,
    q: DnsQuery,
    m: WireMessage,
    bytes: Seq<u8>,
    back: DnsResponse,
)
    requires
        response_wire_is(r, q, m),
        r.response_code matches DnsResponseCode::Other(n) ==> 6 <= n < 16,
        forall|i: int| 0 <= i < r.answers@.len() ==> wire_roundtrips(#[trigger] r.answers@[i]) && plain_record(r.answers@[i]),
        forall|i: int| 0 <= i < r.authority@.len() ==> wire_roundtrips(#[trigger] r.authority@[i]) && plain_record(r.authority@[i]),
        forall|i: int| 0 <= i < r.additional@.len() ==> wire_roundtrips(#[trigger] r.additional@[i]) && plain_record(r.additional@[i]),
        wire_decodes(bytes),
        message_view(decoded_wire(bytes)) == view_read_back(message_view(m)),
        response_read_from(decoded_wire(bytes), back),
    ensures
        back.id == r.id,
        back.response_code == r.response_code,
        back.authoritative == r.authoritative,
        back.recursion_available == r.recursion_available,
        back.answers@.map_values(|d: DnsRecordData| record_view(d)) == r.answers@.map_values(|d: DnsRecordData| lowered_view(d)),
        back.authority@.map_values(|d: DnsRecordData| record_view(d)) == r.authority@.map_values(|d: DnsRecordData| lowered_view(d)),
        back.additional@.map_values(|d: DnsRecordData| record_view(d)) == r.additional@.map_values(|d: DnsRecordData| lowered_view(d)),
{
    let d = decoded_wire(bytes);
    assert(d.header == m.header);
    law_response_code_wire_roundtrip(r.response_code);
    lemma_decoded_by_views(d.answers@);
    lemma_decoded_by_views(d.authority@);
    lemma_decoded_by_views(d.additional@);
    lemma_records_read_back(r.answers@, m.answers@);
    lemma_records_read_back(r.authority@, m.authority@);
    lemma_records_read_back(r.additional@, m.additional@);
}

/// A record written on the wire and read back has the same fields, with
/// the priority of `wire_priority`, for the records whose text is in the
/// form the reader writes.
pub proof fn law_record_wire_roundtrip(d: DnsRecordData, w: WireRecord)
    requires
        wire_record_is(d, w),
        wire_roundtrips(d),
    ensures
        data_of_wire(w) == Some(wire_view(d)),
{
    assert(trim_dots(d.name@) == d.name@);
    match d.record_type {
        RecordType::TXT => {
            let parts = w.data->TXT_0@;
            let b = vstd::utf8::encode_utf8(d.value@);
            vstd::utf8::encode_utf8_valid_utf8(d.value@);
            vstd::utf8::encode_utf8_decode_utf8(d.value@);
            assert(parts[0]@ == b);
            assert(parts.drop_last() =~= Seq::<Vec<u8>>::empty());
            assert(lossy_join(parts.drop_last()) =~= Seq::<char>::empty());
            assert(lossy_text(b) == d.value@);
            assert(lossy_join(parts) =~= d.value@);
        },
        RecordType::CNAME | RecordType::MX | RecordType::PTR | RecordType::NS => {
            assert(trim_dots(d.value@) == d.value@);
        },
        _ => {},
    }
}

/// A list of records written on the wire and read back is the same list,
/// with the priorities of `wire_priority`, when the fields of every record
/// come back.
pub proof fn law_records_wire_roundtrip(ds: Seq<DnsRecordData>, ws: Seq<WireRecord>)
    requires
        encodes_records(ds, ws),
        forall|i: int| 0 <= i < ds.len() ==> wire_roundtrips(#[trigger] ds[i]),
    ensures
        decoded_records(ws) == ds.map_values(|d: DnsRecordData| wire_view(d)),
    decreases ds.len(),
{
    if ds.len() == 0 {
        assert(ds.map_values(|d: DnsRecordData| wire_view(d)) =~= Seq::empty());
    } else {
        let last = ds.last();
        assert(wire_roundtrips(ds[ds.len() - 1]));
        assert forall|i: int| 0 <= i < ds.drop_last().len() implies wire_roundtrips(
            #[trigger] ds.drop_last()[i],
        ) by {
            assert(ds.drop_last()[i] == ds[i]);
        }
        law_records_wire_roundtrip(ds.drop_last(), ws.drop_last());
        law_record_wire_roundtrip(last, ws.last());
        assert(ds.map_values(|d: DnsRecordData| wire_view(d)) =~= ds.drop_last().map_values(
            |d: DnsRecordData| wire_view(d),
        ).push(wire_view(last)));
    }
}

/// A response code written on the wire and read back is the same code,
/// for the named codes and for `Other` codes from 6 to 15 (larger ones
/// are folded into twelve bits on the wire).
pub proof fn law_response_code_wire_roundtrip(c: DnsResponseCode)
    requires
        c matches DnsResponseCode::Other(n) ==> 6 <= n < 16,
    ensures
        response_code_of_value(wire_rcode(c)) == c,
{
}

/// A response written on the wire for a query and read back has the same
/// header fields and the same records (with the priorities of
/// `wire_priority`), when the fields of every record come back and its
/// response code does.
pub proof fn law_response_wire_roundtrip(r: DnsResponse, q: DnsQuery, m: WireMessage)
    requires
        response_wire_is(r, q, m),
        r.response_code matches DnsResponseCode::Other(n) ==> 6 <= n < 16,
        forall|i: int| 0 <= i < r.answers@.len() ==> wire_roundtrips(#[trigger] r.answers@[i]),
        forall|i: int| 0 <= i < r.authority@.len() ==> wire_roundtrips(#[trigger] r.authority@[i]),
        forall|i: int| 0 <= i < r.additional@.len() ==> wire_roundtrips(#[trigger] r.additional@[i]),
    ensures
        m.header.id == r.id,
        response_code_of_value(m.header.response_code) == r.response_code,
        m.header.authoritative == r.authoritative,
        m.header.recursion_available == r.recursion_available,
        decoded_records(m.answers@) == r.answers@.map_values(|d: DnsRecordData| wire_view(d)),
        decoded_records(m.authority@) == r.authority@.map_values(|d: DnsRecordData| wire_view(d)),
        decoded_records(m.additional@) == r.additional@.map_values(|d: DnsRecordData| wire_view(d)),
{
    law_response_code_wire_roundtrip(r.response_code);
    law_records_wire_roundtrip(r.answers@, m.answers@);
    law_records_wire_roundtrip(r.authority@, m.authority@);
    law_records_wire_roundtrip(r.additional@, m.additional@);
}

} // verus!
