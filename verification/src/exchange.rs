//! The decisions of a DNS exchange that sit between the network calls: which
//! datagram a UDP client takes as its answer, how messages are framed on
//! stream transports, and what a server sends back when a request cannot be
//! read or resolved.

use vstd::prelude::*;
use crate::message::{
    empty_response_is, message_is_truncated, message_transaction_id, wire_transaction_id,
    wire_truncated, DnsQuery, DnsResponse, DnsResponseCode, RecordType,
};

verus! {

/// What a UDP client does with a datagram that arrived while it waits for
/// the answer to a query.
#[derive(Debug, Clone, Copy, PartialEq, Eq, Structural)]
pub enum DatagramVerdict {
    /// Not an answer to this query: keep waiting.
    Discard,
    /// The answer.
    Accept,
    /// The answer, cut short: ask again over TCP.
    RetryOverTcp,
}

/// The verdict on a datagram: one from another address, or whose
/// transaction ID is missing or not the query's, is discarded; the answer
/// is taken, unless its TC bit says it was truncated.
pub open spec fn datagram_verdict(from_server: bool, bytes: Seq<u8>, expected_id: u16) -> DatagramVerdict {
    if !from_server || wire_transaction_id(bytes) != Some(expected_id) {
        DatagramVerdict::Discard
    } else if wire_truncated(bytes) {
        DatagramVerdict::RetryOverTcp
    } else {
        DatagramVerdict::Accept
    }
}

/// Judges a datagram that arrived for the query with ID `expected_id`;
/// `from_server` says whether it came from the address the query was sent to.
pub fn udp_datagram_verdict(from_server: bool, bytes: &[u8], expected_id: u16) -> (v: DatagramVerdict)
    ensures
        v == datagram_verdict(from_server, bytes@, expected_id),
{
    if !from_server {
        return DatagramVerdict::Discard;
    }
    match message_transaction_id(bytes) {
        Some(id) => {
            if id != expected_id {
                DatagramVerdict::Discard
            } else if message_is_truncated(bytes) {
                DatagramVerdict::RetryOverTcp
            } else {
                DatagramVerdict::Accept
            }
        },
        None => DatagramVerdict::Discard,
    }
}

/// The reply to request bytes whose query cannot be read: an empty SERVFAIL
/// with ID 0, written against a recursive query for the root name, type A.
pub fn unreadable_request_reply() -> (r: (DnsResponse, DnsQuery))
    ensures
        empty_response_is(r.0, 0, DnsResponseCode::ServFail),
        r.1.name@ == "."@,
        r.1.record_type == RecordType::A,
        r.1.recursion_desired,
{
    (DnsResponse::servfail(0), DnsQuery::new(".", RecordType::A))
}

/// The reply to a query that could not be resolved: an empty SERVFAIL with
/// the query's ID.
pub fn failed_resolution_reply(query: &DnsQuery) -> (r: DnsResponse)
    ensures
        empty_response_is(r, query.id, DnsResponseCode::ServFail),
{
    DnsResponse::servfail(query.id)
}

/// The bytes of a message framed for a stream transport (TCP, DNS over TLS,
/// DNS over QUIC): its length as two big-endian bytes, then the message.
pub open spec fn framed(message: Seq<u8>) -> Seq<u8> {
    seq![(message.len() / 256) as u8, (message.len() % 256) as u8] + message
}

/// The length a two-byte stream prefix announces, big-endian.
pub open spec fn announced_length(hi: u8, lo: u8) -> nat {
    hi as nat * 256 + lo as nat
}

/// Frames a message for a stream transport; `None` when it is longer than
/// the 65535 bytes a two-byte prefix can announce.
pub fn frame_message(message: &[u8]) -> (r: Option<Vec<u8>>)
    ensures
        r is Some == (message@.len() <= 65535),
        r matches Some(f) ==> f@ == framed(message@),
{
    let n: usize = message.len();
    if n > 65535 {
        return None;
    }
    let mut out: Vec<u8> = Vec::new();
    out.push((n / 256) as u8);
    out.push((n % 256) as u8);
    let mut i: usize = 0;
    while i < n
        invariant
            n == message@.len(),
            n <= 65535,
            0 <= i <= n,
            out@ == seq![(n / 256) as u8, (n % 256) as u8] + message@.subrange(0, i as int),
        decreases n - i,
    {
        out.push(message[i]);
        assert(out@ =~= seq![(n / 256) as u8, (n % 256) as u8] + message@.subrange(0, i + 1));
        i = i + 1;
    }
    assert(message@.subrange(0, n as int) =~= message@);
    Some(out)
}

/// The length that the two-byte prefix of a stream message announces.
pub fn framed_length(prefix: [u8; 2]) -> (n: u16)
    ensures
        n == announced_length(prefix[0], prefix[1]),
{
    (prefix[0] as u16) * 256 + (prefix[1] as u16)
}

/// A framed message announces its own length.
pub proof fn law_frame_announces_length(message: Seq<u8>)
    requires
        message.len() <= 65535,
    ensures
        announced_length(framed(message)[0], framed(message)[1]) == message.len(),
        framed(message).subrange(2, framed(message).len() as int) == message,
{
    let f = framed(message);
    assert(f.subrange(2, f.len() as int) =~= message);
}

/// The query sent over DNS over QUIC: the same question with ID 0, as
/// RFC 9250 asks, and recursion desired.
pub fn doq_query(query: &DnsQuery) -> (q: DnsQuery)
    ensures
        q.id == 0,
        q.name@ == query.name@,
        q.record_type == query.record_type,
        q.recursion_desired,
{
    DnsQuery::with_id(0, query.name.as_str(), query.record_type)
}

} // verus!
