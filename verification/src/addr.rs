//! Upstream addresses: host and port of `host:port` texts (with bracketed
//! IPv6), decimal port numbers, and the URLs of the HTTPS transports.

use vstd::prelude::*;
use crate::ip::parse_ipv6;
use crate::ip::parsed_ipv6;
use crate::message::{DnsQuery, RecordType};
use crate::number::{parse_u16, parsed_u16};
use crate::text::{chars_of, find_char, push_chars, push_str, rfind_char, slice_chars, starts_with, string_of};

verus! {

broadcast use vstd::string::group_string_axioms;

/// Default port for the HTTPS-based transports (DoH and DoH3).
pub const HTTPS_PORT: u16 = 443;

/// The host and port of an address text, as `parse_host_port` reads it.
pub open spec fn host_port_of(address: Seq<char>, default_port: u16) -> Option<(Seq<char>, u16)> {
    if address.len() > 0 && address[0] == '[' {
        if !address.contains(']') {
            None
        } else {
            let e = choose|e: int| 0 <= e < address.len() && address[e] == ']' && forall|j: int| 0 <= j < e ==> address[j] != ']';
            let host = address.subrange(1, e);
            let rest = address.subrange(e + 1, address.len() as int);
            if rest.len() > 0 && rest[0] == ':' {
                match parsed_u16(rest.subrange(1, rest.len() as int)) {
                    Some(p) => Some((host, p)),
                    None => None,
                }
            } else if rest.len() == 0 {
                Some((host, default_port))
            } else {
                None
            }
        }
    } else if parsed_ipv6(address).is_some() {
        Some((address, default_port))
    } else if address.contains(':') {
        let c = choose|c: int| 0 <= c < address.len() && address[c] == ':' && forall|j: int| c < j < address.len() ==> address[j] != ':';
        match parsed_u16(address.subrange(c + 1, address.len() as int)) {
            Some(p) => Some((address.subrange(0, c), p)),
            None => None,
        }
    } else {
        Some((address, default_port))
    }
}

/// The message an address gets where `host_port_of` reads none: an
/// unterminated bracket, text after the bracket that is not a port, or a
/// port that does not read as a number.
pub open spec fn host_port_error(address: Seq<char>) -> Seq<char> {
    if address.len() > 0 && address[0] == '[' {
        if !address.contains(']') {
            "Unterminated IPv6 bracket in address '"@ + address + "'"@
        } else {
            let e = choose|e: int| 0 <= e < address.len() && address[e] == ']' && forall|j: int| 0 <= j < e ==> address[j] != ']';
            let rest = address.subrange(e + 1, address.len() as int);
            if rest.len() > 0 && rest[0] == ':' {
                invalid_port_message(rest.subrange(1, rest.len() as int), address)
            } else {
                "Unexpected trailing '"@ + rest + "' in address '"@ + address + "'"@
            }
        }
    } else {
        let c = choose|c: int| 0 <= c < address.len() && address[c] == ':' && forall|j: int| c < j < address.len() ==> address[j] != ':';
        invalid_port_message(address.subrange(c + 1, address.len() as int), address)
    }
}

/// The message for a port that does not read as a number.
pub open spec fn invalid_port_message(raw: Seq<char>, address: Seq<char>) -> Seq<char> {
    "Invalid port '"@ + raw + "' in address '"@ + address + "'"@
}

fn invalid_port(raw: &Vec<char>, address: &Vec<char>) -> (m: String)
    ensures
        m@ == invalid_port_message(raw@, address@),
{
    let mut v: Vec<char> = Vec::new();
    push_str(&mut v, "Invalid port '");
    push_chars(&mut v, raw);
    push_str(&mut v, "' in address '");
    push_chars(&mut v, address);
    push_str(&mut v, "'");
    assert(v@ =~= invalid_port_message(raw@, address@));
    string_of(&v)
}

/// Splits an address into host and port.
///
/// Accepts `1.1.1.1:53`, `1.1.1.1`, `[2001:db8::1]:853`, `[::1]`, a bare
/// IPv6 literal and `host:port`. Brackets are stripped from the host; a
/// missing port is `default_port`; a port that is not a number up to 65535
/// is an error rather than a silent fallback, with the message of
/// `host_port_error`.
pub fn parse_host_port(address: &str, default_port: u16) -> (r: Result<(String, u16), String>)
    ensures
        match host_port_of(address@, default_port) {
            Some((h, p)) => r matches Ok((host, port)) && host@ == h && port == p,
            None => r matches Err(e) && e@ == host_port_error(address@),
        },
{
    let a: Vec<char> = chars_of(address);
    if a.len() > 0 && a[0] == '[' {
        let bracket_end: usize = match find_char(&a, ']') {
            Some(e) => e,
            None => {
                let mut v: Vec<char> = Vec::new();
                push_str(&mut v, "Unterminated IPv6 bracket in address '");
                push_chars(&mut v, &a);
                push_str(&mut v, "'");
                assert(v@ =~= "Unterminated IPv6 bracket in address '"@ + address@ + "'"@);
                return Err(string_of(&v));
            },
        };
        let ghost e = choose|e: int| 0 <= e < a@.len() && a@[e] == ']' && forall|j: int| 0 <= j < e ==> a@[j] != ']';
        assert(e == bracket_end) by {
            if e < bracket_end {
                assert(a@[e] != ']');
            } else if e > bracket_end {
                assert(a@[bracket_end as int] != ']');
            }
        }
        let host: Vec<char> = slice_chars(&a, 1, bracket_end);
        let rest: Vec<char> = slice_chars(&a, bracket_end + 1, a.len());
        if rest.len() > 0 && rest[0] == ':' {
            let raw: Vec<char> = slice_chars(&rest, 1, rest.len());
            match parse_u16(&raw) {
                Some(p) => Ok((string_of(&host), p)),
                None => Err(invalid_port(&raw, &a)),
            }
        } else if rest.len() == 0 {
            Ok((string_of(&host), default_port))
        } else {
            let mut v: Vec<char> = Vec::new();
            push_str(&mut v, "Unexpected trailing '");
            push_chars(&mut v, &rest);
            push_str(&mut v, "' in address '");
            push_chars(&mut v, &a);
            push_str(&mut v, "'");
            assert(v@ =~= "Unexpected trailing '"@ + rest@ + "' in address '"@ + address@ + "'"@);
            Err(string_of(&v))
        }
    } else if parse_ipv6(address).is_some() {
        Ok((address.to_owned(), default_port))
    } else {
        match rfind_char(&a, ':') {
            Some(c) => {
                let ghost cc = choose|c: int| 0 <= c < a@.len() && a@[c] == ':' && forall|j: int| c < j < a@.len() ==> a@[j] != ':';
                assert(cc == c) by {
                    if cc < c {
                        assert(a@[c as int] != ':');
                    } else if cc > c {
                        assert(a@[cc] != ':');
                    }
                }
                let host: Vec<char> = slice_chars(&a, 0, c);
                let raw: Vec<char> = slice_chars(&a, c + 1, a.len());
                match parse_u16(&raw) {
                    Some(p) => Ok((string_of(&host), p)),
                    None => Err(invalid_port(&raw, &a)),
                }
            },
            None => Ok((address.to_owned(), default_port)),
        }
    }
}

/// The DoH URL of an address: the address itself when it already names an
/// `http://` or `https://` URL, otherwise `https://{address}/dns-query`.
pub open spec fn doh_url_of(address: Seq<char>) -> Seq<char> {
    if address.len() >= 7 && address.subrange(0, 7) == "http://"@ || address.len() >= 8
        && address.subrange(0, 8) == "https://"@ {
        address
    } else {
        "https://"@ + address + "/dns-query"@
    }
}

/// The DoH URL for an upstream address.
pub fn doh_url(address: &str) -> (u: String)
    ensures
        u@ == doh_url_of(address@),
{
    proof {
        reveal_strlit("http://");
        reveal_strlit("https://");
    }
    let a: Vec<char> = chars_of(address);
    let http: Vec<char> = chars_of("http://");
    let https: Vec<char> = chars_of("https://");
    if starts_with(&a, &http) || starts_with(&a, &https) {
        address.to_owned()
    } else {
        let mut v: Vec<char> = Vec::new();
        push_str(&mut v, "https://");
        push_chars(&mut v, &a);
        push_str(&mut v, "/dns-query");
        assert(v@ =~= "https://"@ + address@ + "/dns-query"@);
        string_of(&v)
    }
}

/// The SNI host, host, port and path of a DoH3 upstream address.
///
/// `https://host[:port][/path]` and `host[:port]` are accepted; the port
/// defaults to 443 and the path to `/dns-query`.
pub open spec fn doh3_target_of(address: Seq<char>) -> Option<(Seq<char>, Seq<char>, u16, Seq<char>)> {
    let (host_port, path) = if address.len() >= 8 && address.subrange(0, 8) == "https://"@ {
        let rest = address.subrange(8, address.len() as int);
        if rest.contains('/') {
            let s = choose|s: int| 0 <= s < rest.len() && rest[s] == '/' && forall|j: int| 0 <= j < s ==> rest[j] != '/';
            (rest.subrange(0, s), rest.subrange(s, rest.len() as int))
        } else {
            (rest, "/dns-query"@)
        }
    } else {
        (address, "/dns-query"@)
    };
    match host_port_of(host_port, HTTPS_PORT) {
        Some((h, p)) => Some((h, h, p, path)),
        None => None,
    }
}

/// Splits a DoH3 upstream address into SNI host, host, port and path.
pub fn doh3_parse_url(address: &str) -> (r: Result<(String, String, u16, String), String>)
    ensures
        match doh3_target_of(address@) {
            Some((s, h, p, path)) => r matches Ok((sni, host, port, pth)) && sni@ == s && host@ == h
                && port == p && pth@ == path,
            None => r is Err,
        },
{
    proof {
        reveal_strlit("https://");
    }
    let a: Vec<char> = chars_of(address);
    let https: Vec<char> = chars_of("https://");
    let (host_port, path): (Vec<char>, Vec<char>) = if starts_with(&a, &https) {
        let rest: Vec<char> = slice_chars(&a, 8, a.len());
        match find_char(&rest, '/') {
            Some(s) => {
                let ghost ss = choose|s: int| 0 <= s < rest@.len() && rest@[s] == '/' && forall|j: int| 0 <= j < s ==> rest@[j] != '/';
                assert(ss == s) by {
                    if ss < s {
                        assert(rest@[ss] != '/');
                    } else if ss > s {
                        assert(rest@[s as int] != '/');
                    }
                }
                (slice_chars(&rest, 0, s), slice_chars(&rest, s, rest.len()))
            },
            None => (rest, chars_of("/dns-query")),
        }
    } else {
        (a, chars_of("/dns-query"))
    };
    let hp: String = string_of(&host_port);
    match parse_host_port(hp.as_str(), HTTPS_PORT) {
        Ok((host, port)) => {
            let sni: String = host.clone();
            Ok((sni, host, port, string_of(&path)))
        },
        Err(e) => Err(e),
    }
}

/// The query used to probe whether an upstream answers: the root `NS` set.
pub fn health_probe_query() -> (q: DnsQuery)
    ensures
        q.name@ == "."@,
        q.record_type == RecordType::NS,
        q.recursion_desired,
{
    DnsQuery::new(".", RecordType::NS)
}

} // verus!
