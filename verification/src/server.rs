//! What the listeners decide about a request before and after it is
//! resolved: where the client is, which bytes hold the DNS message, when a
//! body is too large, and which HTTP status answers a bad request.

use vstd::prelude::*;
use base64::Engine;
use crate::text::{chars_of, is_whitespace, slice_chars, starts_with, str_eq, string_of, trim_chars, trimmed};

verus! {

broadcast use vstd::string::group_string_axioms;

/// Largest DNS message accepted in a request body.
pub const MAX_DNS_MESSAGE: usize = 65535;

/// Paths of the certificate and key files in PEM form.
#[derive(Debug, Clone)]
pub struct TlsConfig {
    /// Path to the certificate file (PEM format)
    pub cert_path: String,
    /// Path to the private key file (PEM format)
    pub key_path: String,
}

impl TlsConfig {
    /// A configuration naming these two files.
    pub fn new(cert_path: &str, key_path: &str) -> (c: TlsConfig)
        ensures
            c.cert_path@ == cert_path@,
            c.key_path@ == key_path@,
    {
        TlsConfig { cert_path: cert_path.to_owned(), key_path: key_path.to_owned() }
    }
}

/// Query parameters of a DoH GET request.
#[derive(Debug)]
pub struct DohGetParams {
    /// The DNS message, base64url-encoded without padding
    pub dns: String,
}

/// The JSON form of a DoH answer.
#[derive(Debug)]
pub struct DohJsonResponse {
    pub status: u16,
    pub truncated: bool,
    pub recursion_desired: bool,
    pub recursion_available: bool,
    pub authenticated_data: bool,
    pub checking_disabled: bool,
    pub question: Vec<DohJsonQuestion>,
    pub answer: Vec<DohJsonRecord>,
}

/// A question in the JSON form of a DoH answer.
#[derive(Debug)]
pub struct DohJsonQuestion {
    pub name: String,
    pub record_type: u16,
}

/// A record in the JSON form of a DoH answer.
#[derive(Debug)]
pub struct DohJsonRecord {
    pub name: String,
    pub record_type: u16,
    pub ttl: u32,
    pub data: String,
}

/// What the `base64` crate's URL-safe, unpadded engine decodes a text
/// to, if it accepts it.
pub uninterp spec fn base64url_decoded(text: Seq<char>) -> Option<Seq<u8>>;

/// Decodes with `base64::engine::general_purpose::URL_SAFE_NO_PAD`; the
/// outcome is named by `base64url_decoded`.
#[verifier::external_body]
fn base64url_decode(text: &str) -> (r: Option<Vec<u8>>)
    ensures
        match r {
            Some(v) => base64url_decoded(text@) == Some(v@),
            None => base64url_decoded(text@) is None,
        },
{
    base64::engine::general_purpose::URL_SAFE_NO_PAD.decode(text).ok()
}

/// The bytes of a DoH GET request's `dns` parameter, if it decodes.
pub fn decode_get_param(params: &DohGetParams) -> (r: Option<Vec<u8>>)
    ensures
        match r {
            Some(v) => base64url_decoded(params.dns@) == Some(v@),
            None => base64url_decoded(params.dns@) is None,
        },
{
    base64url_decode(params.dns.as_str())
}

/// The text before the first comma, or all of it.
pub open spec fn first_field(s: Seq<char>) -> Seq<char> {
    if s.contains(',') {
        s.subrange(0, choose|i: int| 0 <= i < s.len() && s[i] == ',' && forall|j: int| 0 <= j < i ==> s[j] != ',')
    } else {
        s
    }
}

/// The client of a request: the first address of `X-Forwarded-For`,
/// trimmed; else `X-Real-IP`; else `unknown`.
pub open spec fn client_ip_text(forwarded: Option<Seq<char>>, real_ip: Option<Seq<char>>) -> Seq<char> {
    match forwarded {
        Some(f) => trimmed(first_field(f)),
        None => match real_ip {
            Some(r) => r,
            None => "unknown"@,
        },
    }
}

/// Finds the client's address from the proxy headers (each given when
/// present and readable as text).
pub fn client_ip(forwarded: Option<&str>, real_ip: Option<&str>) -> (r: String)
    ensures
        r@ == client_ip_text(
            match forwarded {
                Some(f) => Some(f@),
                None => None,
            },
            match real_ip {
                Some(x) => Some(x@),
                None => None,
            },
        ),
{
    match forwarded {
        Some(f) => {
            let cs: Vec<char> = chars_of(f);
            let first: Vec<char> = match crate::text::find_char(&cs, ',') {
                Some(i) => {
                    let ghost k = choose|k: int|
                        0 <= k < cs@.len() && cs@[k] == ',' && forall|j: int| 0 <= j < k ==> cs@[j] != ',';
                    assert(k == i) by {
                        if k < i {
                            assert(cs@[k] != ',');
                        } else if k > i {
                            assert(cs@[i as int] != ',');
                        }
                    }
                    slice_chars(&cs, 0, i)
                },
                None => cs,
            };
            string_of(&trim_chars(&first))
        },
        None => match real_ip {
            Some(x) => x.to_owned(),
            None => string_of(&chars_of("unknown")),
        },
    }
}

/// HTTP statuses a DNS-over-HTTP request can be refused with.
#[derive(Debug, Clone, Copy, PartialEq, Eq, Structural)]
pub enum RequestRefusal {
    /// 400: no DNS message could be read
    BadRequest,
    /// 413: the body is larger than a DNS message can be
    PayloadTooLarge,
    /// 405: neither GET nor POST
    MethodNotAllowed,
}

impl RequestRefusal {
    /// The HTTP status code.
    pub fn status_code(&self) -> (c: u16)
        ensures
            c == (match *self {
                RequestRefusal::BadRequest => 400u16,
                RequestRefusal::PayloadTooLarge => 413u16,
                RequestRefusal::MethodNotAllowed => 405u16,
            }),
    {
        match self {
            RequestRefusal::BadRequest => 400,
            RequestRefusal::PayloadTooLarge => 413,
            RequestRefusal::MethodNotAllowed => 405,
        }
    }
}

/// The pieces of a text between `sep` characters, empty ones included,
/// as `str::split` gives them.
pub open spec fn split_on(s: Seq<char>, sep: char) -> Seq<Seq<char>>
    decreases s.len(),
{
    if s.len() == 0 {
        seq![Seq::<char>::empty()]
    } else {
        let p = split_on(s.drop_last(), sep);
        if s.last() == sep {
            p.push(Seq::<char>::empty())
        } else {
            p.update(p.len() - 1, p.last().push(s.last()))
        }
    }
}

/// The value of a `dns=` pair.
pub open spec fn dns_value(pair: Seq<char>) -> Option<Seq<char>> {
    if pair.len() >= 4 && pair.subrange(0, 4) == "dns="@ {
        Some(pair.subrange(4, pair.len() as int))
    } else {
        None
    }
}

/// The value of the first `dns=` pair among pairs.
pub open spec fn first_dns_value(pairs: Seq<Seq<char>>) -> Option<Seq<char>>
    decreases pairs.len(),
{
    if pairs.len() == 0 {
        None
    } else {
        match first_dns_value(pairs.drop_last()) {
            Some(v) => Some(v),
            None => dns_value(pairs.last()),
        }
    }
}

/// The value of the first `dns=` pair of a query string.
pub open spec fn dns_param_of(query: Seq<char>) -> Option<Seq<char>> {
    first_dns_value(split_on(query, '&'))
}

proof fn lemma_split_on_nonempty(s: Seq<char>, sep: char)
    ensures
        split_on(s, sep).len() >= 1,
    decreases s.len(),
{
    if s.len() > 0 {
        lemma_split_on_nonempty(s.drop_last(), sep);
    }
}

proof fn lemma_first_dns_found(pairs: Seq<Seq<char>>, k: int)
    requires
        0 <= k <= pairs.len(),
        first_dns_value(pairs.subrange(0, k)) is Some,
    ensures
        first_dns_value(pairs) == first_dns_value(pairs.subrange(0, k)),
    decreases pairs.len() - k,
{
    if k < pairs.len() {
        assert(pairs.subrange(0, k + 1).drop_last() =~= pairs.subrange(0, k));
        lemma_first_dns_found(pairs, k + 1);
    } else {
        assert(pairs.subrange(0, k) =~= pairs);
    }
}

fn dns_value_of(pair: &Vec<char>, prefix: &Vec<char>) -> (r: Option<String>)
    requires
        prefix@ == "dns="@,
    ensures
        match r {
            Some(v) => dns_value(pair@) == Some(v@),
            None => dns_value(pair@) is None,
        },
{
    proof {
        reveal_strlit("dns=");
    }
    if starts_with(pair, prefix) {
        Some(string_of(&slice_chars(pair, 4, pair.len())))
    } else {
        None
    }
}

/// Finds the `dns=` parameter in a query string.
pub fn dns_param(query: &str) -> (r: Option<String>)
    ensures
        match r {
            Some(v) => dns_param_of(query@) == Some(v@),
            None => dns_param_of(query@) is None,
        },
{
    let cs: Vec<char> = chars_of(query);
    let prefix: Vec<char> = chars_of("dns=");
    let mut current: Vec<char> = Vec::new();
    let mut i: usize = 0;
    while i < cs.len()
        invariant
            0 <= i <= cs@.len(),
            cs@ == query@,
            prefix@ == "dns="@,
            split_on(cs@.subrange(0, i as int), '&').len() >= 1,
            split_on(cs@.subrange(0, i as int), '&').last() == current@,
            first_dns_value(split_on(cs@.subrange(0, i as int), '&').drop_last()) is None,
        decreases cs@.len() - i,
    {
        let c: char = cs[i];
        let ghost before = split_on(cs@.subrange(0, i as int), '&');
        assert(cs@.subrange(0, i + 1).drop_last() =~= cs@.subrange(0, i as int));
        assert(cs@.subrange(0, i + 1).last() == c);
        if c == '&' {
            let found: Option<String> = dns_value_of(&current, &prefix);
            proof {
                let after = split_on(cs@.subrange(0, i + 1), '&');
                assert(after.drop_last() =~= before);
                assert(before.drop_last() =~= before.subrange(0, before.len() - 1));
            }
            match found {
                Some(v) => {
                    proof {
                        let all = split_on(cs@, '&');
                        let after = split_on(cs@.subrange(0, i + 1), '&');
                        assert(first_dns_value(before) is Some);
                        lemma_split_prefix_pieces(cs@, (i + 1) as int);
                        lemma_first_dns_found(all, before.len() as int);
                        assert(all.subrange(0, before.len() as int) =~= before);
                    }
                    return Some(v);
                },
                None => {},
            }
            current = Vec::new();
        } else {
            current.push(c);
            proof {
                let after = split_on(cs@.subrange(0, i + 1), '&');
                assert(after.drop_last() =~= before.drop_last());
            }
        }
        i = i + 1;
    }
    assert(cs@.subrange(0, cs@.len() as int) =~= cs@);
    let found: Option<String> = dns_value_of(&current, &prefix);
    proof {
        let all = split_on(cs@, '&');
        assert(all =~= all.drop_last().push(all.last()));
    }
    found
}

/// The pieces of a prefix ending just after a separator are the first
/// pieces of the whole text.
proof fn lemma_split_prefix_pieces(s: Seq<char>, k: int)
    requires
        0 < k <= s.len(),
        s[k - 1] == '&',
    ensures
        split_on(s, '&').len() >= split_on(s.subrange(0, k), '&').len(),
        split_on(s, '&').subrange(0, split_on(s.subrange(0, k), '&').len() - 1)
            == split_on(s.subrange(0, k), '&').drop_last(),
    decreases s.len() - k,
{
    lemma_split_on_nonempty(s.subrange(0, k), '&');
    if k < s.len() {
        lemma_split_prefix_pieces_step(s, k, s.len() as int);
        assert(s.subrange(0, s.len() as int) =~= s);
    } else {
        assert(s.subrange(0, k) =~= s);
    }
}

/// Extending a text past a separator keeps the pieces before it.
proof fn lemma_split_prefix_pieces_step(s: Seq<char>, k: int, m: int)
    requires
        0 < k <= m <= s.len(),
        s[k - 1] == '&',
    ensures
        split_on(s.subrange(0, m), '&').len() >= split_on(s.subrange(0, k), '&').len(),
        split_on(s.subrange(0, m), '&').subrange(0, split_on(s.subrange(0, k), '&').len() - 1)
            == split_on(s.subrange(0, k), '&').drop_last(),
    decreases m - k,
{
    lemma_split_on_nonempty(s.subrange(0, k), '&');
    let base = split_on(s.subrange(0, k), '&');
    if m == k {
        assert(base.subrange(0, base.len() - 1) =~= base.drop_last());
    } else {
        lemma_split_prefix_pieces_step(s, k, m - 1);
        lemma_split_on_nonempty(s.subrange(0, m - 1), '&');
        let prev = split_on(s.subrange(0, m - 1), '&');
        let cur = split_on(s.subrange(0, m), '&');
        assert(s.subrange(0, m).drop_last() =~= s.subrange(0, m - 1));
        assert(prev.len() >= base.len());
        if s[m - 1] == '&' {
            assert(cur == prev.push(Seq::<char>::empty()));
            assert(cur.subrange(0, base.len() - 1) =~= prev.subrange(0, base.len() - 1));
        } else {
            assert(cur == prev.update(prev.len() - 1, prev.last().push(s[m - 1])));
            if m - 1 == k - 1 {
            } else {
                assert(prev.len() >= base.len());
                assert(cur.subrange(0, base.len() - 1) =~= prev.subrange(0, base.len() - 1));
            }
        }
    }
}

/// The DNS message of a DoH3 GET request: the `dns=` parameter of its
/// query string, base64url-decoded; without either, a bad request.
pub fn get_request_message(query: Option<&str>) -> (r: Result<Vec<u8>, RequestRefusal>)
    ensures
        match query {
            None => r == Err::<Vec<u8>, RequestRefusal>(RequestRefusal::BadRequest),
            Some(q) => match dns_param_of(q@) {
                None => r == Err::<Vec<u8>, RequestRefusal>(RequestRefusal::BadRequest),
                Some(p) => match base64url_decoded(p) {
                    None => r == Err::<Vec<u8>, RequestRefusal>(RequestRefusal::BadRequest),
                    Some(bytes) => r matches Ok(v) && v@ == bytes,
                },
            },
        },
{
    match query {
        None => Err(RequestRefusal::BadRequest),
        Some(q) => match dns_param(q) {
            None => Err(RequestRefusal::BadRequest),
            Some(p) => match base64url_decode(p.as_str()) {
                None => Err(RequestRefusal::BadRequest),
                Some(v) => Ok(v),
            },
        },
    }
}

/// The body of a DoH3 POST request, gathered chunk by chunk.
#[derive(Debug)]
pub struct BodyCollector {
    body: Vec<u8>,
}

impl BodyCollector {
    /// The bytes gathered so far.
    pub closed spec fn bytes(&self) -> Seq<u8> {
        self.body@
    }

    /// Nothing gathered yet.
    pub fn new() -> (c: BodyCollector)
        ensures
            c.bytes() == Seq::<u8>::empty(),
    {
        BodyCollector { body: Vec::new() }
    }

    /// Takes the next chunk, unless the body would then exceed
    /// `MAX_DNS_MESSAGE` bytes, which refuses the request.
    pub fn push_chunk(&mut self, chunk: &[u8]) -> (r: Result<(), RequestRefusal>)
        requires
            old(self).bytes().len() <= MAX_DNS_MESSAGE,
        ensures
            old(self).bytes().len() + chunk@.len() > MAX_DNS_MESSAGE ==> r == Err::<
                (),
                RequestRefusal,
            >(RequestRefusal::PayloadTooLarge) && final(self).bytes() == old(self).bytes(),
            old(self).bytes().len() + chunk@.len() <= MAX_DNS_MESSAGE ==> r is Ok
                && final(self).bytes() == old(self).bytes() + chunk@,
            final(self).bytes().len() <= MAX_DNS_MESSAGE,
    {
        if chunk.len() > MAX_DNS_MESSAGE - self.body.len() {
            return Err(RequestRefusal::PayloadTooLarge);
        }
        let mut i: usize = 0;
        let ghost start = self.body@;
        while i < chunk.len()
            invariant
                0 <= i <= chunk@.len(),
                start.len() + chunk@.len() <= MAX_DNS_MESSAGE,
                self.body@ == start + chunk@.subrange(0, i as int),
            decreases chunk@.len() - i,
        {
            self.body.push(chunk[i]);
            assert(self.body@ =~= start + chunk@.subrange(0, i + 1));
            i = i + 1;
        }
        assert(chunk@.subrange(0, chunk@.len() as int) =~= chunk@);
        Ok(())
    }

    /// The message once the body has ended: an empty body is a bad request.
    pub fn finish(self) -> (r: Result<Vec<u8>, RequestRefusal>)
        ensures
            self.bytes().len() == 0 ==> r == Err::<Vec<u8>, RequestRefusal>(RequestRefusal::BadRequest),
            self.bytes().len() > 0 ==> (r matches Ok(v) && v@ == self.bytes()),
    {
        if self.body.len() == 0 {
            Err(RequestRefusal::BadRequest)
        } else {
            Ok(self.body)
        }
    }
}

/// How a DNS-over-HTTP request carries its message.
#[derive(Debug, Clone, Copy, PartialEq, Eq, Structural)]
pub enum DohRequestKind {
    /// In the `dns` query parameter, base64url-encoded.
    Get,
    /// As the request body.
    Post,
}

/// The kind of a DNS-over-HTTP request by its method: `GET` and `POST`
/// carry a message, any other method is refused with 405.
pub fn doh_request_kind(method: &str) -> (r: Result<DohRequestKind, RequestRefusal>)
    ensures
        method@ == "GET"@ ==> r == Ok::<DohRequestKind, RequestRefusal>(DohRequestKind::Get),
        method@ == "POST"@ ==> r == Ok::<DohRequestKind, RequestRefusal>(DohRequestKind::Post),
        method@ != "GET"@ && method@ != "POST"@ ==> r == Err::<DohRequestKind, RequestRefusal>(
            RequestRefusal::MethodNotAllowed,
        ),
{
    proof {
        reveal_strlit("GET");
        reveal_strlit("POST");
        assert("GET"@.len() != "POST"@.len());
    }
    if str_eq(method, "GET") {
        Ok(DohRequestKind::Get)
    } else if str_eq(method, "POST") {
        Ok(DohRequestKind::Post)
    } else {
        Err(RequestRefusal::MethodNotAllowed)
    }
}

} // verus!
