//! IP addresses as plain values, their decimal text form, and the
//! parsers of std that read them.

use vstd::prelude::*;
use crate::text::string_of;
use crate::number::{all_digits, digits_value};
use hickory_proto::rr::rdata::{A, AAAA};

verus! {

/// The character of the decimal digit `d`.
pub open spec fn digit_char(d: nat) -> char {
    ((d + 48) as u32) as char
}

/// Decimal text of a natural number, without leading zeros.
pub open spec fn decimal(n: nat) -> Seq<char>
    decreases n,
{
    if n < 10 {
        seq![digit_char(n)]
    } else {
        decimal(n / 10).push(digit_char(n % 10))
    }
}

/// Appends the decimal text of `n` to `out`.
pub fn push_decimal(out: &mut Vec<char>, n: u64)
    ensures
        final(out)@ == old(out)@ + decimal(n as nat),
    decreases n,
{
    if n >= 10 {
        push_decimal(out, n / 10);
    }
    let d: u8 = (n % 10) as u8;
    let c: char = (d + 48u8) as char;
    assert(c == digit_char((n % 10) as nat));
    out.push(c);
    proof {
        if n >= 10 {
            assert(decimal(n as nat) == decimal((n / 10) as nat).push(digit_char((n % 10) as nat)));
        }
    }
    assert(final(out)@ =~= old(out)@ + decimal(n as nat)) by {
        if n < 10 {
            assert(decimal(n as nat) =~= seq![c]);
        }
    }
}

/// Decimal text of a signed number, with a leading `-` when negative.
pub open spec fn signed_decimal(n: int) -> Seq<char> {
    if n < 0 {
        seq!['-'] + decimal((-n) as nat)
    } else {
        decimal(n as nat)
    }
}

/// Appends the decimal text of a signed number to `out`.
pub fn push_signed_decimal(out: &mut Vec<char>, n: i64)
    ensures
        final(out)@ == old(out)@ + signed_decimal(n as int),
{
    if n < 0 {
        out.push('-');
        let m: u64 = if n == i64::MIN {
            9223372036854775808u64
        } else {
            (-n) as u64
        };
        push_decimal(out, m);
        assert(final(out)@ =~= old(out)@ + signed_decimal(n as int));
    } else {
        push_decimal(out, n as u64);
    }
}

/// Decimal text of `n` as a `String`.
pub fn decimal_string(n: u64) -> (s: String)
    ensures
        s@ == decimal(n as nat),
{
    let mut v: Vec<char> = Vec::new();
    push_decimal(&mut v, n);
    assert(v@ =~= decimal(n as nat));
    string_of(&v)
}

/// An IPv4 address.
#[derive(Debug, Clone, Copy, PartialEq, Eq, Hash)]
pub struct Ipv4Addr {
    octets: [u8; 4],
}

/// An IPv6 address, as eight 16-bit segments.
#[derive(Debug, Clone, Copy, PartialEq, Eq, Hash)]
pub struct Ipv6Addr {
    segments: [u16; 8],
}

/// An IPv4 or IPv6 address.
#[derive(Debug, Clone, Copy, PartialEq, Eq, Hash)]
pub enum IpAddr {
    V4(Ipv4Addr),
    V6(Ipv6Addr),
}

impl Ipv4Addr {
    pub closed spec fn octets_view(self) -> Seq<u8> {
        self.octets@
    }

    /// The address `a.b.c.d`.
    pub fn new(a: u8, b: u8, c: u8, d: u8) -> (r: Ipv4Addr)
        ensures
            r.octets_view() == seq![a, b, c, d],
    {
        let r = Ipv4Addr { octets: [a, b, c, d] };
        assert(r.octets@ =~= seq![a, b, c, d]);
        r
    }

    /// The four octets, most significant first.
    pub fn octets(&self) -> (r: [u8; 4])
        ensures
            r@ == self.octets_view(),
    {
        self.octets
    }

    /// The dotted-decimal text of this address.
    pub fn to_string(&self) -> (s: String)
        ensures
            s@ == ipv4_text(self.octets_view()),
    {
        let mut v: Vec<char> = Vec::new();
        push_decimal(&mut v, self.octets[0] as u64);
        v.push('.');
        push_decimal(&mut v, self.octets[1] as u64);
        v.push('.');
        push_decimal(&mut v, self.octets[2] as u64);
        v.push('.');
        push_decimal(&mut v, self.octets[3] as u64);
        assert(v@ =~= ipv4_text(self.octets_view()));
        string_of(&v)
    }
}

/// Dotted-decimal text of four octets.
pub open spec fn ipv4_text(o: Seq<u8>) -> Seq<char> {
    decimal(o[0] as nat).push('.') + decimal(o[1] as nat).push('.') + decimal(o[2] as nat).push(
        '.',
    ) + decimal(o[3] as nat)
}

/// What std's `Display` for `Ipv6Addr` writes for the given segments
/// (the compressed form of RFC 5952).
pub uninterp spec fn ipv6_text(segments: Seq<u16>) -> Seq<char>;

/// The octet a part of dotted-decimal text stands for: decimal digits
/// without a leading zero (unless the part is `0`), of value at most 255.
pub open spec fn octet_part(t: Seq<char>) -> Option<u8> {
    if t.len() > 0 && all_digits(t) && (t.len() == 1 || t[0] != '0') && digits_value(t) <= 255 {
        Some(digits_value(t) as u8)
    } else {
        None
    }
}

/// The text has dots at `i`, `j` and `k` and nowhere else.
pub open spec fn three_dots_at(s: Seq<char>, i: int, j: int, k: int) -> bool {
    &&& 0 <= i < j < k < s.len()
    &&& s[i] == '.' && s[j] == '.' && s[k] == '.'
    &&& forall|m: int| 0 <= m < s.len() && #[trigger] s[m] == '.' ==> m == i || m == j || m == k
}

/// The address std's `Ipv4Addr::from_str` reads from a text, if it accepts
/// it: four octets in decimal, separated by dots, with neither octal nor
/// hexadecimal forms (no leading zeros), as its documentation describes.
pub closed spec fn parsed_ipv4(s: Seq<char>) -> Option<Ipv4Addr> {
    if exists|i: int, j: int, k: int| three_dots_at(s, i, j, k) {
        let (i, j, k) = choose|i: int, j: int, k: int| three_dots_at(s, i, j, k);
        match (
            octet_part(s.subrange(0, i)),
            octet_part(s.subrange(i + 1, j)),
            octet_part(s.subrange(j + 1, k)),
            octet_part(s.subrange(k + 1, s.len() as int)),
        ) {
            (Some(a), Some(b), Some(c), Some(d)) => Some(Ipv4Addr { octets: [a, b, c, d] }),
            _ => None,
        }
    } else {
        None
    }
}

/// What std's `Ipv6Addr::from_str` reads from a text, if it accepts it.
pub uninterp spec fn parsed_ipv6(s: Seq<char>) -> Option<Ipv6Addr>;

/// An IPv4 address if the text is one, else an IPv6 address if it is one.
pub open spec fn parsed_ip(s: Seq<char>) -> Option<IpAddr> {
    match parsed_ipv4(s) {
        Some(a) => Some(IpAddr::V4(a)),
        None => match parsed_ipv6(s) {
            Some(b) => Some(IpAddr::V6(b)),
            None => None,
        },
    }
}

/// Formats through `Display` for `hickory_proto::rr::rdata::AAAA`, which
/// writes the held IPv6 address as std does; the text is named by `ipv6_text`.
#[verifier::external_body]
fn aaaa_to_string(segments: [u16; 8]) -> (s: String)
    ensures
        s@ == ipv6_text(segments@),
{
    let [a, b, c, d, e, f, g, h] = segments;
    AAAA::new(a, b, c, d, e, f, g, h).to_string()
}

impl Ipv6Addr {
    pub closed spec fn segments_view(self) -> Seq<u16> {
        self.segments@
    }

    /// The address with the given eight segments.
    pub fn new(a: u16, b: u16, c: u16, d: u16, e: u16, f: u16, g: u16, h: u16) -> (r: Ipv6Addr)
        ensures
            r.segments_view() == seq![a, b, c, d, e, f, g, h],
    {
        let r = Ipv6Addr { segments: [a, b, c, d, e, f, g, h] };
        assert(r.segments@ =~= seq![a, b, c, d, e, f, g, h]);
        r
    }

    /// The eight segments, most significant first.
    pub fn segments(&self) -> (r: [u16; 8])
        ensures
            r@ == self.segments_view(),
    {
        self.segments
    }

    /// The text of this address as std writes it.
    pub fn to_string(&self) -> (s: String)
        ensures
            s@ == ipv6_text(self.segments_view()),
    {
        aaaa_to_string(self.segments)
    }
}

/// Text of an IP address.
pub open spec fn ip_text(ip: IpAddr) -> Seq<char> {
    match ip {
        IpAddr::V4(a) => ipv4_text(a.octets_view()),
        IpAddr::V6(b) => ipv6_text(b.segments_view()),
    }
}

impl IpAddr {
    /// The text of this address.
    pub fn to_string(&self) -> (s: String)
        ensures
            s@ == ip_text(*self),
    {
        match self {
            IpAddr::V4(a) => a.to_string(),
            IpAddr::V6(b) => b.to_string(),
        }
    }
}

/// Calls `FromStr` for `hickory_proto::rr::rdata::A`, which reads an IPv4
/// address as std's `Ipv4Addr::from_str` does; the outcome is `parsed_ipv4`.
#[verifier::external_body]
pub(crate) fn parse_ipv4(s: &str) -> (r: Option<Ipv4Addr>)
    ensures
        r == parsed_ipv4(s@),
{
    s.parse::<A>().ok().map(|a| Ipv4Addr { octets: a.octets() })
}

/// Calls `FromStr` for `hickory_proto::rr::rdata::AAAA`, which reads an IPv6
/// address as std's `Ipv6Addr::from_str` does; the outcome is named by `parsed_ipv6`.
#[verifier::external_body]
pub(crate) fn parse_ipv6(s: &str) -> (r: Option<Ipv6Addr>)
    ensures
        r == parsed_ipv6(s@),
{
    s.parse::<AAAA>().ok().map(|a| Ipv6Addr { segments: a.segments() })
}

/// Reads an IPv4 address, or failing that an IPv6 address, as std's
/// `IpAddr::from_str` does.
pub fn parse_ip(s: &str) -> (r: Option<IpAddr>)
    ensures
        r == parsed_ip(s@),
{
    match parse_ipv4(s) {
        Some(a) => Some(IpAddr::V4(a)),
        None => match parse_ipv6(s) {
            Some(b) => Some(IpAddr::V6(b)),
            None => None,
        },
    }
}

} // verus!
