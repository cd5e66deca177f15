//! Decimal numbers in text: what `u16::from_str` and `i64::from_str` read.

use vstd::prelude::*;

verus! {

/// An ASCII decimal digit.
pub open spec fn is_digit(c: char) -> bool {
    '0' <= c && c <= '9'
}

/// Every character is a decimal digit.
pub open spec fn all_digits(s: Seq<char>) -> bool {
    forall|i: int| 0 <= i < s.len() ==> is_digit(#[trigger] s[i])
}

/// The number that a string of decimal digits denotes.
pub open spec fn digits_value(s: Seq<char>) -> nat
    decreases s.len(),
{
    if s.len() == 0 {
        0
    } else {
        digits_value(s.drop_last()) * 10 + ((s.last() as u32) - 48) as nat
    }
}

/// What the `from_str` of an unsigned integer type whose largest value is
/// `max` reads: an optional `+`, then one or more decimal digits whose
/// value is at most `max`.
pub open spec fn parsed_unsigned(s: Seq<char>, max: nat) -> Option<nat> {
    let d = if s.len() > 0 && s[0] == '+' {
        s.subrange(1, s.len() as int)
    } else {
        s
    };
    if d.len() > 0 && all_digits(d) && digits_value(d) <= max {
        Some(digits_value(d))
    } else {
        None
    }
}

/// What `u16::from_str` reads.
pub open spec fn parsed_u16(s: Seq<char>) -> Option<u16> {
    match parsed_unsigned(s, 65535) {
        Some(v) => Some(v as u16),
        None => None,
    }
}

/// What `u32::from_str` reads.
pub open spec fn parsed_u32(s: Seq<char>) -> Option<u32> {
    match parsed_unsigned(s, 4294967295) {
        Some(v) => Some(v as u32),
        None => None,
    }
}

/// What `u64::from_str` reads.
pub open spec fn parsed_u64(s: Seq<char>) -> Option<u64> {
    match parsed_unsigned(s, 18446744073709551615) {
        Some(v) => Some(v as u64),
        None => None,
    }
}

/// A digit string is worth at least as much as any of its prefixes.
pub proof fn lemma_digits_value_prefix(s: Seq<char>, i: int)
    requires
        0 <= i <= s.len(),
        all_digits(s),
    ensures
        digits_value(s.subrange(0, i)) <= digits_value(s),
    decreases s.len() - i,
{
    if i < s.len() {
        lemma_digits_value_prefix(s, i + 1);
        let t = s.subrange(0, i + 1);
        assert(t.drop_last() =~= s.subrange(0, i));
        assert(is_digit(s[i]));
    } else {
        assert(s.subrange(0, i) =~= s);
    }
}

/// Reads an unsigned number of at most `max`, as the `from_str` of the
/// unsigned type whose largest value is `max` does.
pub fn parse_unsigned(s: &Vec<char>, max: u64) -> (r: Option<u64>)
    ensures
        match parsed_unsigned(s@, max as nat) {
            Some(v) => r == Some(v as u64),
            None => r is None,
        },
{
    let start: usize = if s.len() > 0 && s[0] == '+' {
        1
    } else {
        0
    };
    let ghost d = if s@.len() > 0 && s@[0] == '+' {
        s@.subrange(1, s@.len() as int)
    } else {
        s@
    };
    assert(d =~= s@.subrange(start as int, s@.len() as int));
    if start >= s.len() {
        return None;
    }
    let mut acc: u64 = 0;
    let mut i: usize = start;
    while i < s.len()
        invariant
            start <= i <= s@.len(),
            d == s@.subrange(start as int, s@.len() as int),
            d == (if s@.len() > 0 && s@[0] == '+' {
                s@.subrange(1, s@.len() as int)
            } else {
                s@
            }),
            all_digits(d.subrange(0, i - start)),
            acc as nat == digits_value(d.subrange(0, i - start)),
            acc <= max,
        decreases s@.len() - i,
    {
        let c: char = s[i];
        assert(d.subrange(0, i + 1 - start).drop_last() =~= d.subrange(0, i - start));
        if !('0' <= c && c <= '9') {
            assert(d[i - start] == c);
            assert(!all_digits(d));
            return None;
        }
        let digit: u128 = (c as u128) - 48;
        let next: u128 = (acc as u128) * 10 + digit;
        assert(all_digits(d.subrange(0, i + 1 - start)));
        assert(digits_value(d.subrange(0, i + 1 - start)) == next);
        if next > max as u128 {
            proof {
                if all_digits(d) {
                    lemma_digits_value_prefix(d, i + 1 - start);
                }
            }
            return None;
        }
        acc = next as u64;
        i = i + 1;
    }
    assert(d.subrange(0, s@.len() - start) =~= d);
    Some(acc)
}

/// Reads a port number as `u16::from_str` does.
pub fn parse_u16(s: &Vec<char>) -> (r: Option<u16>)
    ensures
        r == parsed_u16(s@),
{
    match parse_unsigned(s, 65535) {
        Some(v) => Some(v as u16),
        None => None,
    }
}

/// Reads a number as `u32::from_str` does.
pub fn parse_u32(s: &str) -> (r: Option<u32>)
    ensures
        r == parsed_u32(s@),
{
    match parse_unsigned(&crate::text::chars_of(s), 4294967295) {
        Some(v) => Some(v as u32),
        None => None,
    }
}

/// Reads a number from characters as `u32::from_str` does.
pub fn parse_u32_chars(s: &Vec<char>) -> (r: Option<u32>)
    ensures
        r == parsed_u32(s@),
{
    match parse_unsigned(s, 4294967295) {
        Some(v) => Some(v as u32),
        None => None,
    }
}

/// Reads a number as `u64::from_str` does.
pub fn parse_u64(s: &str) -> (r: Option<u64>)
    ensures
        r == parsed_u64(s@),
{
    parse_unsigned(&crate::text::chars_of(s), 18446744073709551615)
}

/// What `i64::from_str` reads: an optional `+` or `-`, then one or more
/// decimal digits whose signed value fits in 64 bits.
pub open spec fn parsed_i64(s: Seq<char>) -> Option<i64> {
    let signed = s.len() > 0 && (s[0] == '+' || s[0] == '-');
    let d = if signed {
        s.subrange(1, s.len() as int)
    } else {
        s
    };
    let v: int = if s.len() > 0 && s[0] == '-' {
        -(digits_value(d) as int)
    } else {
        digits_value(d) as int
    };
    if d.len() > 0 && all_digits(d) && i64::MIN <= v <= i64::MAX {
        Some(v as i64)
    } else {
        None
    }
}

/// Reads a signed number as `i64::from_str` does.
pub fn parse_i64(s: &str) -> (r: Option<i64>)
    ensures
        r == parsed_i64(s@),
{
    parse_i64_chars(&crate::text::chars_of(s))
}

/// Reads a signed number from characters as `i64::from_str` does.
pub fn parse_i64_chars(cs: &Vec<char>) -> (r: Option<i64>)
    ensures
        r == parsed_i64(cs@),
{
    let ghost s = cs@;
    let neg: bool = cs.len() > 0 && cs[0] == '-';
    let start: usize = if cs.len() > 0 && (cs[0] == '+' || cs[0] == '-') {
        1
    } else {
        0
    };
    let ghost d = if cs@.len() > 0 && (cs@[0] == '+' || cs@[0] == '-') {
        cs@.subrange(1, cs@.len() as int)
    } else {
        cs@
    };
    assert(d =~= cs@.subrange(start as int, cs@.len() as int));
    if start >= cs.len() {
        return None;
    }
    let limit: u64 = 9223372036854775808;
    let mut acc: u64 = 0;
    let mut i: usize = start;
    while i < cs.len()
        invariant
            cs@ == s,
            start <= i <= cs@.len(),
            start < cs@.len(),
            d == cs@.subrange(start as int, cs@.len() as int),
            d == (if cs@.len() > 0 && (cs@[0] == '+' || cs@[0] == '-') {
                cs@.subrange(1, cs@.len() as int)
            } else {
                cs@
            }),
            neg == (cs@.len() > 0 && cs@[0] == '-'),
            all_digits(d.subrange(0, i - start)),
            acc as nat == digits_value(d.subrange(0, i - start)),
            acc <= limit,
            limit == 9223372036854775808u64,
        decreases cs@.len() - i,
    {
        let c: char = cs[i];
        assert(d.subrange(0, i + 1 - start).drop_last() =~= d.subrange(0, i - start));
        if !('0' <= c && c <= '9') {
            assert(d[i - start] == c);
            assert(!all_digits(d));
            return None;
        }
        let digit: u128 = (c as u128) - 48;
        let next: u128 = (acc as u128) * 10 + digit;
        assert(all_digits(d.subrange(0, i + 1 - start)));
        assert(digits_value(d.subrange(0, i + 1 - start)) == next);
        if next > limit as u128 {
            proof {
                if all_digits(d) {
                    lemma_digits_value_prefix(d, i + 1 - start);
                }
                assert(parsed_i64(s) is None);
            }
            return None;
        }
        acc = next as u64;
        i = i + 1;
    }
    assert(d.subrange(0, cs@.len() - start) =~= d);
    if neg {
        if acc == limit {
            Some(i64::MIN)
        } else {
            let v: i64 = acc as i64;
            Some(-v)
        }
    } else if acc == limit {
        None
    } else {
        Some(acc as i64)
    }
}

/// What `i32::from_str` reads: as for `i64`, where the value fits in 32 bits.
pub open spec fn parsed_i32(s: Seq<char>) -> Option<i32> {
    match parsed_i64(s) {
        Some(v) => if i32::MIN <= v <= i32::MAX {
            Some(v as i32)
        } else {
            None
        },
        None => None,
    }
}

/// Reads a signed number from characters as `i32::from_str` does.
pub fn parse_i32_chars(cs: &Vec<char>) -> (r: Option<i32>)
    ensures
        r == parsed_i32(cs@),
{
    match parse_i64_chars(cs) {
        Some(v) => if -2147483648 <= v && v <= 2147483647 {
            Some(v as i32)
        } else {
            None
        },
        None => None,
    }
}

} // verus!
