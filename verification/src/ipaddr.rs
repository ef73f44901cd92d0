//! The textual forms of IP addresses that the standard library's
//! `Ipv4Addr` and `Ipv6Addr` parsers accept, and checks for them.
use vstd::prelude::*;

use crate::text::{digits_value, is_digit, lemma_digits_value_monotone};

verus! {

/// A hexadecimal digit, in either case.
pub open spec fn is_hex(c: char) -> bool {
    ||| ('0' <= c && c <= '9')
    ||| ('a' <= c && c <= 'f')
    ||| ('A' <= c && c <= 'F')
}

/// The number of consecutive characters of `s` from `p` on that satisfy
/// `is_digit` (`dec`) or `is_hex` (otherwise).
pub open spec fn run_len(s: Seq<char>, p: int, dec: bool) -> nat
    decreases s.len() - p,
{
    if p < 0 || p >= s.len() {
        0
    } else if (if dec {
        is_digit(s[p])
    } else {
        is_hex(s[p])
    }) {
        1 + run_len(s, p + 1, dec)
    } else {
        0
    }
}

/// A decimal octet of an IPv4 address read from position `p`: one to three
/// digits, at most 255, no leading zero unless it is the only digit. The
/// position after it, or `None`.
pub open spec fn read_octet(s: Seq<char>, p: int) -> Option<int> {
    let n = run_len(s, p, true);
    let digits = s.subrange(p, p + n);
    if n == 0 || n > 3 || digits_value(digits) > 255 || (n > 1 && s[p] == '0') {
        None
    } else {
        Some(p + n)
    }
}

/// An IPv4 address read from position `p`: four octets separated by `'.'`.
/// The position after it, or `None`.
pub open spec fn read_ipv4(s: Seq<char>, p: int) -> Option<int> {
    match read_octet(s, p) {
        None => None,
        Some(p1) => if p1 < s.len() && s[p1] == '.' {
            match read_octet(s, p1 + 1) {
                None => None,
                Some(p2) => if p2 < s.len() && s[p2] == '.' {
                    match read_octet(s, p2 + 1) {
                        None => None,
                        Some(p3) => if p3 < s.len() && s[p3] == '.' {
                            read_octet(s, p3 + 1)
                        } else {
                            None
                        },
                    }
                } else {
                    None
                },
            }
        } else {
            None
        },
    }
}

/// `s` is an IPv4 address in dotted-decimal form.
pub open spec fn is_ipv4(s: Seq<char>) -> bool {
    read_ipv4(s, 0) == Some(s.len() as int)
}

/// A group of an IPv6 address read from `p`: one to four hexadecimal digits.
pub open spec fn read_group(s: Seq<char>, p: int) -> Option<int> {
    let n = run_len(s, p, false);
    if n == 0 || n > 4 {
        None
    } else {
        Some(p + n)
    }
}

/// `p` past the `':'` that must precede group number `i > 0`, or `p` itself
/// for the first group.
pub open spec fn after_separator(s: Seq<char>, p: int, i: int) -> Option<int> {
    if i == 0 {
        Some(p)
    } else if 0 <= p < s.len() && s[p] == ':' {
        Some(p + 1)
    } else {
        None
    }
}

/// Reading colon-separated IPv6 groups from `p`, the `i`-th of at most
/// `limit`: an embedded IPv4 address may take the place of the last two.
/// Gives the number of groups read, whether they ended in an IPv4 address,
/// and the position after them.
pub open spec fn read_groups(s: Seq<char>, p: int, i: int, limit: int) -> (int, bool, int)
    decreases limit - i,
{
    if i >= limit {
        (limit, false, p)
    } else {
        let v4 = if i < limit - 1 {
            match after_separator(s, p, i) {
                Some(q) => read_ipv4(s, q),
                None => None,
            }
        } else {
            None
        };
        match v4 {
            Some(q) => (i + 2, true, q),
            None => match after_separator(s, p, i) {
                None => (i, false, p),
                Some(q) => match read_group(s, q) {
                    None => (i, false, p),
                    Some(q2) => read_groups(s, q2, i + 1, limit),
                },
            },
        }
    }
}

/// An IPv6 address read from the start of `s`: eight groups, or fewer with
/// one `"::"` standing for the missing ones. The position after it, or
/// `None`.
pub open spec fn read_ipv6(s: Seq<char>) -> Option<int> {
    let (head, head_v4, p) = read_groups(s, 0, 0, 8);
    if head == 8 {
        Some(p)
    } else if head_v4 {
        None
    } else if p + 1 < s.len() && s[p] == ':' && s[p + 1] == ':' {
        let (tail, tail_v4, q) = read_groups(s, p + 2, 0, 8 - (head + 1));
        Some(q)
    } else {
        None
    }
}

/// `s` is an IPv6 address in the forms that `Ipv6Addr`'s parser accepts.
pub open spec fn is_ipv6(s: Seq<char>) -> bool {
    read_ipv6(s) == Some(s.len() as int)
}

pub proof fn lemma_run_len(s: Seq<char>, p: int, dec: bool)
    requires
        0 <= p <= s.len(),
    ensures
        p + run_len(s, p, dec) <= s.len(),
        forall|k: int|
            p <= k < p + run_len(s, p, dec) ==> (if dec {
                is_digit(#[trigger] s[k])
            } else {
                is_hex(s[k])
            }),
        p + run_len(s, p, dec) < s.len() ==> !(if dec {
            is_digit(s[p + run_len(s, p, dec)])
        } else {
            is_hex(s[p + run_len(s, p, dec)])
        }),
    decreases s.len() - p,
{
    if p < s.len() && (if dec {
        is_digit(s[p])
    } else {
        is_hex(s[p])
    }) {
        lemma_run_len(s, p + 1, dec);
    }
}

/// Whether `c` is a decimal digit (`dec`) or a hexadecimal one.
fn in_class(c: char, dec: bool) -> (r: bool)
    ensures
        r == (if dec {
            is_digit(c)
        } else {
            is_hex(c)
        }),
{
    if dec {
        '0' <= c && c <= '9'
    } else {
        ('0' <= c && c <= '9') || ('a' <= c && c <= 'f') || ('A' <= c && c <= 'F')
    }
}

/// `run_len(s@, p, dec)`.
fn exec_run_len(s: &Vec<char>, p: usize, dec: bool) -> (r: usize)
    requires
        p <= s@.len(),
    ensures
        r == run_len(s@, p as int, dec),
        p + r <= s.len(),
{
    proof {
        lemma_run_len(s@, p as int, dec);
    }
    let mut q = p;
    while q < s.len() && in_class(s[q], dec)
        invariant
            p <= q <= s@.len(),
            run_len(s@, p as int, dec) == (q - p) + run_len(s@, q as int, dec),
        decreases s.len() - q,
    {
        q += 1;
    }
    q - p
}

/// `read_octet(s@, p)`.
fn exec_read_octet(s: &Vec<char>, p: usize) -> (r: Option<usize>)
    requires
        p <= s@.len(),
    ensures
        match r {
            Some(q) => read_octet(s@, p as int) == Some(q as int),
            None => read_octet(s@, p as int) is None,
        },
        r matches Some(q) ==> q <= s@.len(),
{
    let n = exec_run_len(s, p, true);
    if n == 0 || n > 3 {
        return None;
    }
    proof {
        lemma_run_len(s@, p as int, true);
    }
    let ghost digits = s@.subrange(p as int, p + n);
    let mut value: u32 = 0;
    let mut k: usize = 0;
    while k < n
        invariant
            0 <= k <= n <= 3,
            p + n <= s.len(),
            digits == s@.subrange(p as int, p + n),
            forall|m: int| 0 <= m < n ==> is_digit(#[trigger] digits[m]),
            value as nat == digits_value(digits.subrange(0, k as int)),
            value < 1000,
            k == 0 ==> value == 0,
            k > 0 ==> value < (if k == 1 { 10u32 } else if k == 2 { 100u32 } else { 1000u32 }),
        decreases n - k,
    {
        let c = s[p + k];
        assert(c == digits[k as int]);
        assert(digits.subrange(0, k + 1).drop_last() =~= digits.subrange(0, k as int));
        value = value * 10 + (c as u32 - '0' as u32);
        k += 1;
    }
    assert(digits.subrange(0, n as int) =~= digits);
    if value > 255 || (n > 1 && s[p] == '0') {
        return None;
    }
    Some(p + n)
}

/// `read_ipv4(s@, p)`.
fn exec_read_ipv4(s: &Vec<char>, p: usize) -> (r: Option<usize>)
    requires
        p <= s@.len(),
    ensures
        match r {
            Some(q) => read_ipv4(s@, p as int) == Some(q as int),
            None => read_ipv4(s@, p as int) is None,
        },
        r matches Some(q) ==> q <= s@.len(),
{
    let p1 = exec_read_octet(s, p)?;
    if !(p1 < s.len() && s[p1] == '.') {
        return None;
    }
    let p2 = exec_read_octet(s, p1 + 1)?;
    if !(p2 < s.len() && s[p2] == '.') {
        return None;
    }
    let p3 = exec_read_octet(s, p2 + 1)?;
    if !(p3 < s.len() && s[p3] == '.') {
        return None;
    }
    exec_read_octet(s, p3 + 1)
}

/// Whether `s` is an IPv4 address in dotted-decimal form.
pub fn check_ipv4(s: &Vec<char>) -> (r: bool)
    ensures
        r == is_ipv4(s@),
{
    match exec_read_ipv4(s, 0) {
        Some(q) => q == s.len(),
        None => false,
    }
}

/// `read_group(s@, p)`.
fn exec_read_group(s: &Vec<char>, p: usize) -> (r: Option<usize>)
    requires
        p <= s@.len(),
    ensures
        match r {
            Some(q) => read_group(s@, p as int) == Some(q as int),
            None => read_group(s@, p as int) is None,
        },
        r matches Some(q) ==> q <= s@.len(),
{
    let n = exec_run_len(s, p, false);
    if n == 0 || n > 4 {
        None
    } else {
        Some(p + n)
    }
}

/// `after_separator(s@, p, i)`.
fn exec_after_separator(s: &Vec<char>, p: usize, i: usize) -> (r: Option<usize>)
    requires
        p <= s@.len(),
    ensures
        match r {
            Some(q) => after_separator(s@, p as int, i as int) == Some(q as int),
            None => after_separator(s@, p as int, i as int) is None,
        },
        r matches Some(q) ==> q <= s@.len(),
{
    if i == 0 {
        Some(p)
    } else if p < s.len() && s[p] == ':' {
        Some(p + 1)
    } else {
        None
    }
}

/// `read_groups(s@, p, 0, limit)`.
fn exec_read_groups(s: &Vec<char>, p: usize, limit: usize) -> (r: (usize, bool, usize))
    requires
        p <= s@.len(),
        limit <= 8,
    ensures
        read_groups(s@, p as int, 0, limit as int) == (r.0 as int, r.1, r.2 as int),
        r.2 <= s@.len(),
        r.0 <= limit,
{
    let mut i: usize = 0;
    let mut pos = p;
    while i < limit
        invariant
            0 <= i <= limit <= 8,
            pos <= s@.len(),
            read_groups(s@, p as int, 0, limit as int) == read_groups(
                s@,
                pos as int,
                i as int,
                limit as int,
            ),
        decreases limit - i,
    {
        if i + 1 < limit {
            if let Some(q) = exec_after_separator(s, pos, i) {
                if let Some(q2) = exec_read_ipv4(s, q) {
                    return (i + 2, true, q2);
                }
            }
        }
        match exec_after_separator(s, pos, i) {
            None => {
                return (i, false, pos);
            },
            Some(q) => match exec_read_group(s, q) {
                None => {
                    return (i, false, pos);
                },
                Some(q2) => {
                    pos = q2;
                },
            },
        }
        i += 1;
    }
    (limit, false, pos)
}

/// Whether `s` is an IPv6 address in the forms that `Ipv6Addr`'s parser
/// accepts.
pub fn check_ipv6(s: &Vec<char>) -> (r: bool)
    ensures
        r == is_ipv6(s@),
{
    let (head, head_v4, p) = exec_read_groups(s, 0, 8);
    if head == 8 {
        return p == s.len();
    }
    if head_v4 {
        return false;
    }
    if !(p < s.len() && p + 1 < s.len() && s[p] == ':' && s[p + 1] == ':') {
        return false;
    }
    let (_tail, _tail_v4, q) = exec_read_groups(s, p + 2, 8 - (head + 1));
    q == s.len()
}

} // verus!
