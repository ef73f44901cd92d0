//! Checking an ACL value against the form that its type expects.
use vstd::prelude::*;

use crate::ipaddr::{check_ipv4, check_ipv6, is_hex, is_ipv4, is_ipv6};
use crate::model::AclType;
use crate::text::{
    chars_of, decimal, decimal_string, index_of, index_of_vec, lemma_index_of_from, lowercase,
    parse_unsigned, parse_unsigned_vec, seqs_of, split_on, split_vec, split_words, string_of,
    to_lowercase, to_uppercase, uppercase, vec_eq_str, vec_range, words,
};

verus! {

/// The text before the first `c` in `s` and the text after it.
pub open spec fn split_once(s: Seq<char>, c: char) -> Option<(Seq<char>, Seq<char>)> {
    match index_of(s, c) {
        Some(k) => Some((s.subrange(0, k), s.subrange(k + 1, s.len() as int))),
        None => None,
    }
}

/// Checking one address: one with a `':'` must be IPv6, any other IPv4.
pub open spec fn ip_addr_check(ip: Seq<char>) -> Result<(), Seq<char>> {
    if ip.contains(':') {
        if is_ipv6(ip) {
            Ok(())
        } else {
            Err("invalid IPv6 address: "@ + ip)
        }
    } else {
        if is_ipv4(ip) {
            Ok(())
        } else {
            Err("invalid IP address: "@ + ip)
        }
    }
}

/// Checking an address, an `address/mask` or an `address-address` range.
pub open spec fn ip_or_cidr_check(v: Seq<char>) -> Result<(), Seq<char>> {
    match split_once(v, '/') {
        Some((ip, mask)) => match ip_addr_check(ip) {
            Err(e) => Err(e),
            Ok(()) => match parse_unsigned(mask, 255) {
                None => Err("invalid CIDR mask: "@ + mask),
                Some(bits) => if bits > 128 {
                    Err("CIDR mask too large: "@ + decimal(bits))
                } else {
                    Ok(())
                },
            },
        },
        None => if v.contains('-') {
            let parts = split_on(v, '-');
            if parts.len() != 2 {
                Err("invalid IP range: "@ + v)
            } else {
                match ip_addr_check(parts[0]) {
                    Err(e) => Err(e),
                    Ok(()) => ip_addr_check(parts[1]),
                }
            }
        } else {
            ip_addr_check(v)
        },
    }
}

/// Checking a port number or a `start-end` range of them.
pub open spec fn port_check(v: Seq<char>) -> Result<(), Seq<char>> {
    match split_once(v, '-') {
        Some((start, end)) => match parse_unsigned(start, 65535) {
            None => Err("invalid port: "@ + start),
            Some(s) => match parse_unsigned(end, 65535) {
                None => Err("invalid port: "@ + end),
                Some(e) => if s > e {
                    Err("port range reversed: "@ + decimal(s) + "-"@ + decimal(e))
                } else {
                    Ok(())
                },
            },
        },
        None => match parse_unsigned(v, 65535) {
            None => Err("invalid port: "@ + v),
            Some(_) => Ok(()),
        },
    }
}

/// Checking an `HH:MM` time of day.
pub open spec fn hhmm_check(s: Seq<char>) -> Result<(), Seq<char>> {
    let parts = split_on(s, ':');
    if parts.len() != 2 {
        Err("invalid time: "@ + s)
    } else {
        match parse_unsigned(parts[0], 255) {
            None => Err("invalid hour: "@ + parts[0]),
            Some(h) => match parse_unsigned(parts[1], 255) {
                None => Err("invalid minute: "@ + parts[1]),
                Some(m) => if h > 23 {
                    Err("hour out of range: "@ + decimal(h))
                } else if m > 59 {
                    Err("minute out of range: "@ + decimal(m))
                } else {
                    Ok(())
                },
            },
        }
    }
}

/// A letter that names a day: `M T W H F A S`.
pub open spec fn is_day(c: char) -> bool {
    c == 'M' || c == 'T' || c == 'W' || c == 'H' || c == 'F' || c == 'A' || c == 'S'
}

/// The first character of `s` from `i` on that names no day.
pub open spec fn first_non_day(s: Seq<char>, i: int) -> Option<char>
    decreases s.len() - i,
{
    if i < 0 || i >= s.len() {
        None
    } else if !is_day(s[i]) {
        Some(s[i])
    } else {
        first_non_day(s, i + 1)
    }
}

/// Checking `DAYS HH:MM-HH:MM`.
pub open spec fn time_check(v: Seq<char>) -> Result<(), Seq<char>> {
    let parts = words(v);
    if parts.len() != 2 {
        Err("time format: DAYS HH:MM-HH:MM"@)
    } else {
        match first_non_day(parts[0], 0) {
            Some(c) => Err("invalid day char: "@ + seq![c] + " (use MTWHFAS)"@),
            None => match split_once(parts[1], '-') {
                None => Err("time range format: HH:MM-HH:MM"@),
                Some((start, end)) => match hhmm_check(start) {
                    Err(e) => Err(e),
                    Ok(()) => hhmm_check(end),
                },
            },
        }
    }
}

/// `x` is a time of day `HH:MM`: two numbers (each fitting a byte) around
/// one colon, the hour at most 23 and the minute at most 59.
pub open spec fn is_clock_time(x: Seq<char>) -> bool {
    let p = split_on(x, ':');
    &&& p.len() == 2
    &&& parse_unsigned(p[0], 255) matches Some(h) && h <= 23
    &&& parse_unsigned(p[1], 255) matches Some(m) && m <= 59
}

/// No character of `s` from `i` on fails to name a day exactly when all do.
proof fn lemma_first_non_day(s: Seq<char>, i: int)
    requires
        0 <= i <= s.len(),
    ensures
        first_non_day(s, i) is None <==> forall|k: int| i <= k < s.len() ==> is_day(#[trigger] s[k]),
    decreases s.len() - i,
{
    if i < s.len() {
        lemma_first_non_day(s, i + 1);
    }
}

/// `v` has the form of a `time` value: two words, the first all day
/// letters of `MTWHFAS`, the second holding a `-`.
pub open spec fn time_shape(v: Seq<char>) -> bool {
    let p = words(v);
    &&& p.len() == 2
    &&& forall|k: int| 0 <= k < p[0].len() ==> is_day(#[trigger] p[0][k])
    &&& split_once(p[1], '-') is Some
}

/// The start and the end of the range of a `time` value.
pub open spec fn time_range(v: Seq<char>) -> (Seq<char>, Seq<char>) {
    split_once(words(v)[1], '-').unwrap()
}

/// A `time` value is accepted exactly when it has the form `DAYS S-E` with
/// both `S` and `E` valid times of day. An end whose hour is out of range,
/// after a valid start, is refused with that hour.
pub proof fn law_time_value(v: Seq<char>)
    ensures
        value_check(AclType::Time, v) is Ok <==> time_shape(v) && is_clock_time(time_range(v).0)
            && is_clock_time(time_range(v).1),
        forall|h: nat|
            #![trigger decimal(h)]
            time_shape(v) && is_clock_time(time_range(v).0) && split_on(time_range(v).1, ':').len()
                == 2 && parse_unsigned(split_on(time_range(v).1, ':')[0], 255) == Some(h) && h > 23
                && parse_unsigned(split_on(time_range(v).1, ':')[1], 255) is Some
                ==> value_check(AclType::Time, v) == Err::<
                (),
                Seq<char>,
            >("hour out of range: "@ + decimal(h)),
{
    let p = words(v);
    if p.len() == 2 {
        lemma_first_non_day(p[0], 0);
    }
}

/// A MAC address octet: exactly two hexadecimal digits.
pub open spec fn is_mac_octet(p: Seq<char>) -> bool {
    p.len() == 2 && is_hex(p[0]) && is_hex(p[1])
}

/// The first piece from `i` on that is no MAC octet.
pub open spec fn first_bad_octet(parts: Seq<Seq<char>>, i: int) -> Option<Seq<char>>
    decreases parts.len() - i,
{
    if i < 0 || i >= parts.len() {
        None
    } else if !is_mac_octet(parts[i]) {
        Some(parts[i])
    } else {
        first_bad_octet(parts, i + 1)
    }
}

/// Checking `XX:XX:XX:XX:XX:XX`.
pub open spec fn mac_check(v: Seq<char>) -> Result<(), Seq<char>> {
    let parts = split_on(v, ':');
    if parts.len() != 6 {
        Err("MAC address must have 6 octets (XX:XX:XX:XX:XX:XX)"@)
    } else {
        match first_bad_octet(parts, 0) {
            Some(p) => Err("invalid MAC octet: "@ + p),
            None => Ok(()),
        }
    }
}

/// Checking a protocol name, in any letter case.
pub open spec fn proto_check(v: Seq<char>) -> Result<(), Seq<char>> {
    let l = lowercase(v);
    if l == "http"@ || l == "https"@ || l == "ftp"@ {
        Ok(())
    } else {
        Err("unknown protocol: "@ + v + " (use http/https/ftp)"@)
    }
}

/// The HTTP methods that a `method` ACL may name.
pub open spec fn http_methods() -> Seq<Seq<char>> {
    seq![
        "GET"@,
        "POST"@,
        "PUT"@,
        "DELETE"@,
        "PATCH"@,
        "HEAD"@,
        "OPTIONS"@,
        "CONNECT"@,
        "TRACE"@,
    ]
}

/// Checking an HTTP method name, in any letter case.
pub open spec fn method_check(v: Seq<char>) -> Result<(), Seq<char>> {
    if http_methods().contains(uppercase(v)) {
        Ok(())
    } else {
        Err("unknown HTTP method: "@ + v)
    }
}

/// Checking a number that fits in 32 bits.
pub open spec fn number_check(v: Seq<char>) -> Result<(), Seq<char>> {
    match parse_unsigned(v, 0xffff_ffff) {
        None => Err("must be a number: "@ + v),
        Some(_) => Ok(()),
    }
}

/// What checking value `v` of an ACL of type `t` gives: the types with a
/// fixed form are checked, the others accept anything.
pub open spec fn value_check(t: AclType, v: Seq<char>) -> Result<(), Seq<char>> {
    match t {
        AclType::Src | AclType::Dst | AclType::MyIp => ip_or_cidr_check(v),
        AclType::Port | AclType::MyPort => port_check(v),
        AclType::Time => time_check(v),
        AclType::Arp => mac_check(v),
        AclType::Proto => proto_check(v),
        AclType::Method => method_check(v),
        AclType::MaxConn => number_check(v),
        _ => Ok(()),
    }
}

/// The value of a check's outcome.
pub open spec fn outcome(r: Result<(), String>) -> Result<(), Seq<char>> {
    match r {
        Ok(()) => Ok(()),
        Err(m) => Err(m@),
    }
}

/// `split_once(v@, c)`.
fn split_once_vec(v: &Vec<char>, c: char) -> (r: Option<(Vec<char>, Vec<char>)>)
    ensures
        match r {
            Some((a, b)) => split_once(v@, c) == Some((a@, b@)),
            None => split_once(v@, c) is None,
        },
{
    proof {
        lemma_index_of_from(v@, c, 0);
    }
    match index_of_vec(v, c) {
        Some(k) => Some((vec_range(v, 0, k), vec_range(v, k + 1, v.len()))),
        None => None,
    }
}

/// A message: `prefix` followed by the characters `v`.
fn message(prefix: &str, v: &Vec<char>) -> (r: String)
    ensures
        r@ == prefix@ + v@,
{
    let s = string_of(v);
    String::from_str(prefix).concat(s.as_str())
}

/// Checks one address.
fn validate_ip_addr(ip: &Vec<char>) -> (r: Result<(), String>)
    ensures
        outcome(r) == ip_addr_check(ip@),
{
    proof {
        lemma_index_of_from(ip@, ':', 0);
    }
    if index_of_vec(ip, ':').is_some() {
        if check_ipv6(ip) {
            Ok(())
        } else {
            Err(message("invalid IPv6 address: ", ip))
        }
    } else {
        if check_ipv4(ip) {
            Ok(())
        } else {
            Err(message("invalid IP address: ", ip))
        }
    }
}

/// Checks an address, an `address/mask` or an `address-address` range.
fn validate_ip_or_cidr(value: &Vec<char>) -> (r: Result<(), String>)
    ensures
        outcome(r) == ip_or_cidr_check(value@),
{
    if let Some((ip, mask)) = split_once_vec(value, '/') {
        validate_ip_addr(&ip)?;
        match parse_unsigned_vec(&mask, 255) {
            None => Err(message("invalid CIDR mask: ", &mask)),
            Some(bits) => {
                if bits > 128 {
                    Err(String::from_str("CIDR mask too large: ").concat(
                        decimal_string(bits).as_str(),
                    ))
                } else {
                    Ok(())
                }
            },
        }
    } else {
        proof {
            lemma_index_of_from(value@, '-', 0);
        }
        if index_of_vec(value, '-').is_some() {
            let parts = split_vec(value, '-');
            if parts.len() != 2 {
                return Err(message("invalid IP range: ", value));
            }
            validate_ip_addr(&parts[0])?;
            validate_ip_addr(&parts[1])
        } else {
            validate_ip_addr(value)
        }
    }
}

/// Checks a port or a port range.
fn validate_port(value: &Vec<char>) -> (r: Result<(), String>)
    ensures
        outcome(r) == port_check(value@),
{
    if let Some((start, end)) = split_once_vec(value, '-') {
        let s = match parse_unsigned_vec(&start, 65535) {
            Some(s) => s,
            None => {
                return Err(message("invalid port: ", &start));
            },
        };
        let e = match parse_unsigned_vec(&end, 65535) {
            Some(e) => e,
            None => {
                return Err(message("invalid port: ", &end));
            },
        };
        if s > e {
            return Err(String::from_str("port range reversed: ").concat(
                decimal_string(s).as_str(),
            ).concat("-").concat(decimal_string(e).as_str()));
        }
        Ok(())
    } else {
        match parse_unsigned_vec(value, 65535) {
            Some(_) => Ok(()),
            None => Err(message("invalid port: ", value)),
        }
    }
}

/// Checks an `HH:MM` time of day.
fn validate_hhmm(s: &Vec<char>) -> (r: Result<(), String>)
    ensures
        outcome(r) == hhmm_check(s@),
{
    let parts = split_vec(s, ':');
    if parts.len() != 2 {
        return Err(message("invalid time: ", s));
    }
    let h = match parse_unsigned_vec(&parts[0], 255) {
        Some(h) => h,
        None => {
            return Err(message("invalid hour: ", &parts[0]));
        },
    };
    let m = match parse_unsigned_vec(&parts[1], 255) {
        Some(m) => m,
        None => {
            return Err(message("invalid minute: ", &parts[1]));
        },
    };
    if h > 23 {
        return Err(String::from_str("hour out of range: ").concat(decimal_string(h).as_str()));
    }
    if m > 59 {
        return Err(String::from_str("minute out of range: ").concat(decimal_string(m).as_str()));
    }
    Ok(())
}

/// Checks `DAYS HH:MM-HH:MM`.
fn validate_time(value: &Vec<char>) -> (r: Result<(), String>)
    ensures
        outcome(r) == time_check(value@),
{
    let parts = split_words(value);
    if parts.len() != 2 {
        return Err(String::from_str("time format: DAYS HH:MM-HH:MM"));
    }
    let days = &parts[0];
    assert(seqs_of(parts@)[0] == days@);
    let mut i: usize = 0;
    while i < days.len()
        invariant
            0 <= i <= days@.len(),
            days@ == seqs_of(parts@)[0],
            seqs_of(parts@) == words(value@),
            parts@.len() == 2,
            first_non_day(days@, 0) == first_non_day(days@, i as int),
        decreases days.len() - i,
    {
        let c = days[i];
        if !(c == 'M' || c == 'T' || c == 'W' || c == 'H' || c == 'F' || c == 'A' || c == 'S') {
            let mut m = String::from_str("invalid day char: ");
            crate::text::push_char(&mut m, c);
            let m = m.concat(" (use MTWHFAS)");
            assert(m@ =~= "invalid day char: "@ + seq![c] + " (use MTWHFAS)"@);
            return Err(m);
        }
        i += 1;
    }
    if let Some((start, end)) = split_once_vec(&parts[1], '-') {
        validate_hhmm(&start)?;
        validate_hhmm(&end)?;
        Ok(())
    } else {
        Err(String::from_str("time range format: HH:MM-HH:MM"))
    }
}

/// Checks `XX:XX:XX:XX:XX:XX`.
fn validate_mac(value: &Vec<char>) -> (r: Result<(), String>)
    ensures
        outcome(r) == mac_check(value@),
{
    let parts = split_vec(value, ':');
    if parts.len() != 6 {
        return Err(String::from_str("MAC address must have 6 octets (XX:XX:XX:XX:XX:XX)"));
    }
    let ghost ps = seqs_of(parts@);
    let mut i: usize = 0;
    while i < parts.len()
        invariant
            0 <= i <= parts@.len(),
            ps == seqs_of(parts@),
            ps == split_on(value@, ':'),
            parts@.len() == 6,
            first_bad_octet(ps, 0) == first_bad_octet(ps, i as int),
        decreases parts.len() - i,
    {
        let part = &parts[i];
        assert(ps[i as int] == part@);
        let ok = part.len() == 2 && is_hex_char(part[0]) && is_hex_char(part[1]);
        if !ok {
            return Err(message("invalid MAC octet: ", part));
        }
        i += 1;
    }
    Ok(())
}

/// Whether `c` is a hexadecimal digit.
fn is_hex_char(c: char) -> (r: bool)
    ensures
        r == is_hex(c),
{
    ('0' <= c && c <= '9') || ('a' <= c && c <= 'f') || ('A' <= c && c <= 'F')
}

/// Checks a protocol name.
fn validate_proto(value: &str) -> (r: Result<(), String>)
    ensures
        outcome(r) == proto_check(value@),
{
    let lower = chars_of(to_lowercase(value).as_str());
    if vec_eq_str(&lower, "http") || vec_eq_str(&lower, "https") || vec_eq_str(&lower, "ftp") {
        Ok(())
    } else {
        Err(String::from_str("unknown protocol: ").concat(value).concat(" (use http/https/ftp)"))
    }
}

/// Checks an HTTP method name.
fn validate_method(value: &str) -> (r: Result<(), String>)
    ensures
        outcome(r) == method_check(value@),
{
    let upper = chars_of(to_uppercase(value).as_str());
    let valid = vec!["GET", "POST", "PUT", "DELETE", "PATCH", "HEAD", "OPTIONS", "CONNECT", "TRACE"];
    assert(valid@.map_values(|s: &str| s@) =~= http_methods());
    let mut i: usize = 0;
    while i < valid.len()
        invariant
            0 <= i <= valid@.len(),
            valid@.map_values(|s: &str| s@) == http_methods(),
            upper@ == uppercase(value@),
            forall|k: int| 0 <= k < i ==> http_methods()[k] != upper@,
        decreases valid.len() - i,
    {
        if vec_eq_str(&upper, valid[i]) {
            assert(http_methods()[i as int] == upper@);
            return Ok(());
        }
        i += 1;
    }
    Err(String::from_str("unknown HTTP method: ").concat(value))
}

/// Checks a number that fits in 32 bits.
fn validate_number(value: &Vec<char>) -> (r: Result<(), String>)
    ensures
        outcome(r) == number_check(value@),
{
    match parse_unsigned_vec(value, 0xffff_ffff) {
        Some(_) => Ok(()),
        None => Err(message("must be a number: ", value)),
    }
}

/// Checks `value` against the form that ACLs of type `acl_type` expect; the
/// error says what is wrong.
pub fn validate_acl_value(acl_type: &AclType, value: &str) -> (r: Result<(), String>)
    ensures
        outcome(r) == value_check(*acl_type, value@),
{
    let v = chars_of(value);
    match acl_type {
        AclType::Src | AclType::Dst | AclType::MyIp => validate_ip_or_cidr(&v),
        AclType::Port | AclType::MyPort => validate_port(&v),
        AclType::Time => validate_time(&v),
        AclType::Arp => validate_mac(&v),
        AclType::Proto => validate_proto(value),
        AclType::Method => validate_method(value),
        AclType::MaxConn => validate_number(&v),
        _ => Ok(()),
    }
}

} // verus!
