//! IPv4 addresses as dotted text and as 32-bit ordinals, port numbers as
//! text, and the size limits on the ranges a scan may cover.
use vstd::prelude::*;
use vstd::arithmetic::div_mod::{lemma_fundamental_div_mod, lemma_fundamental_div_mod_converse};
use crate::text::{
    all_digits, chars_of, decimal, digits_value, is_digit, is_plain_decimal, lemma_decimal,
    lemma_plain_decimal_unique, push_char, push_decimal,
};

verus! {

/// The largest number of steps from the first to the last address, or port,
/// of one scan.
pub const MAX_SPAN: u32 = 1000;

/// The four octets of an address, most significant first.
pub open spec fn ip_octets(ip: u32) -> Seq<nat> {
    let x = ip as nat;
    seq![
        (x / 256 / 256 / 256) as nat,
        (x / 256 / 256 % 256) as nat,
        (x / 256 % 256) as nat,
        (x % 256) as nat,
    ]
}

/// The dotted decimal text of an address, as in `192.168.0.1`.
pub open spec fn ip_text(ip: u32) -> Seq<char> {
    let o = ip_octets(ip);
    decimal(o[0]) + seq!['.'] + decimal(o[1]) + seq!['.'] + decimal(o[2]) + seq!['.']
        + decimal(o[3])
}

/// The address that a dotted text denotes, if it is the text of one.
/// No two addresses share a text (see `lemma_ip_text_injective`).
pub open spec fn ip_ordinal(s: Seq<char>) -> Option<u32> {
    if exists|ip: u32| ip_text(ip) == s {
        Some(choose|ip: u32| ip_text(ip) == s)
    } else {
        None
    }
}

/// The value of four octets, most significant first.
pub open spec fn octets_value(a: nat, b: nat, c: nat, d: nat) -> nat {
    ((a * 256 + b) * 256 + c) * 256 + d
}

/// Where the field that starts at `i` ends: the next `.`, or the end of `s`.
pub open spec fn field_end(s: Seq<char>, i: int) -> int
    decreases s.len() - i,
{
    if 0 <= i < s.len() && s[i] != '.' {
        field_end(s, i + 1)
    } else {
        i
    }
}

/// An octet written in shortest decimal form, from `0` to `255`.
pub open spec fn is_octet_text(f: Seq<char>) -> bool {
    &&& is_plain_decimal(f)
    &&& f.len() <= 3
    &&& digits_value(f) <= 255
}

/// Reads `k` more dot-separated octets from position `i`, on top of the
/// value `acc` of those already read; the last one must end the text.
pub open spec fn parse_octets(s: Seq<char>, i: int, k: nat, acc: nat) -> Option<nat>
    decreases k,
{
    let j = field_end(s, i);
    let f = s.subrange(i, j);
    if k == 0 || !is_octet_text(f) {
        None
    } else if k == 1 {
        if j == s.len() {
            Some(acc * 256 + digits_value(f))
        } else {
            None
        }
    } else if j < s.len() {
        parse_octets(s, j + 1, (k - 1) as nat, acc * 256 + digits_value(f))
    } else {
        None
    }
}

/// A field ends at the first `.` at or after its start.
proof fn lemma_field_end(s: Seq<char>, i: int, j: int)
    requires
        0 <= i <= j <= s.len(),
        forall|m: int| i <= m < j ==> s[m] != '.',
        j == s.len() || s[j] == '.',
    ensures
        field_end(s, i) == j,
    decreases j - i,
{
    if i < j {
        lemma_field_end(s, i + 1, j);
    }
}

/// The octets of an address are below 256 and give the address back.
proof fn lemma_octets_recompose(ip: u32)
    ensures
        ip_octets(ip)[0] < 256,
        ip_octets(ip)[1] < 256,
        ip_octets(ip)[2] < 256,
        ip_octets(ip)[3] < 256,
        octets_value(ip_octets(ip)[0], ip_octets(ip)[1], ip_octets(ip)[2], ip_octets(ip)[3])
            == ip as nat,
{
    let x = ip as int;
    lemma_fundamental_div_mod(x, 256);
    lemma_fundamental_div_mod(x / 256, 256);
    lemma_fundamental_div_mod(x / 256 / 256, 256);
    assert(0 <= x % 256 < 256);
    assert(0 <= x / 256 % 256 < 256);
    assert(0 <= x / 256 / 256 % 256 < 256);
    assert(x / 256 >= 0);
    assert(x / 256 / 256 >= 0);
    assert(x / 256 / 256 / 256 >= 0);
}

/// Four octets below 256 make an address whose octets are those four.
proof fn lemma_octets_of_value(a: nat, b: nat, c: nat, d: nat)
    requires
        a < 256,
        b < 256,
        c < 256,
        d < 256,
    ensures
        octets_value(a, b, c, d) < 0x1_0000_0000,
        ip_octets(octets_value(a, b, c, d) as u32) == seq![a, b, c, d],
{
    let x = octets_value(a, b, c, d) as int;
    let q1 = (a * 256 + b) * 256 + c;
    let q2 = a * 256 + b;
    assert(x == q1 * 256 + d);
    lemma_fundamental_div_mod_converse(x, 256, q1 as int, d as int);
    lemma_fundamental_div_mod_converse(q1 as int, 256, q2 as int, c as int);
    lemma_fundamental_div_mod_converse(q2 as int, 256, a as int, b as int);
    assert(ip_octets(x as u32) =~= seq![a, b, c, d]);
}

/// The text of each octet, and where it stands in the text of the address.
proof fn lemma_ip_text_layout(ip: u32)
    ensures
        ({
            let o = ip_octets(ip);
            let s = ip_text(ip);
            let e0 = decimal(o[0]).len() as int;
            let e1 = e0 + 1 + decimal(o[1]).len();
            let e2 = e1 + 1 + decimal(o[2]).len();
            &&& field_end(s, 0) == e0
            &&& e0 < s.len() && s[e0] == '.'
            &&& field_end(s, e0 + 1) == e1
            &&& e1 < s.len() && s[e1] == '.'
            &&& field_end(s, e1 + 1) == e2
            &&& e2 < s.len() && s[e2] == '.'
            &&& field_end(s, e2 + 1) == s.len()
            &&& s.subrange(0, e0) == decimal(o[0])
            &&& s.subrange(e0 + 1, e1) == decimal(o[1])
            &&& s.subrange(e1 + 1, e2) == decimal(o[2])
            &&& s.subrange(e2 + 1, s.len() as int) == decimal(o[3])
        }),
{
    let o = ip_octets(ip);
    let s = ip_text(ip);
    let d0 = decimal(o[0]);
    let d1 = decimal(o[1]);
    let d2 = decimal(o[2]);
    let d3 = decimal(o[3]);
    lemma_decimal(o[0]);
    lemma_decimal(o[1]);
    lemma_decimal(o[2]);
    lemma_decimal(o[3]);
    let e0 = d0.len() as int;
    let e1 = e0 + 1 + d1.len();
    let e2 = e1 + 1 + d2.len();
    assert(s.subrange(0, e0) =~= d0);
    assert(s.subrange(e0 + 1, e1) =~= d1);
    assert(s.subrange(e1 + 1, e2) =~= d2);
    assert(s.subrange(e2 + 1, s.len() as int) =~= d3);
    assert forall|m: int| 0 <= m < e0 implies s[m] != '.' by {
        assert(s[m] == d0[m]);
        assert(is_digit(d0[m]));
    }
    assert forall|m: int| e0 + 1 <= m < e1 implies s[m] != '.' by {
        assert(s[m] == d1[m - e0 - 1]);
        assert(is_digit(d1[m - e0 - 1]));
    }
    assert forall|m: int| e1 + 1 <= m < e2 implies s[m] != '.' by {
        assert(s[m] == d2[m - e1 - 1]);
        assert(is_digit(d2[m - e1 - 1]));
    }
    assert forall|m: int| e2 + 1 <= m < s.len() implies s[m] != '.' by {
        assert(s[m] == d3[m - e2 - 1]);
        assert(is_digit(d3[m - e2 - 1]));
    }
    lemma_field_end(s, 0, e0);
    lemma_field_end(s, e0 + 1, e1);
    lemma_field_end(s, e1 + 1, e2);
    lemma_field_end(s, e2 + 1, s.len() as int);
}

/// The decimal text of an octet is an octet text that reads back as it.
proof fn lemma_octet_text(n: nat)
    requires
        n < 256,
    ensures
        is_octet_text(decimal(n)),
        digits_value(decimal(n)) == n,
{
    lemma_decimal(n);
}

/// The reader of dotted text reads the text of every address back.
proof fn lemma_parse_ip_text(ip: u32)
    ensures
        parse_octets(ip_text(ip), 0, 4, 0) == Some(ip as nat),
{
    let o = ip_octets(ip);
    let s = ip_text(ip);
    lemma_ip_text_layout(ip);
    lemma_octets_recompose(ip);
    lemma_octet_text(o[0]);
    lemma_octet_text(o[1]);
    lemma_octet_text(o[2]);
    lemma_octet_text(o[3]);
    let e0 = decimal(o[0]).len() as int;
    let e1 = e0 + 1 + decimal(o[1]).len();
    let e2 = e1 + 1 + decimal(o[2]).len();
    assert(parse_octets(s, e2 + 1, 1, (o[0] * 256 + o[1]) * 256 + o[2]) == Some(
        octets_value(o[0], o[1], o[2], o[3]),
    ));
    assert(parse_octets(s, e1 + 1, 2, o[0] * 256 + o[1]) == Some(
        octets_value(o[0], o[1], o[2], o[3]),
    ));
    assert(parse_octets(s, e0 + 1, 3, o[0]) == Some(octets_value(o[0], o[1], o[2], o[3])));
    assert(parse_octets(s, 0, 4, 0) == Some(octets_value(o[0], o[1], o[2], o[3])));
}

/// Whatever the reader of dotted text accepts is the text of the address it
/// returns.
proof fn lemma_parse_sound(s: Seq<char>)
    requires
        parse_octets(s, 0, 4, 0) is Some,
    ensures
        parse_octets(s, 0, 4, 0)->0 < 0x1_0000_0000,
        ip_text(parse_octets(s, 0, 4, 0)->0 as u32) == s,
{
    let e0 = field_end(s, 0);
    let f0 = s.subrange(0, e0);
    let a = digits_value(f0);
    let e1 = field_end(s, e0 + 1);
    let f1 = s.subrange(e0 + 1, e1);
    let b = digits_value(f1);
    let e2 = field_end(s, e1 + 1);
    let f2 = s.subrange(e1 + 1, e2);
    let c = digits_value(f2);
    let e3 = field_end(s, e2 + 1);
    let f3 = s.subrange(e2 + 1, e3);
    let d = digits_value(f3);
    lemma_field_end_bounds(s, 0);
    assert(e0 < s.len() && is_octet_text(f0));
    assert(parse_octets(s, e0 + 1, 3, a) is Some);
    lemma_field_end_bounds(s, e0 + 1);
    assert(e1 < s.len() && is_octet_text(f1));
    assert(parse_octets(s, e1 + 1, 2, a * 256 + b) is Some);
    lemma_field_end_bounds(s, e1 + 1);
    assert(e2 < s.len() && is_octet_text(f2));
    assert(parse_octets(s, e2 + 1, 1, (a * 256 + b) * 256 + c) is Some);
    lemma_field_end_bounds(s, e2 + 1);
    assert(is_octet_text(f3));
    assert(e3 == s.len());
    lemma_plain_decimal_unique(f0);
    lemma_plain_decimal_unique(f1);
    lemma_plain_decimal_unique(f2);
    lemma_plain_decimal_unique(f3);
    lemma_octets_of_value(a, b, c, d);
    let ip = octets_value(a, b, c, d) as u32;
    assert(parse_octets(s, 0, 4, 0)->0 == octets_value(a, b, c, d));
    assert(ip_octets(ip) == seq![a, b, c, d]);
    assert(s =~= f0 + seq!['.'] + f1 + seq!['.'] + f2 + seq!['.'] + f3);
}

/// A field ends within the text, at a dot or at the end.
proof fn lemma_field_end_bounds(s: Seq<char>, i: int)
    requires
        0 <= i <= s.len(),
    ensures
        i <= field_end(s, i) <= s.len(),
        field_end(s, i) < s.len() ==> s[field_end(s, i)] == '.',
    decreases s.len() - i,
{
    if i < s.len() && s[i] != '.' {
        lemma_field_end_bounds(s, i + 1);
    }
}

/// No two addresses have the same dotted text.
pub proof fn lemma_ip_text_injective(a: u32, b: u32)
    ensures
        ip_text(a) == ip_text(b) ==> a == b,
{
    lemma_parse_ip_text(a);
    lemma_parse_ip_text(b);
}

/// Reading the text of an address gives the address back.
pub proof fn lemma_ip_ordinal_of_text(ip: u32)
    ensures
        ip_ordinal(ip_text(ip)) == Some(ip),
{
    let s = ip_text(ip);
    assert(exists|x: u32| ip_text(x) == s);
    let c = choose|x: u32| ip_text(x) == s;
    lemma_ip_text_injective(c, ip);
}

/// Where the field that starts at `i` ends.
fn scan_field(v: &Vec<char>, i: usize) -> (j: usize)
    requires
        i <= v@.len(),
    ensures
        j == field_end(v@, i as int),
        i <= j <= v@.len(),
{
    let mut j = i;
    while j < v.len() && v[j] != '.'
        invariant
            i <= j <= v@.len(),
            field_end(v@, i as int) == field_end(v@, j as int),
        decreases v@.len() - j,
    {
        j = j + 1;
    }
    j
}

/// The value of the octet text `v[i..j]`, if it is one.
fn read_octet(v: &Vec<char>, i: usize, j: usize) -> (r: Option<u32>)
    requires
        i <= j <= v@.len(),
    ensures
        match r {
            Some(x) => is_octet_text(v@.subrange(i as int, j as int)) && x as nat
                == digits_value(v@.subrange(i as int, j as int)),
            None => !is_octet_text(v@.subrange(i as int, j as int)),
        },
{
    let ghost f = v@.subrange(i as int, j as int);
    if j == i || j - i > 3 {
        return None;
    }
    if j - i >= 2 && v[i] == '0' {
        return None;
    }
    let mut val: u32 = 0;
    let mut m = i;
    while m < j
        invariant
            i <= m <= j <= v@.len(),
            j - i <= 3,
            f == v@.subrange(i as int, j as int),
            all_digits(v@.subrange(i as int, m as int)),
            val as nat == digits_value(v@.subrange(i as int, m as int)),
            val < 1000,
            m - i <= 3,
            (m - i == 0 ==> val == 0),
            (m - i == 1 ==> val < 10),
            (m - i == 2 ==> val < 100),
        decreases j - m,
    {
        let c = v[m];
        if c < '0' || c > '9' {
            assert(f[m - i] == c);
            return None;
        }
        let ghost p = v@.subrange(i as int, m as int);
        let ghost q = v@.subrange(i as int, m + 1);
        assert(q.drop_last() =~= p);
        assert(q.last() == c);
        val = val * 10 + (c as u32 - '0' as u32);
        m = m + 1;
        assert forall|k: int| 0 <= k < q.len() implies is_digit(#[trigger] q[k]) by {
            if k < p.len() {
                assert(q[k] == p[k]);
            }
        }
    }
    assert(v@.subrange(i as int, m as int) =~= f);
    if val > 255 {
        return None;
    }
    Some(val)
}

/// The address that the dotted text `s` denotes: `None` unless `s` is the
/// text of an address, four octets from `0` to `255` in shortest decimal form,
/// joined by dots, with nothing before or after.
pub fn ip_to_u32(s: &str) -> (r: Option<u32>)
    ensures
        r == ip_ordinal(s@),
        match r {
            Some(ip) => ip_text(ip) == s@,
            None => forall|ip: u32| ip_text(ip) != s@,
        },
{
    let v = chars_of(s);
    let r = read_ip(&v);
    match r {
        Some(ip) => {
            proof {
                lemma_parse_sound(v@);
                lemma_ip_ordinal_of_text(ip);
            }
        },
        None => {
            assert forall|ip: u32| ip_text(ip) != s@ by {
                lemma_parse_ip_text(ip);
            }
        },
    }
    r
}

/// Reads a dotted address from characters.
fn read_ip(v: &Vec<char>) -> (r: Option<u32>)
    ensures
        match parse_octets(v@, 0, 4, 0) {
            Some(x) => r == Some(x as u32) && x < 0x1_0000_0000,
            None => r is None,
        },
{
    let ghost s = v@;
    let mut i: usize = 0;
    let mut acc: u32 = 0;
    let mut k: usize = 4;
    while k > 0
        invariant
            s == v@,
            1 <= k <= 4,
            i <= s.len(),
            parse_octets(s, 0, 4, 0) == parse_octets(s, i as int, k as nat, acc as nat),
            k == 4 ==> acc == 0,
            k == 3 ==> acc < 256,
            k == 2 ==> acc < 65536,
            k == 1 ==> acc < 16777216,
        decreases k,
    {
        let j = scan_field(v, i);
        proof {
            lemma_field_end_bounds(s, i as int);
        }
        let o = match read_octet(v, i, j) {
            Some(o) => o,
            None => {
                return None;
            },
        };
        let next = acc * 256 + o;
        if k == 1 {
            if j == v.len() {
                return Some(next);
            }
            return None;
        }
        if j == v.len() {
            return None;
        }
        i = j + 1;
        acc = next;
        k = k - 1;
    }
    None
}

/// The dotted decimal text of an address.
pub fn u32_to_ip(ip: u32) -> (r: String)
    ensures
        r@ == ip_text(ip),
{
    let mut r = String::new();
    push_decimal(&mut r, (ip / 16777216) as u64);
    push_char(&mut r, '.');
    push_decimal(&mut r, (ip / 65536 % 256) as u64);
    push_char(&mut r, '.');
    push_decimal(&mut r, (ip / 256 % 256) as u64);
    push_char(&mut r, '.');
    push_decimal(&mut r, (ip % 256) as u64);
    proof {
        let x = ip as int;
        assert(x / 256 / 256 / 256 == x / 16777216) by {
            vstd::arithmetic::div_mod::lemma_div_denominator(x, 256, 256);
            vstd::arithmetic::div_mod::lemma_div_denominator(x, 65536, 256);
        }
        assert(x / 256 / 256 == x / 65536) by {
            vstd::arithmetic::div_mod::lemma_div_denominator(x, 256, 256);
        }
        assert(r@ =~= ip_text(ip));
    }
    r
}

/// Whether `s` is the dotted text of an address.
pub fn is_valid_ip(s: &str) -> (r: bool)
    ensures
        r == ip_ordinal(s@) is Some,
{
    ip_to_u32(s).is_some()
}

/// The digits of an unsigned number as std's `FromStr` for unsigned integers
/// reads it: one leading `+` is allowed.
pub open spec fn unsigned_digits(s: Seq<char>) -> Seq<char> {
    if s.len() > 0 && s[0] == '+' {
        s.drop_first()
    } else {
        s
    }
}

/// The unsigned number that `s` spells, if it spells one no larger than
/// `max`: at least one digit, nothing but digits after an optional `+`.
/// Leading zeros are allowed.
pub open spec fn unsigned_value(s: Seq<char>, max: nat) -> Option<nat> {
    let d = unsigned_digits(s);
    if d.len() >= 1 && all_digits(d) && digits_value(d) <= max {
        Some(digits_value(d))
    } else {
        None
    }
}

/// The port number that `s` spells, if any.
pub open spec fn port_value(s: Seq<char>) -> Option<nat> {
    unsigned_value(s, 65535)
}

/// Whether `hi` is at most `max` steps above `lo`.
pub open spec fn span_ok(lo: int, hi: int, max: int) -> bool {
    lo <= hi && hi - lo <= max
}

/// Whether two port texts make a range a scan may cover.
pub open spec fn port_range_ok(start: Seq<char>, end: Seq<char>) -> bool {
    match (port_value(start), port_value(end)) {
        (Some(a), Some(b)) => span_ok(a as int, b as int, MAX_SPAN as int),
        _ => false,
    }
}

/// Whether two address texts make a range a scan may cover.
pub open spec fn ip_range_ok(start: Seq<char>, end: Seq<char>) -> bool {
    match (ip_ordinal(start), ip_ordinal(end)) {
        (Some(a), Some(b)) => span_ok(a as int, b as int, MAX_SPAN as int),
        _ => false,
    }
}

/// A prefix of a string of digits spells no more than the whole.
proof fn lemma_digits_value_prefix(s: Seq<char>, n: int)
    requires
        0 <= n <= s.len(),
    ensures
        digits_value(s.subrange(0, n)) <= digits_value(s),
    decreases s.len(),
{
    if n < s.len() {
        let p = s.drop_last();
        assert(p.subrange(0, n) =~= s.subrange(0, n));
        lemma_digits_value_prefix(p, n);
    } else {
        assert(s.subrange(0, n) =~= s);
    }
}

/// The unsigned number that `s` spells, if it spells one no larger than
/// `max`.
pub fn parse_unsigned(s: &str, max: u64) -> (r: Option<u64>)
    ensures
        match unsigned_value(s@, max as nat) {
            Some(x) => r == Some(x as u64),
            None => r is None,
        },
{
    let v = chars_of(s);
    let ghost d = unsigned_digits(s@);
    let mut start: usize = 0;
    if v.len() > 0 && v[0] == '+' {
        start = 1;
    }
    assert(d =~= v@.subrange(start as int, v@.len() as int));
    if start == v.len() {
        return None;
    }
    let mut val: u128 = 0;
    let mut m = start;
    while m < v.len()
        invariant
            start <= m <= v@.len(),
            v@ == s@,
            d == unsigned_digits(s@),
            d == v@.subrange(start as int, v@.len() as int),
            all_digits(v@.subrange(start as int, m as int)),
            val as nat == digits_value(v@.subrange(start as int, m as int)),
            val <= max as nat,
        decreases v@.len() - m,
    {
        let c = v[m];
        if c < '0' || c > '9' {
            assert(d[m - start] == c);
            assert(!is_digit(d[m - start]));
            return None;
        }
        let ghost p = v@.subrange(start as int, m as int);
        let ghost q = v@.subrange(start as int, m + 1);
        assert(q.drop_last() =~= p);
        assert(q.last() == c);
        assert forall|k: int| 0 <= k < q.len() implies is_digit(#[trigger] q[k]) by {
            if k < p.len() {
                assert(q[k] == p[k]);
            }
        }
        val = val * 10 + (c as u32 - '0' as u32) as u128;
        m = m + 1;
        if val > max as u128 {
            proof {
                assert(d.subrange(0, m - start) =~= q);
                assert(all_digits(d) ==> digits_value(d) > max) by {
                    if all_digits(d) {
                        lemma_digits_value_prefix(d, m - start);
                    }
                }
            }
            return None;
        }
    }
    assert(v@.subrange(start as int, m as int) =~= d);
    Some(val as u64)
}

/// Whether `port` spells a port number, `0` to `65535`.
pub fn is_valid_port(port: &str) -> (r: bool)
    ensures
        r == port_value(port@) is Some,
{
    parse_unsigned(port, 65535).is_some()
}

/// Whether two port texts make a range a scan may cover: both are ports, the
/// first is not above the second, and they are at most `MAX_SPAN` apart.
pub fn is_valid_port_range(start_port: &str, end_port: &str) -> (r: bool)
    ensures
        r == port_range_ok(start_port@, end_port@),
{
    match (parse_unsigned(start_port, 65535), parse_unsigned(end_port, 65535)) {
        (Some(a), Some(b)) => a <= b && b - a <= MAX_SPAN as u64,
        _ => false,
    }
}

/// Whether two address texts make a range a scan may cover: both are
/// addresses, the first is not above the second, and they are at most
/// `MAX_SPAN` apart.
pub fn is_valid_ip_range(start_ip: &str, end_ip: &str) -> (r: bool)
    ensures
        r == ip_range_ok(start_ip@, end_ip@),
{
    match (ip_to_u32(start_ip), ip_to_u32(end_ip)) {
        (Some(a), Some(b)) => a <= b && b - a <= MAX_SPAN,
        _ => false,
    }
}

/// Writing an address read from dotted text gives that text back: for any
/// four octets from `0` to `255`, the text `a.b.c.d` reads as an address, and
/// the text of that address is `a.b.c.d`.
pub proof fn lemma_format_parse(a: nat, b: nat, c: nat, d: nat)
    requires
        a < 256,
        b < 256,
        c < 256,
        d < 256,
    ensures
        ({
            let s = decimal(a) + seq!['.'] + decimal(b) + seq!['.'] + decimal(c) + seq!['.']
                + decimal(d);
            &&& ip_ordinal(s) is Some
            &&& ip_text(ip_ordinal(s)->0) == s
        }),
{
    lemma_octets_of_value(a, b, c, d);
    let ip = octets_value(a, b, c, d) as u32;
    let s = decimal(a) + seq!['.'] + decimal(b) + seq!['.'] + decimal(c) + seq!['.'] + decimal(d);
    assert(ip_text(ip) =~= s);
    lemma_ip_ordinal_of_text(ip);
}

/// An address range is refused when either end is not an address or the
/// ends are more than `MAX_SPAN` apart, and a range of one address is
/// accepted.
pub proof fn lemma_ip_range_limits(start: Seq<char>, end: Seq<char>)
    ensures
        ip_ordinal(start) is None ==> !ip_range_ok(start, end),
        ip_ordinal(end) is None ==> !ip_range_ok(start, end),
        (ip_ordinal(start) is Some && ip_ordinal(end) is Some && ip_ordinal(end)->0
            - ip_ordinal(start)->0 > MAX_SPAN) ==> !ip_range_ok(start, end),
        ip_ordinal(start) is Some ==> ip_range_ok(start, start),
{
}

/// A port range is refused when either end is not a port or the ends are
/// more than `MAX_SPAN` apart, and a range of one port is accepted.
pub proof fn lemma_port_range_limits(start: Seq<char>, end: Seq<char>)
    ensures
        port_value(start) is None ==> !port_range_ok(start, end),
        port_value(end) is None ==> !port_range_ok(start, end),
        (port_value(start) is Some && port_value(end) is Some && port_value(end)->0
            - port_value(start)->0 > MAX_SPAN) ==> !port_range_ok(start, end),
        port_value(start) is Some ==> port_range_ok(start, start),
{
}

} // verus!
