//! How payloads are written as hex text and read back: the encoder for the
//! receive log, the lenient decoder used when sending, and the checker that
//! callers run before submitting hex text.
use vstd::prelude::*;
use crate::text::{chars_of, digit_char, lemma_digit_char, push_char};

verus! {

/// Whether `c` is a hex digit, in either case.
pub open spec fn is_hex_digit(c: char) -> bool {
    ('0' <= c && c <= '9') || ('a' <= c && c <= 'f') || ('A' <= c && c <= 'F')
}

/// The value of a hex digit.
pub open spec fn hex_value(c: char) -> nat {
    if '0' <= c && c <= '9' {
        (c as nat - '0' as nat) as nat
    } else if 'a' <= c && c <= 'f' {
        (c as nat - 'a' as nat + 10) as nat
    } else {
        (c as nat - 'A' as nat + 10) as nat
    }
}

/// The upper-case hex digit of `d`.
pub open spec fn hex_char(d: nat) -> char
    recommends
        d < 16,
{
    if d < 10 {
        digit_char(d)
    } else {
        ((d - 10 + 65) as u8) as char
    }
}

/// A hex digit in upper case; other characters unchanged.
pub open spec fn upper_char(c: char) -> char {
    if 'a' <= c && c <= 'f' {
        ((c as nat - 32) as u8) as char
    } else {
        c
    }
}

/// `s` with every space removed.
pub open spec fn without_spaces(s: Seq<char>) -> Seq<char>
    decreases s.len(),
{
    if s.len() == 0 {
        s
    } else if s.last() == ' ' {
        without_spaces(s.drop_last())
    } else {
        without_spaces(s.drop_last()).push(s.last())
    }
}

/// The byte that two hex digits spell in base 16; nothing for any other
/// pair.
pub open spec fn pair_byte(a: char, b: char) -> Option<u8> {
    if is_hex_digit(a) && is_hex_digit(b) {
        Some((hex_value(a) * 16 + hex_value(b)) as u8)
    } else {
        None
    }
}

/// The bytes of consecutive pairs of `t`: a pair that spells no byte is
/// skipped, and so is a last character without a partner.
pub open spec fn decode_pairs(t: Seq<char>) -> Seq<u8>
    decreases t.len(),
{
    if t.len() < 2 {
        Seq::empty()
    } else {
        let rest = decode_pairs(t.subrange(2, t.len() as int));
        match pair_byte(t[0], t[1]) {
            Some(x) => seq![x] + rest,
            None => rest,
        }
    }
}

/// The bytes that hex text stands for when it is sent: spaces removed, then
/// read pair by pair.
pub open spec fn hex_decode(s: Seq<char>) -> Seq<u8> {
    decode_pairs(without_spaces(s))
}

/// The two upper-case hex digits of a byte.
pub open spec fn byte_hex(b: u8) -> Seq<char> {
    seq![hex_char(b as nat / 16), hex_char(b as nat % 16)]
}

/// Bytes as upper-case hex digits, two per byte, with nothing between.
pub open spec fn hex_upper(b: Seq<u8>) -> Seq<char>
    decreases b.len(),
{
    if b.len() == 0 {
        Seq::empty()
    } else {
        hex_upper(b.drop_last()) + byte_hex(b.last())
    }
}

/// Bytes as upper-case hex digits, two per byte, separated by single
/// spaces: `48 65 6C`.
pub open spec fn hex_dump(b: Seq<u8>) -> Seq<char>
    decreases b.len(),
{
    if b.len() == 0 {
        Seq::empty()
    } else if b.len() == 1 {
        byte_hex(b[0])
    } else {
        hex_dump(b.drop_last()) + seq![' '] + byte_hex(b.last())
    }
}

/// Whether `s` is acceptable hex text: once spaces are removed, an even
/// number of characters, all hex digits.
pub open spec fn hex_text_ok(s: Seq<char>) -> bool {
    let t = without_spaces(s);
    t.len() % 2 == 0 && forall|i: int| 0 <= i < t.len() ==> is_hex_digit(#[trigger] t[i])
}

proof fn lemma_hex_char(d: nat)
    requires
        d < 16,
    ensures
        is_hex_digit(hex_char(d)),
        hex_value(hex_char(d)) == d,
        hex_char(d) != ' ',
{
    if d < 10 {
        lemma_digit_char(d);
    }
}

/// Removing spaces from two texts one after the other.
proof fn lemma_without_spaces_concat(x: Seq<char>, y: Seq<char>)
    ensures
        without_spaces(x + y) == without_spaces(x) + without_spaces(y),
    decreases y.len(),
{
    if y.len() == 0 {
        assert(x + y =~= x);
        assert(without_spaces(x) + without_spaces(y) =~= without_spaces(x));
    } else {
        assert((x + y).drop_last() =~= x + y.drop_last());
        assert((x + y).last() == y.last());
        lemma_without_spaces_concat(x, y.drop_last());
        if y.last() != ' ' {
            assert(without_spaces(x) + without_spaces(y.drop_last()).push(y.last())
                =~= (without_spaces(x) + without_spaces(y.drop_last())).push(y.last()));
        }
    }
}

/// A text with no space loses nothing when spaces are removed.
proof fn lemma_without_spaces_none(s: Seq<char>)
    requires
        forall|i: int| 0 <= i < s.len() ==> s[i] != ' ',
    ensures
        without_spaces(s) == s,
    decreases s.len(),
{
    if s.len() > 0 {
        assert(s.last() == s[s.len() - 1]);
        lemma_without_spaces_none(s.drop_last());
        assert(s.drop_last().push(s.last()) =~= s);
    }
}

/// Pairs are read independently when the first text has an even length.
proof fn lemma_decode_pairs_concat(x: Seq<char>, y: Seq<char>)
    requires
        x.len() % 2 == 0,
    ensures
        decode_pairs(x + y) == decode_pairs(x) + decode_pairs(y),
    decreases x.len(),
{
    if x.len() == 0 {
        assert(x + y =~= y);
        assert(decode_pairs(x) + decode_pairs(y) =~= decode_pairs(y));
    } else {
        let xy = x + y;
        let x2 = x.subrange(2, x.len() as int);
        assert(xy.subrange(2, xy.len() as int) =~= x2 + y);
        assert(xy[0] == x[0] && xy[1] == x[1]);
        lemma_decode_pairs_concat(x2, y);
        match pair_byte(x[0], x[1]) {
            Some(b) => {
                assert(seq![b] + (decode_pairs(x2) + decode_pairs(y)) =~= (seq![b] + decode_pairs(
                    x2,
                )) + decode_pairs(y));
            },
            None => {},
        }
    }
}

/// The bytes of a single pair.
proof fn lemma_decode_one_pair(a: char, b: char)
    ensures
        decode_pairs(seq![a, b]) == match pair_byte(a, b) {
            Some(x) => seq![x],
            None => Seq::<u8>::empty(),
        },
{
    let t = seq![a, b];
    assert(t.subrange(2, 2) =~= Seq::<char>::empty());
    assert(decode_pairs(t.subrange(2, 2)) =~= Seq::<u8>::empty());
    match pair_byte(a, b) {
        Some(x) => {
            assert(seq![x] + Seq::<u8>::empty() =~= seq![x]);
        },
        None => {},
    }
}

/// Upper-case hex text of bytes has two digits per byte, and no spaces.
proof fn lemma_hex_upper_digits(b: Seq<u8>)
    ensures
        hex_upper(b).len() == 2 * b.len(),
        forall|i: int| 0 <= i < hex_upper(b).len() ==> is_hex_digit(#[trigger] hex_upper(b)[i]),
    decreases b.len(),
{
    if b.len() > 0 {
        lemma_hex_upper_digits(b.drop_last());
        lemma_hex_char(b.last() as nat / 16);
        lemma_hex_char(b.last() as nat % 16);
        let p = hex_upper(b.drop_last());
        let h = hex_upper(b);
        assert forall|i: int| 0 <= i < h.len() implies is_hex_digit(#[trigger] h[i]) by {
            if i < p.len() {
                assert(h[i] == p[i]);
            }
        }
    }
}

/// Reading the two hex digits of a byte gives the byte.
proof fn lemma_byte_hex_decode(x: u8)
    ensures
        decode_pairs(byte_hex(x)) == seq![x],
{
    lemma_hex_char(x as nat / 16);
    lemma_hex_char(x as nat % 16);
    lemma_decode_one_pair(hex_char(x as nat / 16), hex_char(x as nat % 16));
    assert(byte_hex(x) =~= seq![hex_char(x as nat / 16), hex_char(x as nat % 16)]);
}

/// Reading upper-case hex text gives the bytes back.
proof fn lemma_decode_hex_upper(b: Seq<u8>)
    ensures
        decode_pairs(hex_upper(b)) == b,
    decreases b.len(),
{
    if b.len() == 0 {
        assert(decode_pairs(hex_upper(b)) =~= b);
    } else {
        let p = b.drop_last();
        lemma_decode_hex_upper(p);
        lemma_hex_upper_digits(p);
        lemma_decode_pairs_concat(hex_upper(p), byte_hex(b.last()));
        lemma_byte_hex_decode(b.last());
        assert(p + seq![b.last()] =~= b);
    }
}

/// The spaced hex dump of bytes, with spaces removed, is the plain hex text.
proof fn lemma_hex_dump_without_spaces(b: Seq<u8>)
    ensures
        without_spaces(hex_dump(b)) == hex_upper(b),
    decreases b.len(),
{
    if b.len() == 1 {
        lemma_hex_char(b[0] as nat / 16);
        lemma_hex_char(b[0] as nat % 16);
        lemma_without_spaces_none(byte_hex(b[0]));
        assert(b.drop_last() =~= Seq::<u8>::empty());
        assert(hex_upper(b.drop_last()) + byte_hex(b.last()) =~= byte_hex(b[0]));
    } else if b.len() > 1 {
        let p = b.drop_last();
        lemma_hex_dump_without_spaces(p);
        lemma_hex_char(b.last() as nat / 16);
        lemma_hex_char(b.last() as nat % 16);
        lemma_without_spaces_none(byte_hex(b.last()));
        lemma_without_spaces_concat(hex_dump(p), seq![' ']);
        lemma_without_spaces_concat(hex_dump(p) + seq![' '], byte_hex(b.last()));
        let sp = seq![' '];
        assert(sp.drop_last() =~= Seq::<char>::empty());
        assert(sp.last() == ' ');
        assert(without_spaces(sp.drop_last()) =~= Seq::<char>::empty());
        assert(without_spaces(sp) =~= Seq::<char>::empty());
        assert(without_spaces(hex_dump(p)) + Seq::<char>::empty() =~= without_spaces(hex_dump(p)));
    } else {
        assert(without_spaces(hex_dump(b)) =~= hex_upper(b));
    }
}

/// Hex text read and written again: for any space-free text of an even
/// number of hex digits, the bytes it decodes to, written as upper-case hex
/// with no spaces, are the text in upper case; so is their spaced hex dump
/// once its spaces are removed.
pub proof fn lemma_hex_round_trip(t: Seq<char>)
    requires
        t.len() % 2 == 0,
        forall|i: int| 0 <= i < t.len() ==> is_hex_digit(#[trigger] t[i]),
    ensures
        hex_upper(hex_decode(t)) == t.map_values(|c: char| upper_char(c)),
        without_spaces(hex_dump(hex_decode(t))) == t.map_values(|c: char| upper_char(c)),
    decreases t.len(),
{
    lemma_hex_dump_without_spaces(hex_decode(t));
    assert forall|i: int| 0 <= i < t.len() implies t[i] != ' ' by {
        assert(is_hex_digit(t[i]));
    }
    lemma_without_spaces_none(t);
    if t.len() == 0 {
        assert(hex_upper(hex_decode(t)) =~= t.map_values(|c: char| upper_char(c)));
    } else {
        let n = t.len() as int;
        let u = t.subrange(0, n - 2);
        let a = t[n - 2];
        let b = t[n - 1];
        assert(is_hex_digit(a) && is_hex_digit(b));
        assert forall|i: int| 0 <= i < u.len() implies is_hex_digit(#[trigger] u[i]) by {
            assert(u[i] == t[i]);
        }
        lemma_hex_round_trip(u);
        assert forall|i: int| 0 <= i < u.len() implies u[i] != ' ' by {
            assert(is_hex_digit(u[i]));
        }
        lemma_without_spaces_none(u);
        assert(u + seq![a, b] =~= t);
        lemma_decode_pairs_concat(u, seq![a, b]);
        lemma_decode_one_pair(a, b);
        let x = (hex_value(a) * 16 + hex_value(b)) as u8;
        assert(hex_value(a) < 16 && hex_value(b) < 16);
        assert(x as nat / 16 == hex_value(a) && x as nat % 16 == hex_value(b));
        let d = decode_pairs(u);
        assert((d + seq![x]).drop_last() =~= d);
        assert(hex_char(hex_value(a)) == upper_char(a));
        assert(hex_char(hex_value(b)) == upper_char(b));
        assert(hex_upper(d + seq![x]) =~= t.map_values(|c: char| upper_char(c)));
    }
}

/// The spaced hex dump of bytes, read as hex text, gives the bytes back.
pub proof fn lemma_hex_dump_round_trip(b: Seq<u8>)
    ensures
        hex_decode(hex_dump(b)) == b,
{
    lemma_hex_dump_without_spaces(b);
    lemma_decode_hex_upper(b);
}

/// The value of a hex digit, if `c` is one.
fn hex_digit(c: char) -> (r: Option<u8>)
    ensures
        r == if is_hex_digit(c) {
            Some(hex_value(c) as u8)
        } else {
            None::<u8>
        },
{
    if '0' <= c && c <= '9' {
        Some((c as u8) - 48)
    } else if 'a' <= c && c <= 'f' {
        Some((c as u8) - 87)
    } else if 'A' <= c && c <= 'F' {
        Some((c as u8) - 55)
    } else {
        None
    }
}

/// The byte that two characters spell in base 16, if any.
fn read_pair(a: char, b: char) -> (r: Option<u8>)
    ensures
        r == pair_byte(a, b),
{
    match (hex_digit(a), hex_digit(b)) {
        (Some(x), Some(y)) => Some(x * 16 + y),
        _ => None,
    }
}

/// The upper-case hex digit of `d`.
fn hex_digit_char(d: u8) -> (c: char)
    requires
        d < 16,
    ensures
        c == hex_char(d as nat),
{
    if d < 10 {
        (d + 48) as char
    } else {
        (d + 55) as char
    }
}

/// `v` with every space removed.
fn strip_spaces(v: &Vec<char>) -> (r: Vec<char>)
    ensures
        r@ == without_spaces(v@),
{
    let mut r: Vec<char> = Vec::new();
    let mut i: usize = 0;
    while i < v.len()
        invariant
            i <= v@.len(),
            r@ == without_spaces(v@.subrange(0, i as int)),
        decreases v@.len() - i,
    {
        let ghost p = v@.subrange(0, i as int);
        let ghost q = v@.subrange(0, i + 1);
        assert(q.drop_last() =~= p);
        assert(q.last() == v@[i as int]);
        if v[i] != ' ' {
            r.push(v[i]);
        }
        i = i + 1;
    }
    assert(v@.subrange(0, i as int) =~= v@);
    r
}

/// The bytes that hex text stands for: spaces are removed, the rest is read
/// two characters at a time, and a pair that spells no byte is skipped, as is
/// a last character without a partner. Nothing is refused: callers check the
/// text first with `is_valid_hex_string`.
pub fn hex_to_bytes(hex_str: &str) -> (r: Vec<u8>)
    ensures
        r@ == hex_decode(hex_str@),
{
    let v = chars_of(hex_str);
    let t = strip_spaces(&v);
    let mut r: Vec<u8> = Vec::new();
    let mut i: usize = 0;
    assert(t@.subrange(0, t@.len() as int) =~= t@);
    assert(r@ + decode_pairs(t@) =~= decode_pairs(t@));
    while i < t.len() && t.len() - i > 1
        invariant
            i <= t@.len(),
            r@ + decode_pairs(t@.subrange(i as int, t@.len() as int)) == decode_pairs(t@),
        decreases t@.len() - i,
    {
        let ghost rest = t@.subrange(i as int, t@.len() as int);
        assert(rest.subrange(2, rest.len() as int) =~= t@.subrange(i + 2, t@.len() as int));
        assert(rest[0] == t@[i as int] && rest[1] == t@[i + 1]);
        let ghost before = r@;
        match read_pair(t[i], t[i + 1]) {
            Some(x) => {
                r.push(x);
                assert(before + (seq![x] + decode_pairs(rest.subrange(2, rest.len() as int)))
                    =~= r@ + decode_pairs(rest.subrange(2, rest.len() as int)));
            },
            None => {},
        }
        i = i + 2;
    }
    assert(decode_pairs(t@.subrange(i as int, t@.len() as int)) =~= Seq::<u8>::empty());
    assert(r@ + Seq::<u8>::empty() =~= r@);
    r
}

/// Bytes as upper-case hex digits, two per byte, separated by single
/// spaces: `48 65 6C`.
pub fn bytes_to_hex(bytes: &[u8]) -> (r: String)
    ensures
        r@ == hex_dump(bytes@),
{
    let mut r = String::new();
    let mut i: usize = 0;
    while i < bytes.len()
        invariant
            i <= bytes@.len(),
            r@ == hex_dump(bytes@.subrange(0, i as int)),
        decreases bytes@.len() - i,
    {
        let ghost p = bytes@.subrange(0, i as int);
        let ghost q = bytes@.subrange(0, i + 1);
        assert(q.drop_last() =~= p);
        assert(q.last() == bytes@[i as int]);
        if i > 0 {
            push_char(&mut r, ' ');
        }
        let b = bytes[i];
        push_char(&mut r, hex_digit_char(b / 16));
        push_char(&mut r, hex_digit_char(b % 16));
        i = i + 1;
        proof {
            if i == 1 {
                assert(p =~= Seq::<u8>::empty());
                assert(q =~= seq![b]);
            }
            assert(r@ =~= hex_dump(q));
        }
    }
    assert(bytes@.subrange(0, i as int) =~= bytes@);
    r
}

/// Whether `s` is acceptable hex text: once spaces are removed, an even
/// number of characters, all hex digits. Text of spaces alone is acceptable.
pub fn is_valid_hex_string(s: &str) -> (r: bool)
    ensures
        r == hex_text_ok(s@),
{
    let v = chars_of(s);
    let t = strip_spaces(&v);
    if t.len() % 2 != 0 {
        return false;
    }
    let mut i: usize = 0;
    while i < t.len()
        invariant
            i <= t@.len(),
            t@ == without_spaces(s@),
            t@.len() % 2 == 0,
            forall|k: int| 0 <= k < i ==> is_hex_digit(#[trigger] t@[k]),
        decreases t@.len() - i,
    {
        if hex_digit(t[i]).is_none() {
            assert(!is_hex_digit(t@[i as int]));
            return false;
        }
        i = i + 1;
    }
    true
}

} // verus!
