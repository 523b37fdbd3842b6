//! IPv4 addresses and their dotted-quad notation.

use crate::decimal::{decimal, digit_char, is_digit, push_decimal};
use vstd::prelude::*;
use vstd::string::*;

verus! {

/// An IPv4 address, by its four octets in network order.
#[derive(Debug, Clone, Copy, PartialEq, Eq, Structural)]
pub struct Ipv4Address {
    pub a: u8,
    pub b: u8,
    pub c: u8,
    pub d: u8,
}

impl Ipv4Address {
    /// The strict dotted-quad notation of the address: four decimal octets
    /// without leading zeros, separated by dots.
    pub open spec fn dotted_quad(self) -> Seq<char> {
        decimal(self.a as nat) + seq!['.'] + decimal(self.b as nat) + seq!['.'] + decimal(
            self.c as nat,
        ) + seq!['.'] + decimal(self.d as nat)
    }

    /// The address with the given octets.
    pub fn new(a: u8, b: u8, c: u8, d: u8) -> (ip: Ipv4Address)
        ensures
            ip == (Ipv4Address { a, b, c, d }),
    {
        Ipv4Address { a, b, c, d }
    }

    /// The four octets in network order.
    pub fn octets(&self) -> (o: [u8; 4])
        ensures
            o@ == seq![self.a, self.b, self.c, self.d],
    {
        let o = [self.a, self.b, self.c, self.d];
        assert(o@ =~= seq![self.a, self.b, self.c, self.d]);
        o
    }

    /// Appends the dotted-quad notation of the address to `out`.
    pub fn push_text(&self, out: &mut String)
        ensures
            final(out)@ == old(out)@ + self.dotted_quad(),
    {
        proof {
            reveal_strlit(".");
        }
        assert("."@ =~= seq!['.']);
        push_decimal(out, self.a as u32);
        out.append(".");
        push_decimal(out, self.b as u32);
        out.append(".");
        push_decimal(out, self.c as u32);
        out.append(".");
        push_decimal(out, self.d as u32);
        assert(final(out)@ =~= old(out)@ + self.dotted_quad());
    }

    /// The dotted-quad notation of the address.
    pub fn to_text(&self) -> (text: String)
        ensures
            text@ == self.dotted_quad(),
    {
        let mut text = String::new();
        self.push_text(&mut text);
        assert(text@ =~= self.dotted_quad());
        text
    }
}

/// The address that `text` is the strict dotted-quad notation of, if any.
pub open spec fn parsed_dotted_quad(text: Seq<char>) -> Option<Ipv4Address> {
    if exists|ip: Ipv4Address| text == ip.dotted_quad() {
        Some(choose|ip: Ipv4Address| text == ip.dotted_quad())
    } else {
        None
    }
}

/// The notation of an octet, written out by its number of digits.
pub open spec fn octet_digits(v: nat) -> Seq<char> {
    if v < 10 {
        seq![digit_char(v)]
    } else if v < 100 {
        seq![digit_char(v / 10), digit_char(v % 10)]
    } else {
        seq![digit_char(v / 100), digit_char((v / 10) % 10), digit_char(v % 10)]
    }
}

/// Below a thousand, the decimal notation has one, two or three digits.
pub proof fn lemma_decimal_octet(v: nat)
    requires
        v < 1000,
    ensures
        decimal(v) == octet_digits(v),
{
    reveal_with_fuel(decimal, 4);
    assert(decimal(v) =~= octet_digits(v));
}

/// Whether the notation of octet `v` stands in `s` from `start` up to `end`,
/// and no digit follows it.
pub open spec fn octet_at(s: Seq<char>, start: int, v: u8, end: int) -> bool {
    &&& 0 <= start < end <= s.len()
    &&& s.subrange(start, end) == decimal(v as nat)
    &&& (end == s.len() || !is_digit(s[end]))
}

/// At a given place in a text at most one octet stands.
pub proof fn lemma_octet_at_unique(s: Seq<char>, start: int, v1: u8, e1: int, v2: u8, e2: int)
    requires
        octet_at(s, start, v1, e1),
        octet_at(s, start, v2, e2),
    ensures
        v1 == v2,
        e1 == e2,
{
    lemma_decimal_octet(v1 as nat);
    lemma_decimal_octet(v2 as nat);
    let d1 = s.subrange(start, e1);
    let d2 = s.subrange(start, e2);
    assert(forall|i: int| 0 <= i < d1.len() ==> is_digit(#[trigger] d1[i]));
    assert(forall|i: int| 0 <= i < d2.len() ==> is_digit(#[trigger] d2[i]));
    if e1 < e2 {
        assert(d2[e1 - start] == s[e1]);
    }
    if e2 < e1 {
        assert(d1[e2 - start] == s[e2]);
    }
    assert(e1 == e2);
    assert(d1 == d2);
    let x = v1 as nat;
    let y = v2 as nat;
    assert(octet_digits(x).len() == octet_digits(y).len());
    assert(octet_digits(x)[0] == octet_digits(y)[0]);
    if x >= 10 {
        assert(octet_digits(x)[1] == octet_digits(y)[1]);
    }
    if x >= 100 {
        assert(octet_digits(x)[2] == octet_digits(y)[2]);
    }
}

/// Where the four octets of an address stand in its dotted-quad notation.
pub proof fn lemma_dotted_quad_octets(ip: Ipv4Address)
    ensures
        ({
            let s = ip.dotted_quad();
            let p1 = decimal(ip.a as nat).len() as int;
            let p2 = p1 + 1 + decimal(ip.b as nat).len();
            let p3 = p2 + 1 + decimal(ip.c as nat).len();
            &&& octet_at(s, 0, ip.a, p1)
            &&& p1 < s.len() && s[p1] == '.'
            &&& octet_at(s, p1 + 1, ip.b, p2)
            &&& p2 < s.len() && s[p2] == '.'
            &&& octet_at(s, p2 + 1, ip.c, p3)
            &&& p3 < s.len() && s[p3] == '.'
            &&& octet_at(s, p3 + 1, ip.d, s.len() as int)
        }),
{
    lemma_decimal_octet(ip.a as nat);
    lemma_decimal_octet(ip.b as nat);
    lemma_decimal_octet(ip.c as nat);
    lemma_decimal_octet(ip.d as nat);
    let s = ip.dotted_quad();
    let p1 = decimal(ip.a as nat).len() as int;
    let p2 = p1 + 1 + decimal(ip.b as nat).len();
    let p3 = p2 + 1 + decimal(ip.c as nat).len();
    assert(s.subrange(0, p1) =~= decimal(ip.a as nat));
    assert(s.subrange(p1 + 1, p2) =~= decimal(ip.b as nat));
    assert(s.subrange(p2 + 1, p3) =~= decimal(ip.c as nat));
    assert(s.subrange(p3 + 1, s.len() as int) =~= decimal(ip.d as nat));
}

/// Two addresses with the same dotted-quad notation are the same address.
pub proof fn lemma_dotted_quad_injective(x: Ipv4Address, y: Ipv4Address)
    requires
        x.dotted_quad() == y.dotted_quad(),
    ensures
        x == y,
{
    let s = x.dotted_quad();
    lemma_dotted_quad_octets(x);
    lemma_dotted_quad_octets(y);
    let x1 = decimal(x.a as nat).len() as int;
    let y1 = decimal(y.a as nat).len() as int;
    lemma_octet_at_unique(s, 0, x.a, x1, y.a, y1);
    let x2 = x1 + 1 + decimal(x.b as nat).len();
    let y2 = y1 + 1 + decimal(y.b as nat).len();
    lemma_octet_at_unique(s, x1 + 1, x.b, x2, y.b, y2);
    let x3 = x2 + 1 + decimal(x.c as nat).len();
    let y3 = y2 + 1 + decimal(y.c as nat).len();
    lemma_octet_at_unique(s, x2 + 1, x.c, x3, y.c, y3);
    lemma_octet_at_unique(s, x3 + 1, x.d, s.len() as int, y.d, s.len() as int);
}

/// Whether `c` is an ASCII digit.
fn is_digit_char(c: char) -> (r: bool)
    ensures
        r == is_digit(c),
{
    '0' <= c && c <= '9'
}

/// The number that the digit `c` stands for.
fn digit_value(c: char) -> (v: u32)
    requires
        is_digit(c),
    ensures
        v < 10,
        digit_char(v as nat) == c,
{
    (c as u32) - 48
}

/// Reads the octet that stands in `text` at `start`, and says where it ends.
fn read_octet(text: &str, len: usize, start: usize) -> (r: Option<(u8, usize)>)
    requires
        len == text@.len(),
        start <= len,
    ensures
        match r {
            Some((v, end)) => octet_at(text@, start as int, v, end as int),
            None => forall|v: u8, end: int| !octet_at(text@, start as int, v, end),
        },
{
    let ghost s = text@;
    proof {
        assert forall|v: u8| #[trigger] decimal(v as nat) == octet_digits(v as nat) by {
            lemma_decimal_octet(v as nat);
        }
    }
    if start >= len {
        return None;
    }
    let c0 = text.get_char(start);
    if !is_digit_char(c0) {
        proof {
            assert forall|v: u8, end: int| !octet_at(s, start as int, v, end) by {
                if octet_at(s, start as int, v, end) {
                    assert(s.subrange(start as int, end)[0] == s[start as int]);
                }
            }
        }
        return None;
    }
    let v0: u32 = digit_value(c0);
    if len - start < 2 || !is_digit_char(text.get_char(start + 1)) {
        proof {
            assert(s.subrange(start as int, start + 1) =~= octet_digits(v0 as nat));
        }
        return Some((v0 as u8, start + 1));
    }
    let c1 = text.get_char(start + 1);
    if v0 == 0 {
        proof {
            assert forall|v: u8, end: int| !octet_at(s, start as int, v, end) by {
                if octet_at(s, start as int, v, end) {
                    let d = s.subrange(start as int, end);
                    assert(d.len() == end - start);
                    assert(d[0] == s[start as int]);
                    if v < 10 {
                        assert(end == start + 1);
                        assert(is_digit(s[end]));
                    } else if v < 100 {
                        assert(v / 10 != 0);
                    } else {
                        assert(v / 100 != 0);
                    }
                }
            }
        }
        return None;
    }
    let v1: u32 = v0 * 10 + digit_value(c1);
    if len - start < 3 || !is_digit_char(text.get_char(start + 2)) {
        proof {
            assert(s.subrange(start as int, start + 2) =~= octet_digits(v1 as nat));
        }
        return Some((v1 as u8, start + 2));
    }
    let c2 = text.get_char(start + 2);
    let v2: u32 = v1 * 10 + digit_value(c2);
    if v2 > 255 || (len - start >= 4 && is_digit_char(text.get_char(start + 3))) {
        proof {
            assert forall|v: u8, end: int| !octet_at(s, start as int, v, end) by {
                if octet_at(s, start as int, v, end) {
                    let d = s.subrange(start as int, end);
                    assert(d.len() == end - start);
                    assert(d[0] == s[start as int]);
                    if v < 10 {
                        assert(end == start + 1);
                        assert(is_digit(s[end]));
                    } else if v < 100 {
                        assert(end == start + 2);
                        assert(is_digit(s[end]));
                    } else {
                        assert(end == start + 3);
                        assert(d[1] == s[start + 1]);
                        assert(d[2] == s[start + 2]);
                        assert(v / 100 == v0);
                        assert((v / 10) % 10 == v1 - 10 * v0);
                        assert(v % 10 == v2 - 10 * v1);
                        assert(v == v2);
                    }
                }
            }
        }
        return None;
    }
    proof {
        assert(s.subrange(start as int, start + 3) =~= octet_digits(v2 as nat));
    }
    Some((v2 as u8, start + 3))
}

/// Whether a dot stands in `text` at `at`.
fn dot_at(text: &str, len: usize, at: usize) -> (r: bool)
    requires
        len == text@.len(),
    ensures
        r == (at < len && text@[at as int] == '.'),
{
    at < len && text.get_char(at) == '.'
}

/// Reads an address in strict dotted-quad notation: the address whose
/// notation `text` is, or `None` where `text` is the notation of none.
pub fn parse_dotted_quad(text: &str) -> (r: Option<Ipv4Address>)
    ensures
        match r {
            Some(ip) => text@ == ip.dotted_quad(),
            None => forall|ip: Ipv4Address| text@ != ip.dotted_quad(),
        },
        forall|ip: Ipv4Address| text@ == ip.dotted_quad() ==> r == Some(ip),
        r == parsed_dotted_quad(text@),
{
    let ghost s = text@;
    let len = text.unicode_len();
    proof {
        assert forall|ip: Ipv4Address| s == #[trigger] ip.dotted_quad() implies {
            let p1 = decimal(ip.a as nat).len() as int;
            let p2 = p1 + 1 + decimal(ip.b as nat).len();
            let p3 = p2 + 1 + decimal(ip.c as nat).len();
            &&& octet_at(s, 0, ip.a, p1)
            &&& p1 < s.len() && s[p1] == '.'
            &&& octet_at(s, p1 + 1, ip.b, p2)
            &&& p2 < s.len() && s[p2] == '.'
            &&& octet_at(s, p2 + 1, ip.c, p3)
            &&& p3 < s.len() && s[p3] == '.'
            &&& octet_at(s, p3 + 1, ip.d, s.len() as int)
        } by {
            lemma_dotted_quad_octets(ip);
        }
    }
    let (a, p1) = match read_octet(text, len, 0) {
        Some(found) => found,
        None => { return None; },
    };
    proof {
        assert forall|ip: Ipv4Address| s == #[trigger] ip.dotted_quad() implies ip.a == a && p1
            == decimal(ip.a as nat).len() by {
            lemma_octet_at_unique(s, 0, a, p1 as int, ip.a, decimal(ip.a as nat).len() as int);
        }
    }
    if !dot_at(text, len, p1) {
        return None;
    }
    let (b, p2) = match read_octet(text, len, p1 + 1) {
        Some(found) => found,
        None => { return None; },
    };
    proof {
        assert forall|ip: Ipv4Address| s == #[trigger] ip.dotted_quad() implies ip.b == b && p2
            == p1 + 1 + decimal(ip.b as nat).len() by {
            lemma_octet_at_unique(
                s,
                p1 + 1,
                b,
                p2 as int,
                ip.b,
                p1 + 1 + decimal(ip.b as nat).len(),
            );
        }
    }
    if !dot_at(text, len, p2) {
        return None;
    }
    let (c, p3) = match read_octet(text, len, p2 + 1) {
        Some(found) => found,
        None => { return None; },
    };
    proof {
        assert forall|ip: Ipv4Address| s == #[trigger] ip.dotted_quad() implies ip.c == c && p3
            == p2 + 1 + decimal(ip.c as nat).len() by {
            lemma_octet_at_unique(
                s,
                p2 + 1,
                c,
                p3 as int,
                ip.c,
                p2 + 1 + decimal(ip.c as nat).len(),
            );
        }
    }
    if !dot_at(text, len, p3) {
        return None;
    }
    let (d, p4) = match read_octet(text, len, p3 + 1) {
        Some(found) => found,
        None => { return None; },
    };
    proof {
        assert forall|ip: Ipv4Address| s == #[trigger] ip.dotted_quad() implies ip.d == d && p4
            == len by {
            lemma_octet_at_unique(s, p3 + 1, d, p4 as int, ip.d, s.len() as int);
        }
    }
    if p4 != len {
        return None;
    }
    let ip = Ipv4Address { a, b, c, d };
    proof {
        assert(s =~= s.subrange(0, p1 as int) + seq!['.'] + s.subrange(p1 + 1, p2 as int)
            + seq!['.'] + s.subrange(p2 + 1, p3 as int) + seq!['.'] + s.subrange(
            p3 + 1,
            p4 as int,
        ));
        assert(s == ip.dotted_quad());
        let chosen = choose|w: Ipv4Address| s == w.dotted_quad();
        assert(chosen == ip);
    }
    Some(ip)
}

/// Reading is the inverse of writing: the notation of an address reads as
/// that address, and a text reads as an address only where it is that
/// address's notation.
pub proof fn lemma_dotted_quad_round_trip(ip: Ipv4Address, text: Seq<char>)
    ensures
        parsed_dotted_quad(ip.dotted_quad()) == Some(ip),
        parsed_dotted_quad(text) == Some(ip) <==> text == ip.dotted_quad(),
{
    assert forall|x: Ipv4Address, y: Ipv4Address|
        #[trigger] x.dotted_quad() == #[trigger] y.dotted_quad() implies x == y by {
        lemma_dotted_quad_injective(x, y);
    }
}

} // verus!
