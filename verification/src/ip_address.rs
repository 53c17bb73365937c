//! An IPv4 address held as its four octets, interoperable with the 32-bit
//! integer form and the dotted-quad notation.

use vstd::arithmetic::div_mod::lemma_fundamental_div_mod;
use vstd::prelude::*;
use vstd::utf8::{
    decode_utf8, encode_utf8, encode_utf8_decode_utf8, encode_utf8_valid_utf8, is_ascii_chars,
    is_ascii_chars_encode_utf8, valid_utf8,
};

verus! {

/// An IPv4 address: four octets, most significant first.
#[derive(Debug, Clone, Copy, PartialEq, Eq)]
pub struct IpAddress {
    o0: u8,
    o1: u8,
    o2: u8,
    o3: u8,
}

/// The 32-bit integer form of an address (network byte order: the first
/// octet is the most significant byte).
pub open spec fn ip_int(ip: IpAddress) -> u32 {
    (0x1000000 * ip.octets()[0] + 0x10000 * ip.octets()[1] + 0x100 * ip.octets()[2]
        + ip.octets()[3]) as u32
}

/// The address whose integer form is `v`.
pub closed spec fn ip_from_int(v: u32) -> IpAddress {
    IpAddress {
        o0: (v / 0x1000000) as u8,
        o1: ((v / 0x10000) % 0x100) as u8,
        o2: ((v / 0x100) % 0x100) as u8,
        o3: (v % 0x100) as u8,
    }
}

/// The octets of the address built from an integer: its four bytes, most
/// significant first.
pub proof fn lemma_ip_from_int_octets(v: u32)
    ensures
        ip_from_int(v).octets() == seq![
            (v / 0x1000000) as u8,
            ((v / 0x10000) % 0x100) as u8,
            ((v / 0x100) % 0x100) as u8,
            (v % 0x100) as u8,
        ],
{
}

/// Splitting an integer into octets and recombining them gives it back.
pub proof fn lemma_ip_from_int_roundtrip(v: u32)
    ensures
        ip_int(ip_from_int(v)) == v,
{
    let x = v as int;
    lemma_fundamental_div_mod(x, 0x100);
    lemma_fundamental_div_mod(x / 0x100, 0x100);
    lemma_fundamental_div_mod(x / 0x10000, 0x100);
    vstd::arithmetic::div_mod::lemma_div_denominator(x, 0x100, 0x100);
    vstd::arithmetic::div_mod::lemma_div_denominator(x, 0x10000, 0x100);
    assert(0x10000 * 0x100 == 0x1000000) by (nonlinear_arith);
}

/// Recombining an address's octets and splitting them again gives the same
/// address back: the integer form loses nothing.
pub proof fn lemma_ip_int_roundtrip(ip: IpAddress)
    ensures
        ip_from_int(ip_int(ip)) == ip,
{
    let a = ip.o0 as int;
    let b = ip.o1 as int;
    let c = ip.o2 as int;
    let d = ip.o3 as int;
    let v = ip_int(ip) as int;
    assert(v == 0x1000000 * a + 0x10000 * b + 0x100 * c + d);
    assert(v / 0x1000000 == a) by (nonlinear_arith)
        requires
            v == 0x1000000 * a + 0x10000 * b + 0x100 * c + d,
            0 <= b < 0x100,
            0 <= c < 0x100,
            0 <= d < 0x100,
            0 <= a,
    ;
    assert((v / 0x10000) % 0x100 == b) by (nonlinear_arith)
        requires
            v == 0x1000000 * a + 0x10000 * b + 0x100 * c + d,
            0 <= a,
            0 <= b < 0x100,
            0 <= c < 0x100,
            0 <= d < 0x100,
    ;
    assert((v / 0x100) % 0x100 == c) by (nonlinear_arith)
        requires
            v == 0x1000000 * a + 0x10000 * b + 0x100 * c + d,
            0 <= a,
            0 <= b < 0x100,
            0 <= c < 0x100,
            0 <= d < 0x100,
    ;
    assert(v % 0x100 == d) by (nonlinear_arith)
        requires
            v == 0x1000000 * a + 0x10000 * b + 0x100 * c + d,
            0 <= a,
            0 <= b < 0x100,
            0 <= c < 0x100,
            0 <= d < 0x100,
    ;
}

impl IpAddress {
    /// The four octets, most significant first.
    pub closed spec fn octets(&self) -> Seq<u8> {
        seq![self.o0, self.o1, self.o2, self.o3]
    }

    /// Builds an address from its four octets, most significant first.
    pub fn new(a: u8, b: u8, c: u8, d: u8) -> (r: Self)
        ensures
            r.octets() == seq![a, b, c, d],
    {
        Self { o0: a, o1: b, o2: c, o3: d }
    }

    /// The null address, `0.0.0.0`.
    pub fn none() -> (r: Self)
        ensures
            r.octets() == seq![0u8, 0u8, 0u8, 0u8],
            r == ip_from_int(0),
    {
        Self::new(0, 0, 0, 0)
    }

    /// The four raw octets of the address.
    pub fn bytes(&self) -> (r: Vec<u8>)
        ensures
            r@ == self.octets(),
    {
        let mut v: Vec<u8> = Vec::new();
        v.push(self.o0);
        v.push(self.o1);
        v.push(self.o2);
        v.push(self.o3);
        proof {
            assert(v@ =~= self.octets());
        }
        v
    }

    /// The 32-bit integer form of the address.
    pub fn to_int(self) -> (r: u32)
        ensures
            r == ip_int(self),
    {
        0x1000000 * (self.o0 as u32) + 0x10000 * (self.o1 as u32) + 0x100 * (self.o2 as u32)
            + self.o3 as u32
    }
}

/// The character for one decimal digit.
pub open spec fn digit_char(d: u8) -> char {
    ((48 + d) as u8) as char
}

/// The shortest decimal notation of a byte: one to three digits, no leading
/// zero.
pub open spec fn dec_chars(n: u8) -> Seq<char> {
    if n >= 100 {
        seq![
            digit_char((n / 100) as u8),
            digit_char(((n / 10) % 10) as u8),
            digit_char((n % 10) as u8),
        ]
    } else if n >= 10 {
        seq![digit_char((n / 10) as u8), digit_char((n % 10) as u8)]
    } else {
        seq![digit_char(n)]
    }
}

/// The dotted-quad notation of an address: the four octets in decimal,
/// joined by dots.
pub open spec fn quad_chars(ip: IpAddress) -> Seq<char> {
    dec_chars(ip.octets()[0]) + seq!['.'] + dec_chars(ip.octets()[1]) + seq!['.'] + dec_chars(
        ip.octets()[2],
    ) + seq!['.'] + dec_chars(ip.octets()[3])
}

/// The ASCII bytes of a character run (meaningful for ASCII characters).
pub open spec fn ascii_bytes(s: Seq<char>) -> Seq<u8> {
    Seq::new(s.len(), |i: int| s[i] as u8)
}

impl IpAddress {
    /// The dotted-quad notation of the address, `"a.b.c.d"`.
    pub fn to_quad(&self) -> (r: String)
        ensures
            r@ == quad_chars(*self),
    {
        let mut bytes: Vec<u8> = Vec::new();
        push_dec(&mut bytes, self.o0);
        bytes.push(46);
        push_dec(&mut bytes, self.o1);
        bytes.push(46);
        push_dec(&mut bytes, self.o2);
        bytes.push(46);
        push_dec(&mut bytes, self.o3);
        proof {
            let chars = quad_chars(*self);
            lemma_quad_chars_ascii(*self);
            lemma_quad_chars_bytes(*self);
            assert(bytes@ =~= ascii_bytes(chars));
            lemma_ascii_decodes(chars);
        }
        match crate::packet::string_from_utf8(bytes) {
            Some(s) => s,
            None => String::new(),
        }
    }
}

/// The decimal notation of a byte holds ASCII characters only.
proof fn lemma_dec_chars_ascii(n: u8)
    ensures
        is_ascii_chars(dec_chars(n)),
{
    assert forall|i: int| 0 <= i < dec_chars(n).len() implies '\0' <= #[trigger] dec_chars(
        n,
    )[i] <= '\u{7f}' by {
        if n >= 100 {
            lemma_digit_char_ascii((n / 100) as u8);
            lemma_digit_char_ascii(((n / 10) % 10) as u8);
            lemma_digit_char_ascii((n % 10) as u8);
        } else if n >= 10 {
            lemma_digit_char_ascii((n / 10) as u8);
            lemma_digit_char_ascii((n % 10) as u8);
        } else {
            lemma_digit_char_ascii(n);
        }
    }
}

/// A decimal digit's character is ASCII.
proof fn lemma_digit_char_ascii(d: u8)
    requires
        d < 10,
    ensures
        '\0' <= digit_char(d) <= '\u{7f}',
{
}

/// The dotted-quad notation holds ASCII characters only.
proof fn lemma_quad_chars_ascii(ip: IpAddress)
    ensures
        is_ascii_chars(quad_chars(ip)),
{
    broadcast use vstd::utf8::is_ascii_chars_concat;

    lemma_dec_chars_ascii(ip.octets()[0]);
    lemma_dec_chars_ascii(ip.octets()[1]);
    lemma_dec_chars_ascii(ip.octets()[2]);
    lemma_dec_chars_ascii(ip.octets()[3]);
    assert(is_ascii_chars(seq!['.'])) by {
        assert(seq!['.'][0] == '.');
    }
}

/// The ASCII bytes of the dotted-quad notation, piece by piece.
proof fn lemma_quad_chars_bytes(ip: IpAddress)
    ensures
        ascii_bytes(quad_chars(ip)) == ascii_bytes(dec_chars(ip.octets()[0])) + seq![46u8]
            + ascii_bytes(dec_chars(ip.octets()[1])) + seq![46u8] + ascii_bytes(
            dec_chars(ip.octets()[2]),
        ) + seq![46u8] + ascii_bytes(dec_chars(ip.octets()[3])),
{
    assert(ascii_bytes(seq!['.']) =~= seq![46u8]);
    assert(ascii_bytes(quad_chars(ip)) =~= ascii_bytes(dec_chars(ip.octets()[0])) + seq![46u8]
        + ascii_bytes(dec_chars(ip.octets()[1])) + seq![46u8] + ascii_bytes(
        dec_chars(ip.octets()[2]),
    ) + seq![46u8] + ascii_bytes(dec_chars(ip.octets()[3])));
}

/// Appends the decimal notation of `n` as ASCII bytes.
fn push_dec(out: &mut Vec<u8>, n: u8)
    ensures
        final(out)@ == old(out)@ + ascii_bytes(dec_chars(n)),
{
    if n >= 100 {
        out.push(48 + n / 100);
        out.push(48 + (n / 10) % 10);
        out.push(48 + n % 10);
    } else if n >= 10 {
        out.push(48 + n / 10);
        out.push(48 + n % 10);
    } else {
        out.push(48 + n);
    }
    proof {
        assert(final(out)@ =~= old(out)@ + ascii_bytes(dec_chars(n)));
    }
}

/// Whether `c` is an ASCII decimal digit.
pub open spec fn is_dec_digit(c: char) -> bool {
    48 <= c as u32 && c as u32 <= 57
}

/// Every character of a byte's decimal notation is a decimal digit.
proof fn lemma_dec_chars_digits(n: u8)
    ensures
        forall|i: int| 0 <= i < dec_chars(n).len() ==> is_dec_digit(#[trigger] dec_chars(n)[i]),
        1 <= dec_chars(n).len() <= 3,
{
}

/// The decimal notation never starts with a superfluous zero.
proof fn lemma_dec_chars_no_leading_zero(n: u8)
    requires
        dec_chars(n).len() >= 2,
    ensures
        dec_chars(n)[0] != digit_char(0),
{
}

/// The digits of the decimal notation recombine to the value.
proof fn lemma_dec_chars_value(n: u8)
    ensures
        dec_chars(n).len() == 3 ==> n == 100 * (dec_chars(n)[0] as u32 - 48) + 10 * (dec_chars(
            n,
        )[1] as u32 - 48) + (dec_chars(n)[2] as u32 - 48),
        dec_chars(n).len() == 2 ==> n == 10 * (dec_chars(n)[0] as u32 - 48) + (dec_chars(
            n,
        )[1] as u32 - 48),
        dec_chars(n).len() == 1 ==> n == dec_chars(n)[0] as u32 - 48,
{
}

/// A character with a digit's code point is that digit's character.
proof fn lemma_char_code_eq(c: char, d: u8)
    requires
        d < 10,
        c as u32 == 48 + d,
    ensures
        c == digit_char(d),
{
    vstd::utf8::char_u32_cast(c, c as u32);
}

/// Parses one segment of a dotted quad: `v[start .. end]` must be the
/// canonical decimal notation of a byte (one to three digits, no leading
/// zero, at most 255), and the parse succeeds exactly then.
fn parse_octet(v: &Vec<char>, start: usize, end: usize) -> (r: Option<u8>)
    requires
        start <= end <= v@.len(),
    ensures
        r matches Some(n) ==> v@.subrange(start as int, end as int) == dec_chars(n),
        r is None ==> forall|n: u8| v@.subrange(start as int, end as int) != dec_chars(n),
{
    let ghost seg = v@.subrange(start as int, end as int);
    let len: usize = end - start;
    if len == 0 || len > 3 {
        proof {
            assert forall|n: u8| seg != dec_chars(n) by {
                lemma_dec_chars_digits(n);
            }
        }
        return None;
    }
    let mut i: usize = start;
    while i < end
        invariant
            start <= i <= end <= v@.len(),
            seg == v@.subrange(start as int, end as int),
            forall|j: int| start <= j < i ==> is_dec_digit(#[trigger] v@[j]),
        decreases end - i,
    {
        let c: char = v[i];
        if (c as u32) < 48 || (c as u32) > 57 {
            proof {
                assert forall|n: u8| seg != dec_chars(n) by {
                    lemma_dec_chars_digits(n);
                    if seg == dec_chars(n) {
                        let k: int = i - start;
                        assert(seg[k] == v@[start + k]);
                        assert(is_dec_digit(dec_chars(n)[k]));
                        assert(false);
                    }
                }
            }
            return None;
        }
        i = i + 1;
    }
    if len >= 2 && (v[start] as u32) == 48 {
        proof {
            assert forall|n: u8| seg != dec_chars(n) by {
                if seg == dec_chars(n) {
                    lemma_dec_chars_no_leading_zero(n);
                    assert(seg[0] == v@[start as int]);
                }
            }
        }
        return None;
    }
    let value: u32 = if len == 3 {
        100 * (v[start] as u32 - 48) + 10 * (v[start + 1] as u32 - 48) + (v[start + 2] as u32 - 48)
    } else if len == 2 {
        10 * (v[start] as u32 - 48) + (v[start + 1] as u32 - 48)
    } else {
        v[start] as u32 - 48
    };
    if value > 255 {
        proof {
            assert forall|n: u8| seg != dec_chars(n) by {
                if seg == dec_chars(n) {
                    lemma_dec_chars_value(n);
                }
            }
        }
        return None;
    }
    proof {
        let n = value as u8;
        let d0 = (v@[start as int] as u32 - 48) as u8;
        assert(seg[0] == v@[start as int]);
        if len == 3 {
            let d1 = (v@[start + 1] as u32 - 48) as u8;
            let d2 = (v@[start + 2] as u32 - 48) as u8;
            assert(seg[1] == v@[start + 1]);
            assert(seg[2] == v@[start + 2]);
            assert(d0 >= 1);
            assert(n >= 100);
            assert(n as u32 / 100 == d0 as u32 && (n as u32 / 10) % 10 == d1 as u32 && n as u32
                % 10 == d2 as u32) by (nonlinear_arith)
                requires
                    n as u32 == 100 * (d0 as u32) + 10 * (d1 as u32) + (d2 as u32),
                    1 <= d0 <= 9,
                    0 <= d1 <= 9,
                    0 <= d2 <= 9,
            ;
            lemma_char_code_eq(seg[0], d0);
            lemma_char_code_eq(seg[1], d1);
            lemma_char_code_eq(seg[2], d2);
            assert(seg =~= dec_chars(n));
        } else if len == 2 {
            let d1 = (v@[start + 1] as u32 - 48) as u8;
            assert(seg[1] == v@[start + 1]);
            assert(d0 >= 1);
            assert(10 <= n < 100);
            assert(n as u32 / 10 == d0 as u32 && n as u32 % 10 == d1 as u32) by (nonlinear_arith)
                requires
                    n as u32 == 10 * (d0 as u32) + (d1 as u32),
                    1 <= d0 <= 9,
                    0 <= d1 <= 9,
            ;
            lemma_char_code_eq(seg[0], d0);
            lemma_char_code_eq(seg[1], d1);
            assert(seg =~= dec_chars(n));
        } else {
            assert(n < 10);
            lemma_char_code_eq(seg[0], n);
            assert(seg =~= dec_chars(n));
        }
    }
    Some(value as u8)
}

/// The placement of every piece of a dotted-quad notation: the three dots,
/// digits everywhere else, and the four decimal segments between them.
proof fn lemma_quad_chars_structure(ip: IpAddress)
    ensures
        ({
            let q = quad_chars(ip);
            let l0 = dec_chars(ip.octets()[0]).len() as int;
            let l1 = dec_chars(ip.octets()[1]).len() as int;
            let l2 = dec_chars(ip.octets()[2]).len() as int;
            let l3 = dec_chars(ip.octets()[3]).len() as int;
            &&& q.len() == l0 + l1 + l2 + l3 + 3
            &&& 7 <= q.len() <= 15
            &&& q[l0] == '.'
            &&& q[l0 + 1 + l1] == '.'
            &&& q[l0 + 2 + l1 + l2] == '.'
            &&& forall|i: int|
                0 <= i < q.len() && i != l0 && i != l0 + 1 + l1 && i != l0 + 2 + l1 + l2
                    ==> is_dec_digit(#[trigger] q[i])
            &&& q.subrange(0, l0) == dec_chars(ip.octets()[0])
            &&& q.subrange(l0 + 1, l0 + 1 + l1) == dec_chars(ip.octets()[1])
            &&& q.subrange(l0 + 2 + l1, l0 + 2 + l1 + l2) == dec_chars(ip.octets()[2])
            &&& q.subrange(l0 + 3 + l1 + l2, q.len() as int) == dec_chars(ip.octets()[3])
        }),
{
    let q = quad_chars(ip);
    let d0 = dec_chars(ip.octets()[0]);
    let d1 = dec_chars(ip.octets()[1]);
    let d2 = dec_chars(ip.octets()[2]);
    let d3 = dec_chars(ip.octets()[3]);
    lemma_dec_chars_digits(ip.octets()[0]);
    lemma_dec_chars_digits(ip.octets()[1]);
    lemma_dec_chars_digits(ip.octets()[2]);
    lemma_dec_chars_digits(ip.octets()[3]);
    let m0 = d0.len() as int;
    let m1 = d1.len() as int;
    let m2 = d2.len() as int;
    assert(q.subrange(0, m0) =~= d0);
    assert(q.subrange(m0 + 1, m0 + 1 + m1) =~= d1);
    assert(q.subrange(m0 + 2 + m1, m0 + 2 + m1 + m2) =~= d2);
    assert(q.subrange(m0 + 3 + m1 + m2, q.len() as int) =~= d3);
}

/// Collects the characters of a string.
fn str_chars(s: &str) -> (v: Vec<char>)
    ensures
        v@ == s@,
{
    let n: usize = s.unicode_len();
    let mut v: Vec<char> = Vec::new();
    let mut i: usize = 0;
    while i < n
        invariant
            i <= n,
            n == s@.len(),
            v@ == s@.subrange(0, i as int),
        decreases n - i,
    {
        let c: char = s.get_char(i);
        v.push(c);
        proof {
            assert(v@ =~= s@.subrange(0, i + 1));
        }
        i = i + 1;
    }
    proof {
        assert(s@.subrange(0, s@.len() as int) =~= s@);
    }
    v
}

/// The indices of every dot in `v`, in increasing order.
fn dot_positions(v: &Vec<char>) -> (d: Vec<usize>)
    ensures
        forall|k: int| 0 <= k < d@.len() ==> #[trigger] d@[k] < v@.len(),
        forall|k: int| 0 <= k < d@.len() ==> v@[#[trigger] d@[k] as int] == '.',
        forall|k1: int, k2: int| 0 <= k1 < k2 < d@.len() ==> d@[k1] < d@[k2],
        forall|i: int|
            0 <= i < v@.len() && v@[i] == '.' ==> exists|k: int|
                0 <= k < d@.len() && #[trigger] d@[k] == i,
{
    let mut d: Vec<usize> = Vec::new();
    let mut i: usize = 0;
    while i < v.len()
        invariant
            i <= v@.len(),
            forall|k: int| 0 <= k < d@.len() ==> #[trigger] d@[k] < i,
            forall|k: int| 0 <= k < d@.len() ==> v@[#[trigger] d@[k] as int] == '.',
            forall|k1: int, k2: int| 0 <= k1 < k2 < d@.len() ==> d@[k1] < d@[k2],
            forall|j: int|
                0 <= j < i && v@[j] == '.' ==> exists|k: int|
                    0 <= k < d@.len() && #[trigger] d@[k] == j,
        decreases v@.len() - i,
    {
        let c: char = v[i];
        if c == '.' {
            let ghost d0 = d@;
            d.push(i);
            proof {
                assert(d@[d@.len() - 1] == i);
                assert(forall|k: int| 0 <= k < d0.len() ==> d@[k] == d0[k]);
            }
        }
        i = i + 1;
    }
    d
}

impl IpAddress {
    /// Parses a dotted-quad string, `"a.b.c.d"`: succeeds exactly on the
    /// canonical notation of some address (each octet in shortest decimal
    /// form), and returns that address.
    #[verifier::rlimit(80)]
    pub fn from_quad(s: &str) -> (r: Option<Self>)
        ensures
            r matches Some(ip) ==> s@ == quad_chars(ip),
            r is None ==> forall|ip: IpAddress| s@ != quad_chars(ip),
    {
        let n: usize = s.unicode_len();
        if n < 7 || n > 15 {
            proof {
                assert forall|ip: IpAddress| s@ != quad_chars(ip) by {
                    lemma_quad_chars_structure(ip);
                }
            }
            return None;
        }
        let chars: Vec<char> = str_chars(s);
        let dots: Vec<usize> = dot_positions(&chars);
        if dots.len() != 3 {
            proof {
                assert forall|ip: IpAddress| s@ != quad_chars(ip) by {
                    if s@ == quad_chars(ip) {
                        lemma_quad_chars_structure(ip);
                        let l0 = dec_chars(ip.octets()[0]).len() as int;
                        let l1 = dec_chars(ip.octets()[1]).len() as int;
                        let l2 = dec_chars(ip.octets()[2]).len() as int;
                        let q1 = l0;
                        let q2 = l0 + 1 + l1;
                        let q3 = l0 + 2 + l1 + l2;
                        assert(s@[q1] == '.' && s@[q2] == '.' && s@[q3] == '.');
                        let k1 = choose|k: int| 0 <= k < dots@.len() && #[trigger] dots@[k] == q1;
                        let k2 = choose|k: int| 0 <= k < dots@.len() && #[trigger] dots@[k] == q2;
                        let k3 = choose|k: int| 0 <= k < dots@.len() && #[trigger] dots@[k] == q3;
                        assert(k1 != k2 && k2 != k3 && k1 != k3);
                        assert(dots@.len() >= 3);
                        assert(dots@.len() >= 4);
                        assert(v_is_one_of_dots(s@, ip, dots@[0] as int));
                        assert(v_is_one_of_dots(s@, ip, dots@[1] as int));
                        assert(v_is_one_of_dots(s@, ip, dots@[2] as int));
                        assert(v_is_one_of_dots(s@, ip, dots@[3] as int));
                        assert(false);
                    }
                }
            }
            return None;
        }
        let p1: usize = dots[0];
        let p2: usize = dots[1];
        let p3: usize = dots[2];
        let o0 = parse_octet(&chars, 0, p1);
        let o1 = parse_octet(&chars, p1 + 1, p2);
        let o2 = parse_octet(&chars, p2 + 1, p3);
        let o3 = parse_octet(&chars, p3 + 1, n);
        proof {
            assert forall|ip: IpAddress| s@ == quad_chars(ip) implies dots_are_canonical(
                s@,
                ip,
                dots@,
            ) by {
                lemma_dots_canonical(s@, ip, dots@);
            }
        }
        match (o0, o1, o2, o3) {
            (Some(a), Some(b), Some(c), Some(d)) => {
                let ip = Self::new(a, b, c, d);
                proof {
                    lemma_quad_chars_structure(ip);
                    let q = quad_chars(ip);
                    assert(s@.subrange(0, p1 as int) == dec_chars(a));
                    assert(p1 == dec_chars(a).len());
                    assert(p2 - p1 - 1 == dec_chars(b).len());
                    assert(p3 - p2 - 1 == dec_chars(c).len());
                    assert(n - p3 - 1 == dec_chars(d).len());
                    assert(s@ =~= q) by {
                        assert(q.len() == s@.len());
                        assert forall|i: int| 0 <= i < s@.len() implies s@[i] == q[i] by {
                            let l0 = p1 as int;
                            let l1 = p2 - p1 - 1;
                            let l2 = p3 - p2 - 1;
                            if i < l0 {
                                assert(s@.subrange(0, l0)[i] == s@[i]);
                                assert(q.subrange(0, l0)[i] == q[i]);
                            } else if i == l0 {
                                assert(s@[i] == '.');
                            } else if i < l0 + 1 + l1 {
                                assert(s@.subrange(l0 + 1, l0 + 1 + l1)[i - l0 - 1] == s@[i]);
                                assert(q.subrange(l0 + 1, l0 + 1 + l1)[i - l0 - 1] == q[i]);
                            } else if i == l0 + 1 + l1 {
                                assert(s@[i] == '.');
                            } else if i < l0 + 2 + l1 + l2 {
                                assert(s@.subrange(l0 + 2 + l1, l0 + 2 + l1 + l2)[i - l0 - 2 - l1]
                                    == s@[i]);
                                assert(q.subrange(l0 + 2 + l1, l0 + 2 + l1 + l2)[i - l0 - 2 - l1]
                                    == q[i]);
                            } else if i == l0 + 2 + l1 + l2 {
                                assert(s@[i] == '.');
                            } else {
                                assert(s@.subrange(l0 + 3 + l1 + l2, s@.len() as int)[i - l0 - 3
                                    - l1 - l2] == s@[i]);
                                assert(q.subrange(l0 + 3 + l1 + l2, q.len() as int)[i - l0 - 3 - l1
                                    - l2] == q[i]);
                            }
                        }
                    }
                }
                Some(ip)
            },
            _ => {
                proof {
                    assert forall|ip: IpAddress| s@ != quad_chars(ip) by {
                        if s@ == quad_chars(ip) {
                            lemma_quad_chars_structure(ip);
                            assert(dots_are_canonical(s@, ip, dots@));
                            let l0 = dec_chars(ip.octets()[0]).len() as int;
                            let l1 = dec_chars(ip.octets()[1]).len() as int;
                            let l2 = dec_chars(ip.octets()[2]).len() as int;
                            assert(s@.subrange(0, l0) == dec_chars(ip.octets()[0]));
                            assert(s@.subrange(l0 + 1, l0 + 1 + l1) == dec_chars(ip.octets()[1]));
                            assert(s@.subrange(l0 + 2 + l1, l0 + 2 + l1 + l2) == dec_chars(
                                ip.octets()[2],
                            ));
                            assert(s@.subrange(l0 + 3 + l1 + l2, s@.len() as int) == dec_chars(
                                ip.octets()[3],
                            ));
                            assert(false);
                        }
                    }
                }
                None
            },
        }
    }
}

/// Two addresses with the same dotted-quad notation are the same address:
/// together with the contracts of `to_quad` and `from_quad`, parsing a
/// formatted address gives exactly that address back.
#[verifier::rlimit(80)]
pub proof fn lemma_quad_chars_injective(ip1: IpAddress, ip2: IpAddress)
    requires
        quad_chars(ip1) == quad_chars(ip2),
    ensures
        ip1 == ip2,
{
    lemma_quad_chars_structure(ip1);
    lemma_quad_chars_structure(ip2);
    let q = quad_chars(ip1);
    let a0 = dec_chars(ip1.octets()[0]).len() as int;
    let a1 = dec_chars(ip1.octets()[1]).len() as int;
    let a2 = dec_chars(ip1.octets()[2]).len() as int;
    let b0 = dec_chars(ip2.octets()[0]).len() as int;
    let b1 = dec_chars(ip2.octets()[1]).len() as int;
    let b2 = dec_chars(ip2.octets()[2]).len() as int;
    assert(a0 == b0) by {
        if a0 < b0 {
            assert(is_dec_digit(q[a0]));
        } else if b0 < a0 {
            assert(is_dec_digit(q[b0]));
        }
    }
    assert(a1 == b1) by {
        if a1 < b1 {
            assert(is_dec_digit(q[a0 + 1 + a1]));
        } else if b1 < a1 {
            assert(is_dec_digit(q[a0 + 1 + b1]));
        }
    }
    assert(a2 == b2) by {
        if a2 < b2 {
            assert(is_dec_digit(q[a0 + 2 + a1 + a2]));
        } else if b2 < a2 {
            assert(is_dec_digit(q[a0 + 2 + a1 + b2]));
        }
    }
    assert(dec_chars(ip1.octets()[0]) == dec_chars(ip2.octets()[0]));
    assert(dec_chars(ip1.octets()[1]) == dec_chars(ip2.octets()[1]));
    assert(dec_chars(ip1.octets()[2]) == dec_chars(ip2.octets()[2]));
    assert(dec_chars(ip1.octets()[3]) == dec_chars(ip2.octets()[3]));
    lemma_dec_chars_eq_values(ip1.octets()[0], ip2.octets()[0]);
    lemma_dec_chars_eq_values(ip1.octets()[1], ip2.octets()[1]);
    lemma_dec_chars_eq_values(ip1.octets()[2], ip2.octets()[2]);
    lemma_dec_chars_eq_values(ip1.octets()[3], ip2.octets()[3]);
    assert(ip1.octets()[0] == ip2.octets()[0]);
    assert(ip1.octets()[1] == ip2.octets()[1]);
    assert(ip1.octets()[2] == ip2.octets()[2]);
    assert(ip1.octets()[3] == ip2.octets()[3]);
}

/// Equal decimal notations come from equal values.
proof fn lemma_dec_chars_eq_values(n1: u8, n2: u8)
    requires
        dec_chars(n1) == dec_chars(n2),
    ensures
        n1 == n2,
{
    lemma_dec_chars_value(n1);
    lemma_dec_chars_value(n2);
}

/// Whether index `i` holds one of the three dots of `ip`'s notation in `s`.
spec fn v_is_one_of_dots(s: Seq<char>, ip: IpAddress, i: int) -> bool {
    let l0 = dec_chars(ip.octets()[0]).len() as int;
    let l1 = dec_chars(ip.octets()[1]).len() as int;
    let l2 = dec_chars(ip.octets()[2]).len() as int;
    i == l0 || i == l0 + 1 + l1 || i == l0 + 2 + l1 + l2
}

/// Whether the scanned dot list is exactly the three dots of `ip`'s
/// notation, in order.
spec fn dots_are_canonical(s: Seq<char>, ip: IpAddress, dots: Seq<usize>) -> bool {
    let l0 = dec_chars(ip.octets()[0]).len() as int;
    let l1 = dec_chars(ip.octets()[1]).len() as int;
    let l2 = dec_chars(ip.octets()[2]).len() as int;
    dots.len() == 3 && dots[0] == l0 && dots[1] == l0 + 1 + l1 && dots[2] == l0 + 2 + l1 + l2
}

/// A three-element scan of the dots of a canonical notation sits exactly on
/// the notation's three dots.
proof fn lemma_dots_canonical(s: Seq<char>, ip: IpAddress, dots: Seq<usize>)
    requires
        s == quad_chars(ip),
        dots.len() == 3,
        forall|k: int| 0 <= k < dots.len() ==> #[trigger] dots[k] < s.len(),
        forall|k: int| 0 <= k < dots.len() ==> s[#[trigger] dots[k] as int] == '.',
        forall|k1: int, k2: int| 0 <= k1 < k2 < dots.len() ==> dots[k1] < dots[k2],
        forall|i: int|
            0 <= i < s.len() && s[i] == '.' ==> exists|k: int|
                0 <= k < dots.len() && #[trigger] dots[k] == i,
    ensures
        dots_are_canonical(s, ip, dots),
{
    lemma_quad_chars_structure(ip);
    let l0 = dec_chars(ip.octets()[0]).len() as int;
    let l1 = dec_chars(ip.octets()[1]).len() as int;
    let l2 = dec_chars(ip.octets()[2]).len() as int;
    let q1 = l0;
    let q2 = l0 + 1 + l1;
    let q3 = l0 + 2 + l1 + l2;
    assert(v_is_one_of_dots(s, ip, dots[0] as int));
    assert(v_is_one_of_dots(s, ip, dots[1] as int));
    assert(v_is_one_of_dots(s, ip, dots[2] as int));
    let k1 = choose|k: int| 0 <= k < dots.len() && #[trigger] dots[k] == q1;
    let k2 = choose|k: int| 0 <= k < dots.len() && #[trigger] dots[k] == q2;
    let k3 = choose|k: int| 0 <= k < dots.len() && #[trigger] dots[k] == q3;
    assert(dots[k1] == q1 && dots[k2] == q2 && dots[k3] == q3);
    assert(k1 == 0 && k2 == 1 && k3 == 2);
}

/// An ASCII character run comes back unchanged from a UTF-8 decode of its
/// bytes.
proof fn lemma_ascii_decodes(s: Seq<char>)
    requires
        is_ascii_chars(s),
    ensures
        valid_utf8(ascii_bytes(s)),
        decode_utf8(ascii_bytes(s)) == s,
{
    is_ascii_chars_encode_utf8(s);
    assert(encode_utf8(s) =~= ascii_bytes(s));
    encode_utf8_valid_utf8(s);
    encode_utf8_decode_utf8(s);
}

impl From<u32> for IpAddress {
    /// Builds the address whose integer form is `value`.
    fn from(value: u32) -> (r: Self) {
        Self {
            o0: (value / 0x1000000) as u8,
            o1: ((value / 0x10000) % 0x100) as u8,
            o2: ((value / 0x100) % 0x100) as u8,
            o3: (value % 0x100) as u8,
        }
    }
}

impl vstd::std_specs::convert::FromSpecImpl<u32> for IpAddress {
    open spec fn obeys_from_spec() -> bool {
        true
    }

    open spec fn from_spec(v: u32) -> Self {
        ip_from_int(v)
    }
}

} // verus!
