//! IP addresses and addresses with a network length, as plain values, and
//! the parsing and printing of them by `std::net` and the `cidr` crate.
use crate::text::{decimal, digit_char, split};
use std::str::FromStr;
use vstd::prelude::*;

verus! {

/// An IPv4 address as its 32 bits, or an IPv6 address as its 128 bits.
#[derive(Debug, PartialEq, Eq, Clone, Copy)]
pub enum IpAddr {
    V4(u32),
    V6(u128),
}

/// An address together with the length of its network prefix.
#[derive(Debug, PartialEq, Eq, Clone, Copy)]
pub struct IpInet {
    pub address: IpAddr,
    pub network_length: u8,
}

/// What `cidr::IpInet::from_str` yields for a string: an address with an
/// optional `/length` suffix, where a bare address is a host (its length is
/// the address width).
pub uninterp spec fn inet_parse(s: Seq<char>) -> Option<IpInet>;

/// What `cidr::IpInet`'s `Display` writes for an address with a valid
/// network length.
pub uninterp spec fn inet_display(i: IpInet) -> Seq<char>;

/// Whether `c` is a decimal digit.
pub open spec fn is_digit(c: char) -> bool {
    '0' <= c && c <= '9'
}

/// The value of a nonempty run of decimal digits.
pub open spec fn digits_value(t: Seq<char>) -> int
    decreases t.len(),
{
    if t.len() == 0 {
        0
    } else {
        digits_value(t.drop_last()) * 10 + (t.last() as int - '0' as int)
    }
}

/// Whether `t` is a nonempty run of decimal digits.
pub open spec fn all_digits(t: Seq<char>) -> bool {
    t.len() > 0 && forall|k: int| 0 <= k < t.len() ==> is_digit(#[trigger] t[k])
}

/// The position of the last `/` of `s`.
pub open spec fn last_slash(s: Seq<char>) -> Option<int>
    decreases s.len(),
{
    if s.len() == 0 {
        None
    } else if s.last() == '/' {
        Some(s.len() - 1)
    } else {
        last_slash(s.drop_last())
    }
}

/// A network length as `u8::from_str` reads it: an optional `+`, then
/// decimal digits whose value fits in a byte.
pub open spec fn prefix_length_parse(t: Seq<char>) -> Option<u8> {
    let d = if t.len() > 0 && t[0] == '+' {
        t.skip(1)
    } else {
        t
    };
    if all_digits(d) && digits_value(d) <= 255 {
        Some(digits_value(d) as u8)
    } else {
        None
    }
}

/// One part of a dotted-decimal IPv4 address as `std::net::Ipv4Addr`
/// reads it: one to three decimal digits without a leading zero, at most
/// 255.
pub open spec fn octet_parse(t: Seq<char>) -> Option<int> {
    if all_digits(t) && t.len() <= 3 && (t.len() == 1 || t[0] != '0') && digits_value(t) <= 255 {
        Some(digits_value(t))
    } else {
        None
    }
}

/// The bits of a dotted-decimal IPv4 address, as `std::net::Ipv4Addr`
/// reads it: four octets separated by `.`, and nothing else.
pub open spec fn ipv4_parse(t: Seq<char>) -> Option<u32> {
    let parts = split(t, '.');
    if parts.len() == 4 && octet_parse(parts[0]) is Some && octet_parse(parts[1]) is Some
        && octet_parse(parts[2]) is Some && octet_parse(parts[3]) is Some {
        Some(
            (octet_parse(parts[0]).unwrap() * 16777216 + octet_parse(parts[1]).unwrap() * 65536
                + octet_parse(parts[2]).unwrap() * 256 + octet_parse(parts[3]).unwrap()) as u32,
        )
    } else {
        None
    }
}

/// An IPv4 address in dotted-decimal form, as `std::net::Ipv4Addr`'s
/// `Display` writes it.
pub open spec fn ipv4_text(v: u32) -> Seq<char> {
    decimal((v / 16777216) as nat) + seq!['.'] + decimal(((v / 65536) % 256) as nat) + seq!['.']
        + decimal(((v / 256) % 256) as nat) + seq!['.'] + decimal((v % 256) as nat)
}

/// Whether a reading gave an IPv4 address.
pub open spec fn reads_v4(r: Option<IpInet>) -> bool {
    r matches Some(i) && i.address is V4
}

/// The IPv4 address `v` with the network length `len`, which must have
/// been read and be at most 32.
pub open spec fn v4_with_length(v: u32, len: Option<u8>) -> Option<IpInet> {
    match len {
        Some(l) => if l <= 32 {
            Some(IpInet { address: IpAddr::V4(v), network_length: l })
        } else {
            None
        },
        None => None,
    }
}

/// What the source of `cidr` shows of reading `s` as `r`. Without a `/`,
/// the text is one address (IPv4 when it is dotted decimal) and is read as
/// a host. With one, the text after the last `/` is the network length and
/// the text before it the address; a length above the address width is
/// refused.
pub open spec fn inet_reading(s: Seq<char>, r: Option<IpInet>) -> bool {
    match last_slash(s) {
        None => {
            &&& r matches Some(i) ==> i.network_length == i.address.spec_bits()
            &&& reads_v4(r) <==> ipv4_parse(s) is Some
            &&& ipv4_parse(s) matches Some(v) ==> r == Some(IpAddr::V4(v).host())
        },
        Some(p) => {
            let len = prefix_length_parse(s.skip(p + 1));
            &&& r matches Some(i) ==> len == Some(i.network_length)
            &&& reads_v4(r) <==> (ipv4_parse(s.take(p)) is Some && v4_with_length(0, len) is Some)
            &&& ipv4_parse(s.take(p)) matches Some(v) ==> r == v4_with_length(v, len)
        },
    }
}

/// What the source of `cidr` shows of the text `t` written for `i`: a host
/// is written as its bare address and any other network as the address,
/// `/` and the length in decimal; an IPv4 address is written in dotted
/// decimal.
pub open spec fn inet_writing(i: IpInet, t: Seq<char>) -> bool {
    match i.address {
        IpAddr::V4(v) => t == if i.network_length == 32 {
            ipv4_text(v)
        } else {
            ipv4_text(v) + seq!['/'] + decimal(i.network_length as nat)
        },
        IpAddr::V6(_) => i.network_length < 128 ==> t == inet_display(i.address.host()) + seq![
            '/',
        ] + decimal(i.network_length as nat),
    }
}

/// Parses with `cidr::IpInet::from_str`, which splits at the last `/`,
/// reads the address with `std::net::IpAddr::from_str` and the length with
/// `u8::from_str`, and refuses a length above the address width. The
/// contract names the result and states that structure and the IPv4
/// grammar (`inet_reading`); the IPv6 grammar is left to the name.
#[verifier::external_body]
fn cidr_parse_inet(s: &str) -> (r: Option<IpInet>)
    ensures
        r == inet_parse(s@),
        r matches Some(i) ==> i.network_length <= i.address.spec_bits(),
        inet_reading(s@, r),
{
    match cidr::IpInet::from_str(s) {
        Ok(cidr::IpInet::V4(i)) => Some(
            IpInet { address: IpAddr::V4(u32::from(i.address())), network_length: i.network_length() },
        ),
        Ok(cidr::IpInet::V6(i)) => Some(
            IpInet { address: IpAddr::V6(u128::from(i.address())), network_length: i.network_length() },
        ),
        Err(_) => None,
    }
}

/// Writes an address with a network length with the `Display` of
/// `cidr::IpInet`: the address alone for a host, else the address, `/` and
/// the length; the address with the `Display` of `std::net`. The contract
/// names the text and states that structure and the IPv4 form
/// (`inet_writing`); the IPv6 form is left to the name.
#[verifier::external_body]
fn cidr_display_inet(i: &IpInet) -> (r: String)
    requires
        i.network_length <= i.address.spec_bits(),
    ensures
        r@ == inet_display(*i),
        inet_writing(*i, r@),
{
    match i.address {
        IpAddr::V4(v) => match cidr::Ipv4Inet::new(v.into(), i.network_length) {
            Ok(c) => c.to_string(),
            Err(_) => String::new(),
        },
        IpAddr::V6(v) => match cidr::Ipv6Inet::new(v.into(), i.network_length) {
            Ok(c) => c.to_string(),
            Err(_) => String::new(),
        },
    }
}

impl IpAddr {
    /// The number of bits of the address.
    pub open spec fn spec_bits(self) -> u8 {
        match self {
            IpAddr::V4(_) => 32,
            IpAddr::V6(_) => 128,
        }
    }

    pub fn bits(&self) -> (r: u8)
        ensures
            r == self.spec_bits(),
    {
        match self {
            IpAddr::V4(_) => 32,
            IpAddr::V6(_) => 128,
        }
    }

    /// The host network of the address (its length is the address width).
    pub open spec fn host(self) -> IpInet {
        IpInet { address: self, network_length: self.spec_bits() }
    }

    /// The address in its usual textual form: `cidr` writes a host network
    /// as its bare address, with the `Display` of `std::net::IpAddr`; an
    /// IPv4 address in dotted decimal.
    pub fn to_string(&self) -> (r: String)
        ensures
            r@ == inet_display(self.host()),
            self matches IpAddr::V4(v) ==> r@ == ipv4_text(*v),
    {
        let h = IpInet { address: *self, network_length: self.bits() };
        cidr_display_inet(&h)
    }
}

/// The address that a text denotes, as `std::net::IpAddr::from_str` reads
/// it. `cidr` reads a text without `/` with that very parser, as a host, and
/// the address grammar has no `/`; so this is the address of `cidr`'s
/// reading when the text has no `/`, and nothing otherwise.
pub open spec fn addr_parse(s: Seq<char>) -> Option<IpAddr> {
    if s.contains('/') {
        None
    } else {
        match inet_parse(s) {
            Some(i) => Some(i.address),
            None => None,
        }
    }
}

proof fn lemma_no_slash(s: Seq<char>)
    requires
        forall|j: int| 0 <= j < s.len() ==> s[j] != '/',
    ensures
        last_slash(s) is None,
    decreases s.len(),
{
    if s.len() > 0 {
        lemma_no_slash(s.drop_last());
    }
}

impl IpInet {
    /// Parses an address with an optional `/length` suffix.
    pub fn parse(s: &str) -> (r: Option<IpInet>)
        ensures
            r == inet_parse(s@),
            r matches Some(i) ==> i.network_length <= i.address.spec_bits(),
            inet_reading(s@, r),
    {
        cidr_parse_inet(s)
    }

    /// The length of the network prefix.
    pub fn network_length(&self) -> (r: u8)
        ensures
            r == self.network_length,
    {
        self.network_length
    }

    /// The text of the address, as `cidr::IpInet`'s `Display` writes it.
    pub fn to_string(&self) -> (r: String)
        requires
            self.network_length <= self.address.spec_bits(),
        ensures
            r@ == inet_display(*self),
            inet_writing(*self, r@),
    {
        cidr_display_inet(self)
    }
}

impl IpAddr {
    /// Parses an IPv4 or IPv6 address.
    pub fn parse(s: &str) -> (r: Option<IpAddr>)
        ensures
            r == addr_parse(s@),
            forall|v: u32|
                r == Some(IpAddr::V4(v)) <==> (!s@.contains('/') && ipv4_parse(s@) == Some(v)),
    {
        let n = s.unicode_len();
        let mut i: usize = 0;
        while i < n
            invariant
                n == s@.len(),
                0 <= i <= n,
                forall|j: int| 0 <= j < i ==> s@[j] != '/',
            decreases n - i,
        {
            if s.get_char(i) == '/' {
                assert(s@.contains('/')) by {
                    assert(s@[i as int] == '/');
                }
                return None;
            }
            i = i + 1;
        }
        proof {
            lemma_no_slash(s@);
        }
        match IpInet::parse(s) {
            Some(inet) => Some(inet.address),
            None => None,
        }
    }
}


// ---------------------------------------------------------------------------
// Reading back what is written.

/// A number written in decimal is a run of digits whose value is the
/// number, without a leading zero, one digit below 10, two or more from 10
/// on, at most two below 100 and at most three below 1000.
pub proof fn lemma_decimal_digits(n: nat)
    ensures
        all_digits(decimal(n)),
        digits_value(decimal(n)) == n,
        n >= 1 ==> decimal(n)[0] != '0',
        n < 10 ==> decimal(n).len() == 1,
        n >= 10 ==> decimal(n).len() >= 2,
        n < 100 ==> decimal(n).len() <= 2,
        n < 1000 ==> decimal(n).len() <= 3,
    decreases n,
{
    if n >= 10 {
        lemma_decimal_digits(n / 10);
        let r = decimal(n / 10);
        let t = decimal(n);
        assert(t == r.push(digit_char(n % 10)));
        assert(t.drop_last() == r);
        assert(forall|k: int| 0 <= k < r.len() ==> t[k] == r[k]);
        assert forall|k: int| 0 <= k < t.len() implies is_digit(#[trigger] t[k]) by {
            if k < r.len() {
                assert(t[k] == r[k]);
                assert(is_digit(r[k]));
            }
        }
        assert(digit_char((n % 10) as nat) as int == 48 + n % 10);
        assert(t.last() == digit_char((n % 10) as nat));
        assert(digits_value(t) == digits_value(r) * 10 + (t.last() as int - '0' as int));
        assert(n == (n / 10) * 10 + n % 10);
    } else {
        assert(decimal(n) == seq![digit_char(n)]);
        assert(seq![digit_char(n)].drop_last() =~= Seq::<char>::empty());
        assert(digit_char(n) as int == 48 + n);
        assert(digits_value(Seq::<char>::empty()) == 0);
    }
}

/// A number up to 255 written in decimal reads back as itself, both as a
/// network length and as a part of an IPv4 address.
pub proof fn lemma_decimal_reads_back(n: nat)
    requires
        n <= 255,
    ensures
        prefix_length_parse(decimal(n)) == Some(n as u8),
        octet_parse(decimal(n)) == Some(n as int),
{
    lemma_decimal_digits(n);
}

proof fn lemma_split_without(a: Seq<char>, c: char)
    requires
        !a.contains(c),
    ensures
        split(a, c) == seq![a],
    decreases a.len(),
{
    if a.len() > 0 {
        let p = a.drop_last();
        assert(!p.contains(c)) by {
            if p.contains(c) {
                let k = choose|k: int| 0 <= k < p.len() && p[k] == c;
                assert(a[k] == c);
            }
        }
        lemma_split_without(p, c);
        assert(a.last() != c);
        assert(p.push(a.last()) =~= a);
        assert(split(a, c) =~= seq![a]);
    } else {
        assert(a =~= Seq::<char>::empty());
    }
}

proof fn lemma_split_concat(x: Seq<char>, y: Seq<char>, c: char)
    ensures
        split(x + seq![c] + y, c) == split(x, c) + split(y, c),
    decreases y.len(),
{
    crate::text::lemma_split_nonempty(x, c);
    if y.len() == 0 {
        let s = x + seq![c] + y;
        assert(s.drop_last() =~= x);
        assert(split(y, c) =~= seq![Seq::<char>::empty()]);
        assert(split(s, c) =~= split(x, c) + split(y, c));
    } else {
        let yp = y.drop_last();
        lemma_split_concat(x, yp, c);
        crate::text::lemma_split_nonempty(yp, c);
        let s = x + seq![c] + y;
        assert(s.drop_last() =~= x + seq![c] + yp);
        assert(s.last() == y.last());
        let r = split(x, c) + split(yp, c);
        if y.last() == c {
            assert(split(s, c) =~= split(x, c) + split(y, c));
        } else {
            let ry = split(yp, c);
            assert(r.last() == ry.last());
            assert(r.update(r.len() - 1, r.last().push(y.last())) =~= split(x, c) + ry.update(
                ry.len() - 1,
                ry.last().push(y.last()),
            ));
            assert(split(s, c) =~= split(x, c) + split(y, c));
        }
    }
}

proof fn lemma_decimal_no_dot(n: nat)
    ensures
        !decimal(n).contains('.'),
{
    lemma_decimal_digits(n);
    if decimal(n).contains('.') {
        let k = choose|k: int| 0 <= k < decimal(n).len() && decimal(n)[k] == '.';
        assert(is_digit(decimal(n)[k]));
    }
}

/// The dotted-decimal form of an IPv4 address reads back as the address.
pub proof fn lemma_ipv4_text_reads_back(v: u32)
    ensures
        ipv4_parse(ipv4_text(v)) == Some(v),
{
    let o1 = (v / 16777216) as nat;
    let o2 = ((v / 65536) % 256) as nat;
    let o3 = ((v / 256) % 256) as nat;
    let o4 = (v % 256) as nat;
    assert(o1 <= 255);
    let (a, b, c, d) = (decimal(o1), decimal(o2), decimal(o3), decimal(o4));
    lemma_decimal_no_dot(o1);
    lemma_decimal_no_dot(o2);
    lemma_decimal_no_dot(o3);
    lemma_decimal_no_dot(o4);
    lemma_decimal_reads_back(o1);
    lemma_decimal_reads_back(o2);
    lemma_decimal_reads_back(o3);
    lemma_decimal_reads_back(o4);
    lemma_split_without(a, '.');
    lemma_split_without(b, '.');
    lemma_split_without(c, '.');
    lemma_split_without(d, '.');
    lemma_split_concat(c, d, '.');
    lemma_split_concat(b, c + seq!['.'] + d, '.');
    lemma_split_concat(a, b + seq!['.'] + c + seq!['.'] + d, '.');
    let t = ipv4_text(v);
    assert(t =~= a + seq!['.'] + (b + seq!['.'] + c + seq!['.'] + d));
    assert(b + seq!['.'] + c + seq!['.'] + d =~= b + seq!['.'] + (c + seq!['.'] + d));
    assert(split(t, '.') =~= seq![a, b, c, d]);
    assert(o1 * 16777216 + o2 * 65536 + o3 * 256 + o4 == v) by (nonlinear_arith)
        requires
            o1 == v / 16777216,
            o2 == (v / 65536) % 256,
            o3 == (v / 256) % 256,
            o4 == v % 256,
    ;
}


proof fn lemma_ipv4_text_no_slash(v: u32)
    ensures
        forall|k: int| 0 <= k < ipv4_text(v).len() ==> ipv4_text(v)[k] != '/',
{
    let o1 = (v / 16777216) as nat;
    let o2 = ((v / 65536) % 256) as nat;
    let o3 = ((v / 256) % 256) as nat;
    let o4 = (v % 256) as nat;
    lemma_decimal_digits(o1);
    lemma_decimal_digits(o2);
    lemma_decimal_digits(o3);
    lemma_decimal_digits(o4);
    let t = ipv4_text(v);
    assert forall|k: int| 0 <= k < t.len() implies t[k] != '/' by {
        assert(t[k] == '.' || is_digit(t[k])) by {
            let (a, b, c, d) = (decimal(o1), decimal(o2), decimal(o3), decimal(o4));
            assert(t =~= a + seq!['.'] + b + seq!['.'] + c + seq!['.'] + d);
            if k < a.len() {
                assert(t[k] == a[k]);
            } else if k < a.len() + 1 {
            } else if k < a.len() + 1 + b.len() {
                assert(t[k] == b[k - a.len() - 1]);
            } else if k < a.len() + 2 + b.len() {
            } else if k < a.len() + 2 + b.len() + c.len() {
                assert(t[k] == c[k - a.len() - 2 - b.len()]);
            } else if k < a.len() + 3 + b.len() + c.len() {
            } else {
                assert(t[k] == d[k - a.len() - 3 - b.len() - c.len()]);
            }
        }
    }
}

proof fn lemma_last_slash_at(x: Seq<char>, y: Seq<char>)
    requires
        forall|k: int| 0 <= k < y.len() ==> y[k] != '/',
    ensures
        last_slash(x + seq!['/'] + y) == Some(x.len() as int),
    decreases y.len(),
{
    let s = x + seq!['/'] + y;
    if y.len() > 0 {
        let yp = y.drop_last();
        lemma_last_slash_at(x, yp);
        assert(s.drop_last() =~= x + seq!['/'] + yp);
        assert(s.last() == y.last());
    }
}

/// Reading an IPv4 address with a network length back from the text it is
/// written as gives the same address and length.
pub proof fn lemma_ipv4_inet_reads_back(i: IpInet, t: Seq<char>, r: Option<IpInet>)
    requires
        i.address is V4,
        i.network_length <= 32,
        inet_writing(i, t),
        inet_reading(t, r),
    ensures
        r == Some(i),
{
    let v = i.address->V4_0;
    let l = i.network_length;
    lemma_ipv4_text_reads_back(v);
    lemma_ipv4_text_no_slash(v);
    if l == 32 {
        lemma_no_slash(t);
    } else {
        let d = decimal(l as nat);
        lemma_decimal_reads_back(l as nat);
        lemma_decimal_digits(l as nat);
        assert forall|k: int| 0 <= k < d.len() implies d[k] != '/' by {
            assert(is_digit(d[k]));
        }
        lemma_last_slash_at(ipv4_text(v), d);
        let p = ipv4_text(v).len() as int;
        assert(t.take(p) =~= ipv4_text(v));
        assert(t.skip(p + 1) =~= d);
    }
}

} // verus!
