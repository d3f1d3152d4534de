//! Internet addresses as numbers, and the fixed ranges that decide whether
//! an address is global.

use crate::text::{
    all_digits, decimal, digits_value, hexadecimal, parse_number, push_decimal,
    push_hexadecimal, split, split_on, views,
};
use vstd::prelude::*;

verus! {

/// An IPv4 address: a 32-bit quantity, the first octet in the high bits.
#[derive(Debug, Clone, Copy, PartialEq, Eq, Hash, Structural)]
pub struct Ipv4Addr {
    pub bits: u32,
}

impl Ipv4Addr {
    /// The address whose octets are `a.b.c.d`.
    pub open spec fn from_octets(a: u8, b: u8, c: u8, d: u8) -> Ipv4Addr {
        Ipv4Addr { bits: (a * 0x100_0000 + b * 0x1_0000 + c * 0x100 + d) as u32 }
    }

    /// The four octets, in the order written.
    pub open spec fn octets_spec(self) -> Seq<u8> {
        seq![
            (self.bits / 0x100_0000) as u8,
            (self.bits / 0x1_0000 % 0x100) as u8,
            (self.bits / 0x100 % 0x100) as u8,
            (self.bits % 0x100) as u8,
        ]
    }

    /// Whether the address lies in 10/8, 172.16/12 or 192.168/16.
    pub open spec fn is_private(self) -> bool {
        let o = self.octets_spec();
        o[0] == 10 || (o[0] == 192 && o[1] == 168) || (o[0] == 172 && 16 <= o[1] <= 31)
    }

    /// Whether the address is global: not private.
    pub open spec fn is_global(self) -> bool {
        !self.is_private()
    }

    /// The address `a.b.c.d`.
    pub fn new(a: u8, b: u8, c: u8, d: u8) -> (addr: Ipv4Addr)
        ensures
            addr == Ipv4Addr::from_octets(a, b, c, d),
            addr.octets_spec() == seq![a, b, c, d],
    {
        let bits: u32 = (a as u32) * 0x100_0000 + (b as u32) * 0x1_0000 + (c as u32) * 0x100 + (
        d as u32);
        assert(bits / 0x100_0000 == a && bits / 0x1_0000 % 0x100 == b && bits / 0x100 % 0x100 == c
            && bits % 0x100 == d) by (bit_vector)
            requires
                bits == (a as u32) * 0x100_0000 + (b as u32) * 0x1_0000 + (c as u32) * 0x100 + (
                d as u32),
        ;
        Ipv4Addr { bits }
    }

    /// The four octets, in the order written.
    pub fn octets(&self) -> (o: [u8; 4])
        ensures
            o@ == self.octets_spec(),
    {
        [
            (self.bits / 0x100_0000) as u8,
            (self.bits / 0x1_0000 % 0x100) as u8,
            (self.bits / 0x100 % 0x100) as u8,
            (self.bits % 0x100) as u8,
        ]
    }

    /// Whether the address is global.
    pub fn is_global_x(&self) -> (global: bool)
        ensures
            global == self.is_global(),
    {
        let octets = self.octets();
        let is_private = if octets[0] == 10 {
            true
        } else if octets[0] == 192 && octets[1] == 168 {
            true
        } else if octets[0] == 172 && octets[1] >= 16 && octets[1] <= 31 {
            true
        } else {
            false
        };
        !is_private
    }
}

/// The private addresses are those of the three blocks, as ranges of
/// numbers: 10.0.0.0 to 10.255.255.255, 172.16.0.0 to 172.31.255.255 and
/// 192.168.0.0 to 192.168.255.255.
pub proof fn lemma_private_blocks(addr: Ipv4Addr)
    ensures
        addr.is_private() <==> {
            ||| 0x0A00_0000 <= addr.bits <= 0x0AFF_FFFF
            ||| 0xAC10_0000 <= addr.bits <= 0xAC1F_FFFF
            ||| 0xC0A8_0000 <= addr.bits <= 0xC0A8_FFFF
        },
{
}

/// An address is rebuilt from its octets.
pub proof fn lemma_octets_round_trip(addr: Ipv4Addr)
    ensures
        ({
            let o = addr.octets_spec();
            Ipv4Addr::from_octets(o[0], o[1], o[2], o[3]) == addr
        }),
{
}

/// An IPv6 address: a 128-bit quantity, the first segment in the high bits.
#[derive(Debug, Clone, Copy, PartialEq, Eq, Hash, Structural)]
pub struct Ipv6Addr {
    pub bits: u128,
}

impl Ipv6Addr {
    /// The `i`-th of the eight 16-bit segments, in the order written.
    pub open spec fn segment(self, i: int) -> u16 {
        (self.bits as int / pow65536(7 - i) % 0x1_0000) as u16
    }

    /// The address whose segments are `s`.
    pub open spec fn from_segments(s: Seq<u16>) -> Ipv6Addr {
        Ipv6Addr {
            bits: (s[0] * pow65536(7) + s[1] * pow65536(6) + s[2] * pow65536(5) + s[3] * pow65536(
                4,
            ) + s[4] * pow65536(3) + s[5] * pow65536(2) + s[6] * pow65536(1) + s[7]) as u128,
        }
    }

    /// Whether the address lies in the link-local block `fe80::/10`.
    pub open spec fn is_link_local(self) -> bool {
        self.bits / 0x40_0000_0000_0000_0000_0000_0000_0000 == 0x3fa
    }

    /// Whether the address is global: not link-local.
    pub open spec fn is_global(self) -> bool {
        !self.is_link_local()
    }

    /// The address with the eight segments given, in the order written.
    pub fn new(a: u16, b: u16, c: u16, d: u16, e: u16, f: u16, g: u16, h: u16) -> (addr: Ipv6Addr)
        ensures
            addr == Ipv6Addr::from_segments(seq![a, b, c, d, e, f, g, h]),
    {
        let high: u128 = (a as u128) * 0x1_0000_0000_0000 + (b as u128) * 0x1_0000_0000 + (
        c as u128) * 0x1_0000 + (d as u128);
        let low: u128 = (e as u128) * 0x1_0000_0000_0000 + (f as u128) * 0x1_0000_0000 + (
        g as u128) * 0x1_0000 + (h as u128);
        Ipv6Addr { bits: high * 0x1_0000_0000_0000_0000 + low }
    }

    /// The eight segments, in the order written.
    pub fn segments(&self) -> (s: [u16; 8])
        ensures
            s@.len() == 8,
            forall|i: int| 0 <= i < 8 ==> s@[i] == self.segment(i),
    {
        [
            (self.bits / 0x1_0000_0000_0000_0000_0000_0000_0000) as u16,
            (self.bits / 0x1_0000_0000_0000_0000_0000_0000 % 0x1_0000) as u16,
            (self.bits / 0x1_0000_0000_0000_0000_0000 % 0x1_0000) as u16,
            (self.bits / 0x1_0000_0000_0000_0000 % 0x1_0000) as u16,
            (self.bits / 0x1_0000_0000_0000 % 0x1_0000) as u16,
            (self.bits / 0x1_0000_0000 % 0x1_0000) as u16,
            (self.bits / 0x1_0000 % 0x1_0000) as u16,
            (self.bits % 0x1_0000) as u16,
        ]
    }

    /// Whether the address is global.
    pub fn is_global_x(&self) -> (global: bool)
        ensures
            global == self.is_global(),
    {
        self.bits / 0x40_0000_0000_0000_0000_0000_0000_0000 != 0x3fa
    }
}

/// 65536 to the power `k`, for the eight segments of an IPv6 address.
pub open spec fn pow65536(k: int) -> int {
    if k <= 0 {
        1
    } else if k == 1 {
        0x1_0000
    } else if k == 2 {
        0x1_0000_0000
    } else if k == 3 {
        0x1_0000_0000_0000
    } else if k == 4 {
        0x1_0000_0000_0000_0000
    } else if k == 5 {
        0x1_0000_0000_0000_0000_0000
    } else if k == 6 {
        0x1_0000_0000_0000_0000_0000_0000
    } else {
        0x1_0000_0000_0000_0000_0000_0000_0000
    }
}

/// The link-local addresses are those whose first segment lies between
/// `fe80` and `febf`.
pub proof fn lemma_link_local_segment(addr: Ipv6Addr)
    ensures
        addr.is_link_local() <==> 0xfe80 <= addr.segment(0) <= 0xfebf,
{
}

/// An address of either family.
#[derive(Debug, Clone, Copy, PartialEq, Eq, Hash, Structural)]
pub enum IpAddr {
    V4(Ipv4Addr),
    V6(Ipv6Addr),
}

impl IpAddr {
    /// Whether the address is global, by the rule of its family.
    pub open spec fn is_global(self) -> bool {
        match self {
            IpAddr::V4(a) => a.is_global(),
            IpAddr::V6(a) => a.is_global(),
        }
    }

    /// Whether the address is global.
    pub fn is_global_x(&self) -> (global: bool)
        ensures
            global == self.is_global(),
    {
        match self {
            IpAddr::V4(ipv4) => ipv4.is_global_x(),
            IpAddr::V6(ipv6) => ipv6.is_global_x(),
        }
    }
}

/// The octet that `s` writes: one to three digits, without a leading zero
/// unless zero itself, and at most 255.
pub open spec fn octet_of(s: Seq<char>) -> Option<u8> {
    if 1 <= s.len() <= 3 && all_digits(s) && (s.len() == 1 || s[0] != '0') && digits_value(s)
        <= 255 {
        Some(digits_value(s) as u8)
    } else {
        None
    }
}

/// The address that a dotted quad writes: four octets between three dots.
pub open spec fn dotted_quad(s: Seq<char>) -> Option<Ipv4Addr> {
    let p = split_on(s, '.');
    if p.len() == 4 && octet_of(p[0]) is Some && octet_of(p[1]) is Some && octet_of(p[2]) is Some
        && octet_of(p[3]) is Some {
        Some(
            Ipv4Addr::from_octets(
                octet_of(p[0])->Some_0,
                octet_of(p[1])->Some_0,
                octet_of(p[2])->Some_0,
                octet_of(p[3])->Some_0,
            ),
        )
    } else {
        None
    }
}

/// Computes `octet_of`.
pub fn read_octet(s: &[char]) -> (octet: Option<u8>)
    ensures
        octet == octet_of(s@),
{
    if s.len() < 1 || s.len() > 3 {
        return None;
    }
    if s[0] == '+' || (s.len() > 1 && s[0] == '0') {
        assert(!all_digits(s@) || s@[0] == '0') by {
            if all_digits(s@) {
                assert(crate::text::is_digit(s@[0]));
            }
        }
        return None;
    }
    match parse_number(s, 255) {
        Some(n) => Some(n as u8),
        None => None,
    }
}

/// Computes `dotted_quad`.
pub fn read_dotted_quad(s: &[char]) -> (addr: Option<Ipv4Addr>)
    ensures
        addr == dotted_quad(s@),
{
    let p = split(s, '.');
    if p.len() != 4 {
        return None;
    }
    assert(views(p@)[0] == p[0]@ && views(p@)[1] == p[1]@ && views(p@)[2] == p[2]@ && views(
        p@,
    )[3] == p[3]@);
    let a = read_octet(p[0].as_slice());
    let b = read_octet(p[1].as_slice());
    let c = read_octet(p[2].as_slice());
    let d = read_octet(p[3].as_slice());
    match (a, b, c, d) {
        (Some(a), Some(b), Some(c), Some(d)) => Some(Ipv4Addr::new(a, b, c, d)),
        _ => None,
    }
}

/// The dotted quad that writes an address.
pub open spec fn quad_text(addr: Ipv4Addr) -> Seq<char> {
    let o = addr.octets_spec();
    decimal(o[0] as nat) + seq!['.'] + decimal(o[1] as nat) + seq!['.'] + decimal(o[2] as nat)
        + seq!['.'] + decimal(o[3] as nat)
}

/// Appends the dotted quad that writes `addr`.
pub fn push_quad(out: &mut Vec<char>, addr: Ipv4Addr)
    ensures
        final(out)@ == old(out)@ + quad_text(addr),
{
    let o = addr.octets();
    push_decimal(out, o[0] as u64);
    out.push('.');
    push_decimal(out, o[1] as u64);
    out.push('.');
    push_decimal(out, o[2] as u64);
    out.push('.');
    push_decimal(out, o[3] as u64);
}

/// The number of zero segments in a row from position `i` on.
pub open spec fn zero_run(segments: Seq<u16>, i: int) -> int
    decreases segments.len() - i,
{
    if i < 0 || i >= segments.len() || segments[i] != 0 {
        0
    } else {
        1 + zero_run(segments, i + 1)
    }
}

/// The start of the longest run of zero segments that begins at `i` or
/// later; of several longest, the first. The length of the segments where
/// there is no zero from `i` on.
pub open spec fn longest_run(segments: Seq<u16>, i: int) -> int
    decreases segments.len() - i,
{
    if i < 0 || i >= segments.len() {
        segments.len() as int
    } else if zero_run(segments, i) > 0 && zero_run(segments, i) >= zero_run(
        segments,
        longest_run(segments, i + 1),
    ) {
        i
    } else {
        longest_run(segments, i + 1)
    }
}

/// The segments from `from` to `to`, each in hexadecimal, with colons
/// between them.
pub open spec fn groups_text(segments: Seq<u16>, from: int, to: int) -> Seq<char>
    decreases to - from,
{
    if from >= to {
        Seq::empty()
    } else if from + 1 == to {
        hexadecimal(segments[from] as nat)
    } else {
        groups_text(segments, from, to - 1) + seq![':'] + hexadecimal(segments[to - 1] as nat)
    }
}

/// The eight segments of an address.
pub open spec fn segments_of(addr: Ipv6Addr) -> Seq<u16> {
    Seq::new(8, |i: int| addr.segment(i))
}

/// The text that writes an IPv6 address: an address that maps an IPv4
/// address is written as `::ffff:` and the dotted quad; any other as its
/// eight segments in hexadecimal between colons, the longest run of two
/// or more zero segments, and of several the first, shortened to `::`.
pub open spec fn ipv6_text(addr: Ipv6Addr) -> Seq<char> {
    let s = segments_of(addr);
    let start = longest_run(s, 0);
    let length = zero_run(s, start);
    if addr.bits / 0x1_0000_0000 == 0xffff {
        seq![':', ':', 'f', 'f', 'f', 'f', ':'] + quad_text(
            Ipv4Addr { bits: (addr.bits % 0x1_0000_0000) as u32 },
        )
    } else if length >= 2 {
        groups_text(s, 0, start) + seq![':', ':'] + groups_text(s, start + length, 8)
    } else {
        groups_text(s, 0, 8)
    }
}

/// Computes `zero_run`.
pub fn count_zero_run(segments: &[u16; 8], i: usize) -> (n: usize)
    ensures
        n == zero_run(segments@, i as int),
        i + n <= 8 || n == 0,
    decreases 8 - i,
{
    if i >= 8 || segments[i] != 0 {
        0
    } else {
        1 + count_zero_run(segments, i + 1)
    }
}

/// Computes `longest_run`.
pub fn find_longest_run(segments: &[u16; 8], i: usize) -> (start: usize)
    ensures
        start == longest_run(segments@, i as int),
        start <= 8,
    decreases 8 - i,
{
    if i >= 8 {
        8
    } else {
        let later = find_longest_run(segments, i + 1);
        let here = count_zero_run(segments, i);
        if here > 0 && here >= count_zero_run(segments, later) {
            i
        } else {
            later
        }
    }
}

/// Appends `groups_text`.
pub fn push_groups(out: &mut Vec<char>, segments: &[u16; 8], from: usize, to: usize)
    requires
        to <= 8,
    ensures
        final(out)@ == old(out)@ + groups_text(segments@, from as int, to as int),
{
    let mut i: usize = from;
    while i < to
        invariant
            from <= i <= to <= 8 || (from > to && i == from),
            out@ == old(out)@ + groups_text(segments@, from as int, i as int),
        decreases to - i,
    {
        if i > from {
            out.push(':');
        }
        push_hexadecimal(out, segments[i] as u64);
        i += 1;
    }
}

/// Appends the text that writes `addr`.
pub fn push_ipv6(out: &mut Vec<char>, addr: Ipv6Addr)
    ensures
        final(out)@ == old(out)@ + ipv6_text(addr),
{
    if addr.bits / 0x1_0000_0000 == 0xffff {
        out.push(':');
        out.push(':');
        out.push('f');
        out.push('f');
        out.push('f');
        out.push('f');
        out.push(':');
        push_quad(out, Ipv4Addr { bits: (addr.bits % 0x1_0000_0000) as u32 });
        return ;
    }
    let segments = addr.segments();
    assert(segments@ == segments_of(addr));
    let start = find_longest_run(&segments, 0);
    let length = count_zero_run(&segments, start);
    if length >= 2 {
        push_groups(out, &segments, 0, start);
        out.push(':');
        out.push(':');
        push_groups(out, &segments, start + length, 8);
    } else {
        push_groups(out, &segments, 0, 8);
    }
}

impl IpAddr {
    /// The text that writes the address.
    pub open spec fn text(self) -> Seq<char> {
        match self {
            IpAddr::V4(a) => quad_text(a),
            IpAddr::V6(a) => ipv6_text(a),
        }
    }

    /// Appends the text that writes the address.
    pub fn push_text(&self, out: &mut Vec<char>)
        ensures
            final(out)@ == old(out)@ + self.text(),
    {
        match self {
            IpAddr::V4(a) => push_quad(out, *a),
            IpAddr::V6(a) => push_ipv6(out, *a),
        }
    }
}

} // verus!
