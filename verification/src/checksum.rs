//! The Internet checksum: the ones' complement of the ones' complement sum
//! of a packet's 16-bit words.
//!
//! The probes' checksums are computed by `pnet`; the checks that a
//! receiver makes are computed here, and the two are proved to agree.

use crate::addr::{Ipv4Addr, Ipv6Addr};
use pnet::packet::icmp::IcmpPacket;
use pnet::packet::icmpv6::Icmpv6Packet;
use pnet::packet::ipv4::Ipv4Packet;
use pnet::packet::tcp::TcpPacket;
use pnet::packet::udp::UdpPacket;
use vstd::prelude::*;

verus! {

/// The `k`-th big-endian 16-bit word of `data`; a last odd byte is the
/// high byte of a word whose low byte is zero.
pub open spec fn word_at(data: Seq<u8>, k: int) -> int {
    data[2 * k] * 256 + if 2 * k + 1 < data.len() {
        data[2 * k + 1] as int
    } else {
        0
    }
}

/// The sum of the first `n` words of `data`.
pub open spec fn words_sum(data: Seq<u8>, n: int) -> int
    decreases n,
{
    if n <= 0 {
        0
    } else {
        words_sum(data, n - 1) + word_at(data, n - 1)
    }
}

/// The number of words of `data`.
pub open spec fn word_count(data: Seq<u8>) -> int {
    (data.len() as int + 1) / 2
}

/// The sum of all words of `data`.
pub open spec fn total(data: Seq<u8>) -> int {
    words_sum(data, word_count(data))
}

/// A sum folded to 16 bits with end-around carry: zero stays zero, and any
/// other sum becomes the value between 1 and `0xffff` that it is congruent
/// to modulo `0xffff`.
pub open spec fn fold(sum: int) -> int {
    if sum <= 0 {
        0
    } else {
        (sum - 1) % 0xffff + 1
    }
}

/// The checksum that belongs to a sum of words: the complement of the
/// folded sum.
pub open spec fn checksum_of(sum: int) -> u16 {
    (0xffff - fold(sum)) as u16
}

/// The Internet checksum of `data`. It is zero exactly when `data`, its
/// checksum field included, is intact.
pub open spec fn internet_checksum(data: Seq<u8>) -> u16 {
    checksum_of(total(data))
}

/// `data` with its `k`-th word set to `w`.
pub open spec fn with_word(data: Seq<u8>, k: int, w: u16) -> Seq<u8> {
    data.update(2 * k, (w / 256) as u8).update(2 * k + 1, (w % 256) as u8)
}

/// The header length that `pnet` takes a checksum over: four times the
/// low nibble of the first byte, but at least 20 and at most the buffer.
pub open spec fn ipv4_header_span(packet: Seq<u8>) -> int {
    let length = (packet[0] % 16) * 4;
    if length < 20 {
        20
    } else if length > packet.len() {
        packet.len() as int
    } else {
        length
    }
}

/// The sum of the words of the IPv4 pseudo-header: both addresses, the
/// protocol number, and the length of what the protocol carries.
pub open spec fn pseudo_header(
    protocol: u8,
    source: Ipv4Addr,
    destination: Ipv4Addr,
    length: int,
) -> int {
    source.bits / 0x1_0000 + source.bits % 0x1_0000 + destination.bits / 0x1_0000
        + destination.bits % 0x1_0000 + protocol + length
}

/// The sum that the checksum of a TCP segment or a UDP datagram over IPv4
/// covers: the pseudo-header, then the segment or datagram.
pub open spec fn pseudo_total(
    protocol: u8,
    source: Ipv4Addr,
    destination: Ipv4Addr,
    data: Seq<u8>,
) -> int {
    pseudo_header(protocol, source, destination, data.len() as int) + total(data)
}

/// The sum of the eight segments of an IPv6 address.
pub open spec fn segments_sum(addr: Ipv6Addr) -> int {
    addr.segment(0) + addr.segment(1) + addr.segment(2) + addr.segment(3) + addr.segment(4)
        + addr.segment(5) + addr.segment(6) + addr.segment(7)
}

/// The sum of the words of the IPv6 pseudo-header: both addresses, the
/// length of what the protocol carries, and the protocol number.
pub open spec fn pseudo6_header(
    next_header: u8,
    source: Ipv6Addr,
    destination: Ipv6Addr,
    length: int,
) -> int {
    segments_sum(source) + segments_sum(destination) + next_header + length
}

/// The sum that the checksum of an ICMPv6 message, a TCP segment or a UDP
/// datagram over IPv6 covers: the pseudo-header, then the data.
pub open spec fn pseudo6_total(
    next_header: u8,
    source: Ipv6Addr,
    destination: Ipv6Addr,
    data: Seq<u8>,
) -> int {
    pseudo6_header(next_header, source, destination, data.len() as int) + total(data)
}

/// `pnet::packet::ipv4::checksum`: the Internet checksum of the header,
/// taken with the checksum field, the header's sixth word, as zero.
#[verifier::external_body]
pub(crate) fn ipv4_checksum(packet: &[u8]) -> (c: u16)
    requires
        20 <= packet.len() <= 0xffff,
    ensures
        c == internet_checksum(
            with_word(packet@.subrange(0, ipv4_header_span(packet@)), 5, 0),
        ),
{
    pnet::packet::ipv4::checksum(&Ipv4Packet::new(packet).unwrap())
}

/// `pnet::packet::icmp::checksum`: the Internet checksum of the message,
/// taken with the checksum field, the message's second word, as zero.
#[verifier::external_body]
pub(crate) fn message_checksum(message: &[u8]) -> (c: u16)
    requires
        4 <= message.len() <= 0xffff,
    ensures
        c == internet_checksum(with_word(message@, 1, 0)),
{
    pnet::packet::icmp::checksum(&IcmpPacket::new(message).unwrap())
}

/// `pnet::packet::tcp::ipv4_checksum`: the checksum of the pseudo-header
/// and the segment, taken with the checksum field, the segment's ninth
/// word, as zero.
#[verifier::external_body]
pub(crate) fn tcp_ipv4_checksum(segment: &[u8], source: Ipv4Addr, destination: Ipv4Addr) -> (c: u16)
    requires
        20 <= segment.len() <= 0xffff,
    ensures
        c == checksum_of(pseudo_total(6, source, destination, with_word(segment@, 8, 0))),
{
    pnet::packet::tcp::ipv4_checksum(
        &TcpPacket::new(segment).unwrap(),
        &source.bits.into(),
        &destination.bits.into(),
    )
}

/// `pnet::packet::udp::ipv4_checksum`: the checksum of the pseudo-header
/// and the datagram, taken with the checksum field, the datagram's fourth
/// word, as zero.
#[verifier::external_body]
pub(crate) fn udp_ipv4_checksum(datagram: &[u8], source: Ipv4Addr, destination: Ipv4Addr) -> (c:
    u16)
    requires
        8 <= datagram.len() <= 0xffff,
    ensures
        c == checksum_of(pseudo_total(17, source, destination, with_word(datagram@, 3, 0))),
{
    pnet::packet::udp::ipv4_checksum(
        &UdpPacket::new(datagram).unwrap(),
        &source.bits.into(),
        &destination.bits.into(),
    )
}

/// `pnet::packet::icmpv6::checksum`: the checksum of the pseudo-header
/// and the message, taken with the checksum field, the message's second
/// word, as zero.
#[verifier::external_body]
pub(crate) fn message6_checksum(message: &[u8], source: Ipv6Addr, destination: Ipv6Addr) -> (c:
    u16)
    requires
        4 <= message.len() <= 0xffff,
    ensures
        c == checksum_of(pseudo6_total(58, source, destination, with_word(message@, 1, 0))),
{
    pnet::packet::icmpv6::checksum(
        &Icmpv6Packet::new(message).unwrap(),
        &source.bits.into(),
        &destination.bits.into(),
    )
}

/// `pnet::packet::tcp::ipv6_checksum`: the checksum of the pseudo-header
/// and the segment, taken with the checksum field, the segment's ninth
/// word, as zero.
#[verifier::external_body]
pub(crate) fn tcp_ipv6_checksum(segment: &[u8], source: Ipv6Addr, destination: Ipv6Addr) -> (c: u16)
    requires
        20 <= segment.len() <= 0xffff,
    ensures
        c == checksum_of(pseudo6_total(6, source, destination, with_word(segment@, 8, 0))),
{
    pnet::packet::tcp::ipv6_checksum(
        &TcpPacket::new(segment).unwrap(),
        &source.bits.into(),
        &destination.bits.into(),
    )
}

/// `pnet::packet::udp::ipv6_checksum`: the checksum of the pseudo-header
/// and the datagram, taken with the checksum field, the datagram's fourth
/// word, as zero.
#[verifier::external_body]
pub(crate) fn udp_ipv6_checksum(datagram: &[u8], source: Ipv6Addr, destination: Ipv6Addr) -> (c:
    u16)
    requires
        8 <= datagram.len() <= 0xffff,
    ensures
        c == checksum_of(pseudo6_total(17, source, destination, with_word(datagram@, 3, 0))),
{
    pnet::packet::udp::ipv6_checksum(
        &UdpPacket::new(datagram).unwrap(),
        &source.bits.into(),
        &destination.bits.into(),
    )
}

/// Adding a word to a folded sum and folding again is folding the whole.
pub proof fn lemma_fold_add(sum: int, w: int)
    requires
        0 <= sum,
        0 <= w,
    ensures
        fold(fold(sum) + w) == fold(sum + w),
        0 <= fold(sum) <= 0xffff,
{
}

/// Setting one word changes the sum of the words by the change of that word.
pub proof fn lemma_with_word(data: Seq<u8>, k: int, w: u16, n: int)
    requires
        0 <= k,
        2 * k + 1 < data.len(),
        0 <= n <= word_count(data),
    ensures
        words_sum(with_word(data, k, w), n) == words_sum(data, n) + if k < n {
            w - word_at(data, k)
        } else {
            0
        },
    decreases n,
{
    if n > 0 {
        lemma_with_word(data, k, w, n - 1);
        let changed = with_word(data, k, w);
        if n - 1 == k {
            assert(word_at(changed, k) == w);
        } else {
            assert(word_at(changed, n - 1) == word_at(data, n - 1));
        }
    }
}

/// A packet whose checksum field holds the checksum taken with that field
/// as zero has the Internet checksum zero: a receiver that sums the packet,
/// the checksum field included, finds it intact.
pub proof fn lemma_checksum_seals(data: Seq<u8>, k: int, extra: int)
    requires
        0 <= k,
        2 * k + 1 < data.len(),
        0 <= extra,
    ensures
        ({
            let c = checksum_of(extra + total(with_word(data, k, 0)));
            checksum_of(extra + total(with_word(data, k, c))) == 0
        }),
{
    let zeroed = with_word(data, k, 0);
    let c = checksum_of(extra + total(zeroed));
    lemma_with_word(data, k, 0, word_count(data));
    lemma_with_word(data, k, c, word_count(data));
    lemma_total_bounds(zeroed);
    let sum = extra + total(zeroed);
    assert(total(with_word(data, k, c)) == total(zeroed) + c);
    assert(0 <= fold(sum) <= 0xffff);
    assert(c == 0xffff - fold(sum));
    if sum > 0 {
        assert((sum + 0xffff - fold(sum)) % 0xffff == 0) by (nonlinear_arith)
            requires
                sum > 0,
                fold(sum) == (sum - 1) % 0xffff + 1,
        ;
    }
}

/// A sum of words is not negative.
pub proof fn lemma_total_bounds(data: Seq<u8>)
    ensures
        0 <= total(data) <= word_count(data) * 0xffff,
{
    lemma_words_sum_bounds(data, word_count(data));
}

/// A sum of `n` words lies between zero and `n` times the largest word.
pub proof fn lemma_words_sum_bounds(data: Seq<u8>, n: int)
    requires
        0 <= n <= word_count(data),
    ensures
        0 <= words_sum(data, n) <= n * 0xffff,
    decreases n,
{
    if n > 0 {
        lemma_words_sum_bounds(data, n - 1);
    }
}

/// The folded sum of `data`, starting from the folded sum `start`.
pub fn folded_sum(data: &[u8], start: u16) -> (sum: u16)
    ensures
        sum == fold(start + total(data@)),
{
    let mut acc: u32 = start as u32;
    let words: usize = data.len() / 2;
    let mut i: usize = 0;
    while i < words
        invariant
            i <= words,
            words == data.len() / 2,
            acc <= 0xffff,
            acc == fold(start + words_sum(data@, i as int)),
        decreases words - i,
    {
        let w: u32 = (data[2 * i] as u32) * 256 + data[2 * i + 1] as u32;
        proof {
            lemma_words_sum_bounds(data@, i as int);
            lemma_fold_add(start + words_sum(data@, i as int), w as int);
        }
        let t: u32 = acc + w;
        acc = if t > 0xffff {
            t - 0xffff
        } else {
            t
        };
        i += 1;
    }
    if data.len() % 2 == 1 {
        let w: u32 = (data[data.len() - 1] as u32) * 256;
        proof {
            lemma_words_sum_bounds(data@, i as int);
            lemma_fold_add(start + words_sum(data@, i as int), w as int);
        }
        let t: u32 = acc + w;
        acc = if t > 0xffff {
            t - 0xffff
        } else {
            t
        };
    }
    acc as u16
}

/// The Internet checksum of `data`, as a receiver computes it.
pub fn checksum(data: &[u8]) -> (c: u16)
    ensures
        c == internet_checksum(data@),
{
    proof {
        lemma_total_bounds(data@);
    }
    0xffff - folded_sum(data, 0)
}

/// The checksum of a TCP segment or a UDP datagram with its
/// pseudo-header, as a receiver computes it: zero exactly when the data
/// are intact and came from `source` for `destination`.
pub fn pseudo_checksum(protocol: u8, data: &[u8], source: Ipv4Addr, destination: Ipv4Addr) -> (c:
    u16)
    ensures
        c == checksum_of(pseudo_total(protocol, source, destination, data@)),
{
    let pseudo: u128 = (source.bits / 0x1_0000) as u128 + (source.bits % 0x1_0000) as u128 + (
    destination.bits / 0x1_0000) as u128 + (destination.bits % 0x1_0000) as u128 + protocol as u128
        + data.len() as u128;
    let folded: u128 = if pseudo == 0 {
        0
    } else {
        (pseudo - 1) % 0xffff + 1
    };
    proof {
        lemma_total_bounds(data@);
        lemma_fold_add(pseudo as int, total(data@));
    }
    0xffff - folded_sum(data, folded as u16)
}

/// The sum of the eight segments of an IPv6 address.
pub fn sum_segments(addr: Ipv6Addr) -> (sum: u32)
    ensures
        sum == segments_sum(addr),
{
    let s = addr.segments();
    s[0] as u32 + s[1] as u32 + s[2] as u32 + s[3] as u32 + s[4] as u32 + s[5] as u32 + s[6] as u32
        + s[7] as u32
}

/// The checksum of an ICMPv6 message, a TCP segment or a UDP datagram
/// with its IPv6 pseudo-header, as a receiver computes it: zero exactly
/// when the data are intact and came from `source` for `destination`.
pub fn pseudo6_checksum(next_header: u8, data: &[u8], source: Ipv6Addr, destination: Ipv6Addr) -> (c:
    u16)
    ensures
        c == checksum_of(pseudo6_total(next_header, source, destination, data@)),
{
    let pseudo: u128 = sum_segments(source) as u128 + sum_segments(destination) as u128
        + next_header as u128 + data.len() as u128;
    let folded: u128 = if pseudo == 0 {
        0
    } else {
        (pseudo - 1) % 0xffff + 1
    };
    proof {
        lemma_total_bounds(data@);
        lemma_fold_add(pseudo as int, total(data@));
    }
    0xffff - folded_sum(data, folded as u16)
}

} // verus!
