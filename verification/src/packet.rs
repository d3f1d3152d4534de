//! Wire formats: the headers that the probes are built from, and the
//! fields that are read off a response. All multi-byte integers are in
//! network byte order.

use crate::addr::{Ipv4Addr, Ipv6Addr};
use crate::checksum::{
    checksum_of, internet_checksum, ipv4_checksum, ipv4_header_span, lemma_checksum_seals,
    message6_checksum, message_checksum, pseudo6_header, pseudo6_total, pseudo_header,
    pseudo_total, tcp_ipv4_checksum, tcp_ipv6_checksum, udp_ipv4_checksum, udp_ipv6_checksum,
    with_word,
};
use vstd::prelude::*;

verus! {

/// The length of an IPv4 header without options.
pub const IPV4_HEADER_SIZE: usize = 20;

/// The length of the header of an ICMP echo message.
pub const ICMP_HEADER_SIZE: usize = 8;

/// The length of a UDP header.
pub const UDP_HEADER_SIZE: usize = 8;

/// The length of a TCP header without options.
pub const TCP_HEADER_SIZE: usize = 20;

/// The protocol number of ICMP.
pub const PROTOCOL_ICMP: u8 = 1;

/// The protocol number of TCP.
pub const PROTOCOL_TCP: u8 = 6;

/// The protocol number of UDP.
pub const PROTOCOL_UDP: u8 = 17;

/// The protocol number of ICMPv6.
pub const PROTOCOL_ICMPV6: u8 = 58;

/// The length of an IPv6 header.
pub const IPV6_HEADER_SIZE: usize = 40;

/// The TCP flag FIN.
pub const TCP_FIN: u8 = 0x01;

/// The TCP flag SYN.
pub const TCP_SYN: u8 = 0x02;

/// The TCP flag RST.
pub const TCP_RST: u8 = 0x04;

/// The TCP flag PSH.
pub const TCP_PSH: u8 = 0x08;

/// The TCP flag ACK.
pub const TCP_ACK: u8 = 0x10;

/// The TCP flag URG.
pub const TCP_URG: u8 = 0x20;

/// The two bytes of `v`, high byte first.
pub open spec fn be16(v: u16) -> Seq<u8> {
    seq![(v / 0x100) as u8, (v % 0x100) as u8]
}

/// The four bytes of `v`, high byte first.
pub open spec fn be32(v: u32) -> Seq<u8> {
    seq![
        (v / 0x100_0000) as u8,
        (v / 0x1_0000 % 0x100) as u8,
        (v / 0x100 % 0x100) as u8,
        (v % 0x100) as u8,
    ]
}

/// The eight bytes of `v`, high byte first.
pub open spec fn be64(v: u64) -> Seq<u8> {
    be32((v / 0x1_0000_0000) as u32) + be32((v % 0x1_0000_0000) as u32)
}

/// The number that two bytes write, high byte first.
pub open spec fn read16(data: Seq<u8>, at: int) -> u16 {
    (data[at] * 0x100 + data[at + 1]) as u16
}

/// The number that four bytes write, high byte first.
pub open spec fn read32(data: Seq<u8>, at: int) -> u32 {
    (data[at] * 0x100_0000 + data[at + 1] * 0x1_0000 + data[at + 2] * 0x100 + data[at + 3]) as u32
}

/// Appends `v`, high byte first.
pub fn push16(out: &mut Vec<u8>, v: u16)
    ensures
        final(out)@ == old(out)@ + be16(v),
{
    out.push((v / 0x100) as u8);
    out.push((v % 0x100) as u8);
}

/// Appends `v`, high byte first.
pub fn push32(out: &mut Vec<u8>, v: u32)
    ensures
        final(out)@ == old(out)@ + be32(v),
{
    out.push((v / 0x100_0000) as u8);
    out.push((v / 0x1_0000 % 0x100) as u8);
    out.push((v / 0x100 % 0x100) as u8);
    out.push((v % 0x100) as u8);
}

/// Appends `v`, high byte first.
pub fn push64(out: &mut Vec<u8>, v: u64)
    ensures
        final(out)@ == old(out)@ + be64(v),
{
    push32(out, (v / 0x1_0000_0000) as u32);
    push32(out, (v % 0x1_0000_0000) as u32);
}

/// Appends the bytes of `data`.
pub fn push_bytes(out: &mut Vec<u8>, data: &[u8])
    ensures
        final(out)@ == old(out)@ + data@,
{
    let mut i: usize = 0;
    while i < data.len()
        invariant
            i <= data.len(),
            out@ == old(out)@ + data@.take(i as int),
        decreases data.len() - i,
    {
        out.push(data[i]);
        i += 1;
    }
    assert(data@.take(data.len() as int) == data@);
}

/// Reads two bytes, high byte first.
pub fn get16(data: &[u8], at: usize) -> (v: u16)
    requires
        at + 1 < data.len(),
    ensures
        v == read16(data@, at as int),
{
    (data[at] as u16) * 0x100 + data[at + 1] as u16
}

/// Reads four bytes, high byte first.
pub fn get32(data: &[u8], at: usize) -> (v: u32)
    requires
        at + 3 < data.len(),
    ensures
        v == read32(data@, at as int),
{
    (data[at] as u32) * 0x100_0000 + (data[at + 1] as u32) * 0x1_0000 + (data[at + 2] as u32)
        * 0x100 + data[at + 3] as u32
}

/// Stores `c` as the `k`-th 16-bit word of `out`.
pub fn set_word(out: &mut Vec<u8>, k: usize, c: u16)
    requires
        2 * k + 1 < old(out).len(),
    ensures
        final(out)@ == with_word(old(out)@, k as int, c),
{
    out.set(2 * k, (c / 0x100) as u8);
    out.set(2 * k + 1, (c % 0x100) as u8);
}

/// What an IPv4 header of a probe says, beyond what is the same in all of
/// them: version 4, no options, no service bits, the Don't Fragment flag,
/// no fragment offset.
#[derive(Debug, Clone, Copy, PartialEq, Eq, Structural)]
pub struct Ipv4Fields {
    pub source: Ipv4Addr,
    pub destination: Ipv4Addr,
    /// The protocol of the payload.
    pub protocol: u8,
    /// The length of header and payload together.
    pub total_length: u16,
    pub identification: u16,
    pub ttl: u8,
}

/// The header that `f` describes, with the checksum field zero.
pub open spec fn ipv4_header_open(f: Ipv4Fields) -> Seq<u8> {
    seq![0x45u8, 0u8] + be16(f.total_length) + be16(f.identification) + seq![0x40u8, 0u8] + seq![
        f.ttl,
        f.protocol,
        0u8,
        0u8,
    ] + be32(f.source.bits) + be32(f.destination.bits)
}

/// The header that `f` describes, checksum included.
pub open spec fn ipv4_header(f: Ipv4Fields) -> Seq<u8> {
    with_word(ipv4_header_open(f), 5, internet_checksum(ipv4_header_open(f)))
}

/// Builds the IPv4 header of a probe: 20 bytes whose header checksum a
/// receiver finds intact.
pub fn build_ipv4_header(f: Ipv4Fields) -> (header: Vec<u8>)
    ensures
        header@ == ipv4_header(f),
        header.len() == IPV4_HEADER_SIZE,
        internet_checksum(header@) == 0,
{
    let mut header: Vec<u8> = Vec::new();
    header.push(0x45);
    header.push(0);
    push16(&mut header, f.total_length);
    push16(&mut header, f.identification);
    header.push(0x40);
    header.push(0);
    header.push(f.ttl);
    header.push(f.protocol);
    header.push(0);
    header.push(0);
    push32(&mut header, f.source.bits);
    push32(&mut header, f.destination.bits);
    let ghost open = header@;
    assert(open == ipv4_header_open(f));
    assert(ipv4_header_span(open) == 20);
    assert(with_word(open.subrange(0, 20), 5, 0) == open);
    let c = ipv4_checksum(header.as_slice());
    set_word(&mut header, 5, c);
    proof {
        lemma_checksum_seals(open, 5, 0);
        assert(with_word(open, 5, 0) == open);
    }
    header
}

/// An ICMP echo request with the checksum field zero: type 8, code 0,
/// then identifier, sequence number and payload.
pub open spec fn echo_request_open(identifier: u16, sequence: u16, payload: Seq<u8>) -> Seq<u8> {
    seq![8u8, 0u8, 0u8, 0u8] + be16(identifier) + be16(sequence) + payload
}

/// An ICMP echo request, checksum included.
pub open spec fn echo_request(identifier: u16, sequence: u16, payload: Seq<u8>) -> Seq<u8> {
    let open = echo_request_open(identifier, sequence, payload);
    with_word(open, 1, internet_checksum(open))
}

/// Builds an ICMP echo request whose checksum a receiver finds intact.
pub fn build_echo_request(identifier: u16, sequence: u16, payload: &[u8]) -> (message: Vec<u8>)
    requires
        payload.len() <= 0xffff - IPV4_HEADER_SIZE - ICMP_HEADER_SIZE,
    ensures
        message@ == echo_request(identifier, sequence, payload@),
        message.len() == ICMP_HEADER_SIZE + payload.len(),
        internet_checksum(message@) == 0,
{
    let mut message: Vec<u8> = Vec::new();
    message.push(8);
    message.push(0);
    message.push(0);
    message.push(0);
    push16(&mut message, identifier);
    push16(&mut message, sequence);
    push_bytes(&mut message, payload);
    let ghost open = message@;
    assert(open == echo_request_open(identifier, sequence, payload@));
    assert(with_word(open, 1, 0) == open);
    let c = message_checksum(message.as_slice());
    set_word(&mut message, 1, c);
    proof {
        lemma_checksum_seals(open, 1, 0);
    }
    message
}

/// What the TCP header of a probe says, beyond what is the same in all of
/// them: no options, no urgent pointer.
#[derive(Debug, Clone, Copy, PartialEq, Eq, Structural)]
pub struct TcpFields {
    pub source_port: u16,
    pub destination_port: u16,
    pub sequence: u32,
    pub acknowledgement: u32,
    /// The flag bits, `TCP_FIN` to `TCP_URG`.
    pub flags: u8,
    pub window: u16,
}

/// The TCP header that `f` describes, with the checksum field zero.
pub open spec fn tcp_header_open(f: TcpFields) -> Seq<u8> {
    be16(f.source_port) + be16(f.destination_port) + be32(f.sequence) + be32(f.acknowledgement)
        + seq![0x50u8, f.flags] + be16(f.window) + seq![0u8, 0u8, 0u8, 0u8]
}

/// The TCP header that `f` describes, with the checksum that belongs to
/// it when sent from `source` to `destination`.
pub open spec fn tcp_header(f: TcpFields, source: Ipv4Addr, destination: Ipv4Addr) -> Seq<u8> {
    let open = tcp_header_open(f);
    with_word(open, 8, checksum_of(pseudo_total(PROTOCOL_TCP, source, destination, open)))
}

/// Builds the TCP header of a probe: 20 bytes whose checksum a receiver
/// that knows the two addresses finds intact.
pub fn build_tcp_header(f: TcpFields, source: Ipv4Addr, destination: Ipv4Addr) -> (header: Vec<u8>)
    ensures
        header@ == tcp_header(f, source, destination),
        header.len() == TCP_HEADER_SIZE,
        checksum_of(pseudo_total(PROTOCOL_TCP, source, destination, header@)) == 0,
{
    let mut header: Vec<u8> = Vec::new();
    push16(&mut header, f.source_port);
    push16(&mut header, f.destination_port);
    push32(&mut header, f.sequence);
    push32(&mut header, f.acknowledgement);
    header.push(0x50);
    header.push(f.flags);
    push16(&mut header, f.window);
    header.push(0);
    header.push(0);
    header.push(0);
    header.push(0);
    let ghost open = header@;
    assert(open == tcp_header_open(f));
    assert(with_word(open, 8, 0) == open);
    let c = tcp_ipv4_checksum(header.as_slice(), source, destination);
    set_word(&mut header, 8, c);
    proof {
        lemma_checksum_seals(open, 8, pseudo_header(PROTOCOL_TCP, source, destination, 20));
    }
    header
}

/// A UDP datagram with the checksum field zero: the ports, the length of
/// header and payload together, and the payload.
pub open spec fn udp_datagram_open(source_port: u16, destination_port: u16, payload: Seq<u8>)
    -> Seq<u8> {
    be16(source_port) + be16(destination_port) + be16((8 + payload.len()) as u16) + seq![
        0u8,
        0u8,
    ] + payload
}

/// A UDP datagram, with the checksum that belongs to it when sent from
/// `source` to `destination`.
pub open spec fn udp_datagram(
    source_port: u16,
    destination_port: u16,
    payload: Seq<u8>,
    source: Ipv4Addr,
    destination: Ipv4Addr,
) -> Seq<u8> {
    let open = udp_datagram_open(source_port, destination_port, payload);
    with_word(open, 3, checksum_of(pseudo_total(PROTOCOL_UDP, source, destination, open)))
}

/// Builds a UDP datagram whose checksum a receiver that knows the two
/// addresses finds intact.
pub fn build_udp_datagram(
    source_port: u16,
    destination_port: u16,
    payload: &[u8],
    source: Ipv4Addr,
    destination: Ipv4Addr,
) -> (datagram: Vec<u8>)
    requires
        payload.len() <= 0xffff - IPV4_HEADER_SIZE - UDP_HEADER_SIZE,
    ensures
        datagram@ == udp_datagram(source_port, destination_port, payload@, source, destination),
        datagram.len() == UDP_HEADER_SIZE + payload.len(),
        checksum_of(pseudo_total(PROTOCOL_UDP, source, destination, datagram@)) == 0,
{
    let mut datagram: Vec<u8> = Vec::new();
    push16(&mut datagram, source_port);
    push16(&mut datagram, destination_port);
    let length: u16 = (UDP_HEADER_SIZE + payload.len()) as u16;
    push16(&mut datagram, length);
    datagram.push(0);
    datagram.push(0);
    push_bytes(&mut datagram, payload);
    let ghost open = datagram@;
    assert(open == udp_datagram_open(source_port, destination_port, payload@));
    assert(with_word(open, 3, 0) == open);
    let c = udp_ipv4_checksum(datagram.as_slice(), source, destination);
    set_word(&mut datagram, 3, c);
    proof {
        lemma_checksum_seals(
            open,
            3,
            pseudo_header(PROTOCOL_UDP, source, destination, open.len() as int),
        );
    }
    datagram
}

/// The sixteen bytes of an IPv6 address, high byte first.
pub open spec fn be128(addr: Ipv6Addr) -> Seq<u8> {
    be16(addr.segment(0)) + be16(addr.segment(1)) + be16(addr.segment(2)) + be16(addr.segment(3))
        + be16(addr.segment(4)) + be16(addr.segment(5)) + be16(addr.segment(6)) + be16(
        addr.segment(7),
    )
}

/// Appends the sixteen bytes of an IPv6 address.
pub fn push128(out: &mut Vec<u8>, addr: Ipv6Addr)
    ensures
        final(out)@ == old(out)@ + be128(addr),
{
    let s = addr.segments();
    push16(out, s[0]);
    push16(out, s[1]);
    push16(out, s[2]);
    push16(out, s[3]);
    push16(out, s[4]);
    push16(out, s[5]);
    push16(out, s[6]);
    push16(out, s[7]);
}

/// What an IPv6 header of a probe says, beyond what is the same in all of
/// them: version 6, no traffic class, no flow label.
#[derive(Debug, Clone, Copy, PartialEq, Eq, Structural)]
pub struct Ipv6Fields {
    pub source: Ipv6Addr,
    pub destination: Ipv6Addr,
    /// The protocol of the payload.
    pub next_header: u8,
    /// The length of the payload.
    pub payload_length: u16,
    pub hop_limit: u8,
}

/// The header that `f` describes.
pub open spec fn ipv6_header(f: Ipv6Fields) -> Seq<u8> {
    seq![0x60u8, 0u8, 0u8, 0u8] + be16(f.payload_length) + seq![f.next_header, f.hop_limit] + be128(
        f.source,
    ) + be128(f.destination)
}

/// Builds the IPv6 header of a probe: 40 bytes.
pub fn build_ipv6_header(f: Ipv6Fields) -> (header: Vec<u8>)
    ensures
        header@ == ipv6_header(f),
        header.len() == IPV6_HEADER_SIZE,
{
    let mut header: Vec<u8> = Vec::new();
    header.push(0x60);
    header.push(0);
    header.push(0);
    header.push(0);
    push16(&mut header, f.payload_length);
    header.push(f.next_header);
    header.push(f.hop_limit);
    push128(&mut header, f.source);
    push128(&mut header, f.destination);
    header
}

/// An ICMPv6 echo request with the checksum field zero: type 128, code 0,
/// then identifier, sequence number and payload.
pub open spec fn echo6_request_open(identifier: u16, sequence: u16, payload: Seq<u8>) -> Seq<u8> {
    seq![128u8, 0u8, 0u8, 0u8] + be16(identifier) + be16(sequence) + payload
}

/// An ICMPv6 echo request, with the checksum that belongs to it when sent
/// from `source` to `destination`.
pub open spec fn echo6_request(
    identifier: u16,
    sequence: u16,
    payload: Seq<u8>,
    source: Ipv6Addr,
    destination: Ipv6Addr,
) -> Seq<u8> {
    let open = echo6_request_open(identifier, sequence, payload);
    with_word(open, 1, checksum_of(pseudo6_total(PROTOCOL_ICMPV6, source, destination, open)))
}

/// Builds an ICMPv6 echo request whose checksum a receiver that knows the
/// two addresses finds intact.
pub fn build_echo6_request(
    identifier: u16,
    sequence: u16,
    payload: &[u8],
    source: Ipv6Addr,
    destination: Ipv6Addr,
) -> (message: Vec<u8>)
    requires
        payload.len() <= 0xffff - ICMP_HEADER_SIZE,
    ensures
        message@ == echo6_request(identifier, sequence, payload@, source, destination),
        message.len() == ICMP_HEADER_SIZE + payload.len(),
        checksum_of(pseudo6_total(PROTOCOL_ICMPV6, source, destination, message@)) == 0,
{
    let mut message: Vec<u8> = Vec::new();
    message.push(128);
    message.push(0);
    message.push(0);
    message.push(0);
    push16(&mut message, identifier);
    push16(&mut message, sequence);
    push_bytes(&mut message, payload);
    let ghost open = message@;
    assert(open == echo6_request_open(identifier, sequence, payload@));
    assert(with_word(open, 1, 0) == open);
    let c = message6_checksum(message.as_slice(), source, destination);
    set_word(&mut message, 1, c);
    proof {
        lemma_checksum_seals(
            open,
            1,
            pseudo6_header(PROTOCOL_ICMPV6, source, destination, open.len() as int),
        );
    }
    message
}

/// The TCP header that `f` describes, with the checksum that belongs to
/// it when sent from `source` to `destination` over IPv6.
pub open spec fn tcp_header6(f: TcpFields, source: Ipv6Addr, destination: Ipv6Addr) -> Seq<u8> {
    let open = tcp_header_open(f);
    with_word(open, 8, checksum_of(pseudo6_total(PROTOCOL_TCP, source, destination, open)))
}

/// Builds the TCP header of a probe over IPv6: 20 bytes whose checksum a
/// receiver that knows the two addresses finds intact.
pub fn build_tcp_header6(f: TcpFields, source: Ipv6Addr, destination: Ipv6Addr) -> (header: Vec<u8>)
    ensures
        header@ == tcp_header6(f, source, destination),
        header.len() == TCP_HEADER_SIZE,
        checksum_of(pseudo6_total(PROTOCOL_TCP, source, destination, header@)) == 0,
{
    let mut header: Vec<u8> = Vec::new();
    push16(&mut header, f.source_port);
    push16(&mut header, f.destination_port);
    push32(&mut header, f.sequence);
    push32(&mut header, f.acknowledgement);
    header.push(0x50);
    header.push(f.flags);
    push16(&mut header, f.window);
    header.push(0);
    header.push(0);
    header.push(0);
    header.push(0);
    let ghost open = header@;
    assert(open == tcp_header_open(f));
    assert(with_word(open, 8, 0) == open);
    let c = tcp_ipv6_checksum(header.as_slice(), source, destination);
    set_word(&mut header, 8, c);
    proof {
        lemma_checksum_seals(open, 8, pseudo6_header(PROTOCOL_TCP, source, destination, 20));
    }
    header
}

/// A UDP datagram, with the checksum that belongs to it when sent from
/// `source` to `destination` over IPv6.
pub open spec fn udp_datagram6(
    source_port: u16,
    destination_port: u16,
    payload: Seq<u8>,
    source: Ipv6Addr,
    destination: Ipv6Addr,
) -> Seq<u8> {
    let open = udp_datagram_open(source_port, destination_port, payload);
    with_word(open, 3, checksum_of(pseudo6_total(PROTOCOL_UDP, source, destination, open)))
}

/// Builds a UDP datagram over IPv6 whose checksum a receiver that knows
/// the two addresses finds intact.
pub fn build_udp_datagram6(
    source_port: u16,
    destination_port: u16,
    payload: &[u8],
    source: Ipv6Addr,
    destination: Ipv6Addr,
) -> (datagram: Vec<u8>)
    requires
        payload.len() <= 0xffff - UDP_HEADER_SIZE,
    ensures
        datagram@ == udp_datagram6(source_port, destination_port, payload@, source, destination),
        datagram.len() == UDP_HEADER_SIZE + payload.len(),
        checksum_of(pseudo6_total(PROTOCOL_UDP, source, destination, datagram@)) == 0,
{
    let mut datagram: Vec<u8> = Vec::new();
    push16(&mut datagram, source_port);
    push16(&mut datagram, destination_port);
    let length: u16 = (UDP_HEADER_SIZE + payload.len()) as u16;
    push16(&mut datagram, length);
    datagram.push(0);
    datagram.push(0);
    push_bytes(&mut datagram, payload);
    let ghost open = datagram@;
    assert(open == udp_datagram_open(source_port, destination_port, payload@));
    assert(with_word(open, 3, 0) == open);
    let c = udp_ipv6_checksum(datagram.as_slice(), source, destination);
    set_word(&mut datagram, 3, c);
    proof {
        lemma_checksum_seals(
            open,
            3,
            pseudo6_header(PROTOCOL_UDP, source, destination, open.len() as int),
        );
    }
    datagram
}

/// Where the payload of an IPv4 packet begins: behind the header and its
/// options, and never before the twentieth byte.
pub open spec fn ipv4_payload_start(packet: Seq<u8>) -> int {
    let header = (packet[0] % 16) * 4;
    if header < 20 {
        20
    } else {
        header
    }
}

/// Where the payload of an IPv4 packet ends: where the total length says,
/// and at the end of the buffer at the latest.
pub open spec fn ipv4_payload_end(packet: Seq<u8>) -> int {
    let header = (packet[0] % 16) * 4;
    let total_length = read16(packet, 2) as int;
    let length = if total_length < header {
        0
    } else {
        total_length - header
    };
    if ipv4_payload_start(packet) + length < packet.len() {
        ipv4_payload_start(packet) + length
    } else {
        packet.len() as int
    }
}

/// The payload of an IPv4 packet; nothing where the buffer is shorter
/// than a header.
pub open spec fn ipv4_payload(packet: Seq<u8>) -> Seq<u8> {
    if packet.len() < 20 || packet.len() <= ipv4_payload_start(packet) {
        Seq::empty()
    } else {
        packet.subrange(ipv4_payload_start(packet), ipv4_payload_end(packet))
    }
}

/// The bounds of the payload of an IPv4 packet within the buffer.
pub fn ipv4_payload_bounds(packet: &[u8]) -> (bounds: (usize, usize))
    ensures
        bounds.0 <= bounds.1 <= packet.len(),
        packet@.subrange(bounds.0 as int, bounds.1 as int) == ipv4_payload(packet@),
{
    if packet.len() < 20 {
        return (0, 0);
    }
    let header: usize = (packet[0] % 16) as usize * 4;
    let start: usize = if header < 20 {
        20
    } else {
        header
    };
    if packet.len() <= start {
        return (0, 0);
    }
    let total_length: usize = get16(packet, 2) as usize;
    let length: usize = if total_length < header {
        0
    } else {
        total_length - header
    };
    let end: usize = if start + length < packet.len() {
        start + length
    } else {
        packet.len()
    };
    (start, end)
}

} // verus!
