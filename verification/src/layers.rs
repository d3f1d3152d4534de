//! Response matchers: declarative predicates over the fields of a
//! received Ethernet frame, by which a response is told from the rest of
//! the traffic and bound to the probe that caused it.

use crate::addr::{IpAddr, Ipv4Addr, Ipv6Addr};
use crate::packet::{
    get16, get32, ipv4_payload, ipv4_payload_bounds, read16, read32, IPV6_HEADER_SIZE,
    PROTOCOL_ICMP, PROTOCOL_ICMPV6, PROTOCOL_TCP, PROTOCOL_UDP,
};
use vstd::prelude::*;

verus! {

/// The length of an Ethernet header.
pub const ETHERNET_HEADER_SIZE: usize = 14;

/// The ethertype of IPv4.
pub const ETHERTYPE_IPV4: u16 = 0x0800;

/// The ethertype of ARP.
pub const ETHERTYPE_ARP: u16 = 0x0806;

/// The ethertype of IPv6.
pub const ETHERTYPE_IPV6: u16 = 0x86DD;

/// A hardware address: six octets, in the order written.
#[derive(Debug, Clone, Copy, PartialEq, Eq, Hash, Structural)]
pub struct MacAddr(pub u8, pub u8, pub u8, pub u8, pub u8, pub u8);

/// The hardware address that the six bytes at `at` write.
pub open spec fn read_mac(data: Seq<u8>, at: int) -> MacAddr {
    MacAddr(data[at], data[at + 1], data[at + 2], data[at + 3], data[at + 4], data[at + 5])
}

/// Reads a hardware address.
pub fn get_mac(data: &[u8], at: usize) -> (mac: MacAddr)
    requires
        at + 5 < data.len(),
    ensures
        mac == read_mac(data@, at as int),
{
    MacAddr(data[at], data[at + 1], data[at + 2], data[at + 3], data[at + 4], data[at + 5])
}

/// The IPv6 address that the sixteen bytes at `at` write.
pub open spec fn read_ipv6(data: Seq<u8>, at: int) -> Ipv6Addr {
    Ipv6Addr {
        bits: (read32(data, at) * 0x1_0000_0000_0000_0000_0000_0000 + read32(data, at + 4)
            * 0x1_0000_0000_0000_0000 + read32(data, at + 8) * 0x1_0000_0000 + read32(
            data,
            at + 12,
        )) as u128,
    }
}

/// Reads an IPv6 address.
pub fn get_ipv6(data: &[u8], at: usize) -> (addr: Ipv6Addr)
    requires
        at + 15 < data.len(),
    ensures
        addr == read_ipv6(data@, at as int),
{
    let a = get32(data, at) as u128;
    let b = get32(data, at + 4) as u128;
    let c = get32(data, at + 8) as u128;
    let d = get32(data, at + 12) as u128;
    Ipv6Addr {
        bits: a * 0x1_0000_0000_0000_0000_0000_0000 + b * 0x1_0000_0000_0000_0000 + c
            * 0x1_0000_0000 + d,
    }
}

/// The ethertype of a frame; none where the frame is shorter than an
/// Ethernet header.
pub open spec fn frame_ethertype(frame: Seq<u8>) -> Option<u16> {
    if frame.len() >= 14 {
        Some(read16(frame, 12))
    } else {
        None
    }
}

/// What a frame carries behind its Ethernet header.
pub open spec fn frame_payload(frame: Seq<u8>) -> Seq<u8> {
    frame.skip(14)
}

/// The network addresses of a frame, source first: those of the IPv4 or
/// IPv6 header, or the protocol addresses of sender and target of an ARP
/// message over IPv4. None where the frame carries none of these, or is
/// cut short.
pub open spec fn frame_addresses(frame: Seq<u8>) -> Option<(IpAddr, IpAddr)> {
    let p = frame_payload(frame);
    match frame_ethertype(frame) {
        Some(t) => if t == ETHERTYPE_IPV4 && p.len() >= 20 {
            Some(
                (
                    IpAddr::V4(Ipv4Addr { bits: read32(p, 12) }),
                    IpAddr::V4(Ipv4Addr { bits: read32(p, 16) }),
                ),
            )
        } else if t == ETHERTYPE_IPV6 && p.len() >= 40 {
            Some((IpAddr::V6(read_ipv6(p, 8)), IpAddr::V6(read_ipv6(p, 24))))
        } else if t == ETHERTYPE_ARP && p.len() >= 28 {
            Some(
                (
                    IpAddr::V4(Ipv4Addr { bits: read32(p, 14) }),
                    IpAddr::V4(Ipv4Addr { bits: read32(p, 24) }),
                ),
            )
        } else {
            None
        },
        None => None,
    }
}

/// The source address of a frame.
pub open spec fn frame_source(frame: Seq<u8>) -> Option<IpAddr> {
    match frame_addresses(frame) {
        Some(pair) => Some(pair.0),
        None => None,
    }
}

/// The destination address of a frame.
pub open spec fn frame_destination(frame: Seq<u8>) -> Option<IpAddr> {
    match frame_addresses(frame) {
        Some(pair) => Some(pair.1),
        None => None,
    }
}

/// The protocol above the network layer and what it carries: for IPv4 the
/// protocol field and the payload, for IPv6 the next header field and
/// what follows the fixed header. None for any other frame.
pub open spec fn frame_transport(frame: Seq<u8>) -> Option<(u8, Seq<u8>)> {
    let p = frame_payload(frame);
    match frame_ethertype(frame) {
        Some(t) => if t == ETHERTYPE_IPV4 && p.len() >= 20 {
            Some((p[9], ipv4_payload(p)))
        } else if t == ETHERTYPE_IPV6 && p.len() >= 40 {
            Some((p[6], p.skip(40)))
        } else {
            None
        },
        None => None,
    }
}

/// Whether a field of a matcher admits a value: an unset field admits all.
pub open spec fn admits<T>(field: Option<T>, value: T) -> bool {
    match field {
        Some(wanted) => wanted == value,
        None => true,
    }
}

/// Whether a list of a matcher admits a value: an unset list admits all.
pub open spec fn lists(field: Option<Vec<u8>>, value: u8) -> bool {
    match field {
        Some(wanted) => wanted@.contains(value),
        None => true,
    }
}

/// A predicate over the Ethernet header.
#[derive(Debug, Clone, Copy, PartialEq, Eq, Structural)]
pub struct Layer2Match {
    pub ethertype: Option<u16>,
    pub src_mac: Option<MacAddr>,
    pub dst_mac: Option<MacAddr>,
}

impl Layer2Match {
    /// The frame has an Ethernet header, and every field that is set
    /// equals the header's.
    pub open spec fn matches(self, frame: Seq<u8>) -> bool {
        &&& frame.len() >= 14
        &&& admits(self.ethertype, read16(frame, 12))
        &&& admits(self.src_mac, read_mac(frame, 6))
        &&& admits(self.dst_mac, read_mac(frame, 0))
    }

    /// Decides `matches`.
    pub fn do_match(&self, frame: &[u8]) -> (m: bool)
        ensures
            m == self.matches(frame@),
    {
        if frame.len() < ETHERNET_HEADER_SIZE {
            return false;
        }
        let m1 = match self.ethertype {
            Some(t) => t == get16(frame, 12),
            None => true,
        };
        let m2 = match self.src_mac {
            Some(mac) => mac == get_mac(frame, 6),
            None => true,
        };
        let m3 = match self.dst_mac {
            Some(mac) => mac == get_mac(frame, 0),
            None => true,
        };
        m1 && m2 && m3
    }
}

/// A predicate over the network addresses, and over the Ethernet header
/// where `layer2` is set.
#[derive(Debug, Clone, Copy, PartialEq, Eq, Structural)]
pub struct Layer3Match {
    pub layer2: Option<Layer2Match>,
    pub src_addr: Option<IpAddr>,
    pub dst_addr: Option<IpAddr>,
}

/// The network addresses of a frame, source first.
pub fn read_addresses(frame: &[u8]) -> (r: Option<(IpAddr, IpAddr)>)
    ensures
        r == frame_addresses(frame@),
{
    if frame.len() < ETHERNET_HEADER_SIZE {
        return None;
    }
    let ethertype = get16(frame, 12);
    let rest: usize = frame.len() - ETHERNET_HEADER_SIZE;
    let ghost p = frame_payload(frame@);
    assert(forall|i: int| 0 <= i < p.len() ==> p[i] == frame@[14 + i]);
    if ethertype == ETHERTYPE_IPV4 && rest >= 20 {
        let source = Ipv4Addr { bits: get32(frame, 26) };
        let destination = Ipv4Addr { bits: get32(frame, 30) };
        Some((IpAddr::V4(source), IpAddr::V4(destination)))
    } else if ethertype == ETHERTYPE_IPV6 && rest >= IPV6_HEADER_SIZE {
        let source = get_ipv6(frame, 22);
        let destination = get_ipv6(frame, 38);
        Some((IpAddr::V6(source), IpAddr::V6(destination)))
    } else if ethertype == ETHERTYPE_ARP && rest >= 28 {
        let source = Ipv4Addr { bits: get32(frame, 28) };
        let destination = Ipv4Addr { bits: get32(frame, 38) };
        Some((IpAddr::V4(source), IpAddr::V4(destination)))
    } else {
        None
    }
}

impl Layer3Match {
    /// The frame carries network addresses, every address that is set
    /// equals the frame's, and the Ethernet header meets `layer2` where
    /// that is set.
    pub open spec fn matches(self, frame: Seq<u8>) -> bool {
        &&& match self.layer2 {
            Some(below) => below.matches(frame),
            None => true,
        }
        &&& match frame_addresses(frame) {
            Some(pair) => admits(self.src_addr, pair.0) && admits(self.dst_addr, pair.1),
            None => false,
        }
    }

    /// Decides `matches`.
    pub fn do_match(&self, frame: &[u8]) -> (m: bool)
        ensures
            m == self.matches(frame@),
            m && self.src_addr is Some ==> frame_source(frame@) == self.src_addr,
            m && self.dst_addr is Some ==> frame_destination(frame@) == self.dst_addr,
    {
        let m1 = match &self.layer2 {
            Some(below) => below.do_match(frame),
            None => true,
        };
        if !m1 {
            return false;
        }
        match read_addresses(frame) {
            Some((source, destination)) => {
                let m2 = match self.src_addr {
                    Some(a) => a == source,
                    None => true,
                };
                let m3 = match self.dst_addr {
                    Some(a) => a == destination,
                    None => true,
                };
                m2 && m3
            },
            None => false,
        }
    }
}

/// The bounds, within the frame, of what the protocol above the network
/// layer carries, and that protocol's number.
pub fn read_transport(frame: &[u8]) -> (r: Option<(u8, usize, usize)>)
    ensures
        match r {
            Some((protocol, from, to)) => from <= to <= frame.len() && frame_transport(frame@)
                == Some((protocol, frame@.subrange(from as int, to as int))),
            None => frame_transport(frame@) is None,
        },
{
    if frame.len() < ETHERNET_HEADER_SIZE {
        return None;
    }
    let ethertype = get16(frame, 12);
    let rest: usize = frame.len() - ETHERNET_HEADER_SIZE;
    let ghost p = frame_payload(frame@);
    assert(forall|i: int| 0 <= i < p.len() ==> p[i] == frame@[14 + i]);
    if ethertype == ETHERTYPE_IPV4 && rest >= 20 {
        let packet = slice_from(frame, ETHERNET_HEADER_SIZE);
        let (from, to) = ipv4_payload_bounds(packet);
        assert(p.subrange(from as int, to as int) == frame@.subrange(14 + from, 14 + to));
        Some((frame[23], ETHERNET_HEADER_SIZE + from, ETHERNET_HEADER_SIZE + to))
    } else if ethertype == ETHERTYPE_IPV6 && rest >= IPV6_HEADER_SIZE {
        assert(p.skip(40) == frame@.subrange(54, frame.len() as int));
        Some((frame[20], ETHERNET_HEADER_SIZE + IPV6_HEADER_SIZE, frame.len()))
    } else {
        None
    }
}

/// The bytes of `data` from `from` on.
pub fn slice_from(data: &[u8], from: usize) -> (rest: &[u8])
    requires
        from <= data.len(),
    ensures
        rest@ == data@.skip(from as int),
{
    vstd::slice::slice_subrange(data, from, data.len())
}

/// A predicate over the ports of a TCP segment or a UDP datagram, and
/// over the layers below where `layer3` is set.
#[derive(Debug, Clone, Copy, PartialEq, Eq, Structural)]
pub struct Layer4MatchTcpUdp {
    pub layer3: Option<Layer3Match>,
    pub src_port: Option<u16>,
    pub dst_port: Option<u16>,
}

impl Layer4MatchTcpUdp {
    /// The frame carries TCP or UDP, every port that is set equals the
    /// frame's, and the frame meets `layer3` where that is set.
    pub open spec fn matches(self, frame: Seq<u8>) -> bool {
        &&& match self.layer3 {
            Some(below) => below.matches(frame),
            None => true,
        }
        &&& match frame_transport(frame) {
            Some((protocol, data)) => {
                &&& protocol == PROTOCOL_TCP || protocol == PROTOCOL_UDP
                &&& data.len() >= 4
                &&& admits(self.src_port, read16(data, 0))
                &&& admits(self.dst_port, read16(data, 2))
            },
            None => false,
        }
    }

    /// Decides `matches`.
    pub fn do_match(&self, frame: &[u8]) -> (m: bool)
        ensures
            m == self.matches(frame@),
    {
        let m1 = match &self.layer3 {
            Some(below) => below.do_match(frame),
            None => true,
        };
        if !m1 {
            return false;
        }
        match read_transport(frame) {
            Some((protocol, from, to)) => {
                if (protocol != PROTOCOL_TCP && protocol != PROTOCOL_UDP) || to - from < 4 {
                    return false;
                }
                let ghost data = frame@.subrange(from as int, to as int);
                assert(data[0] == frame@[from as int] && data[1] == frame@[from + 1] && data[2]
                    == frame@[from + 2] && data[3] == frame@[from + 3]);
                let m2 = match self.src_port {
                    Some(port) => port == get16(frame, from),
                    None => true,
                };
                let m3 = match self.dst_port {
                    Some(port) => port == get16(frame, from + 2),
                    None => true,
                };
                m2 && m3
            },
            None => false,
        }
    }
}

/// A predicate over type and code of an ICMP or ICMPv6 message, and over
/// the layers below where `layer3` is set.
#[derive(Debug, Clone)]
pub struct Layer4MatchIcmp {
    pub layer3: Option<Layer3Match>,
    /// The types admitted; all where unset.
    pub types: Option<Vec<u8>>,
    /// The codes admitted; all where unset.
    pub codes: Option<Vec<u8>>,
}

/// Whether `list` holds `value`.
pub fn holds(list: &Vec<u8>, value: u8) -> (r: bool)
    ensures
        r == list@.contains(value),
{
    let mut i: usize = 0;
    while i < list.len()
        invariant
            i <= list.len(),
            forall|j: int| 0 <= j < i ==> list@[j] != value,
        decreases list.len() - i,
    {
        if list[i] == value {
            return true;
        }
        i += 1;
    }
    false
}

impl Layer4MatchIcmp {
    /// The frame carries ICMP over IPv4 or ICMPv6 over IPv6, type and code
    /// are among those listed where a list is set, and the frame meets
    /// `layer3` where that is set.
    pub open spec fn matches(self, frame: Seq<u8>) -> bool {
        &&& match self.layer3 {
            Some(below) => below.matches(frame),
            None => true,
        }
        &&& match frame_transport(frame) {
            Some((protocol, data)) => {
                &&& protocol == PROTOCOL_ICMP && frame_ethertype(frame) == Some(ETHERTYPE_IPV4)
                    || protocol == PROTOCOL_ICMPV6 && frame_ethertype(frame) == Some(
                    ETHERTYPE_IPV6,
                )
                &&& data.len() >= 4
                &&& lists(self.types, data[0])
                &&& lists(self.codes, data[1])
            },
            None => false,
        }
    }

    /// Decides `matches`.
    pub fn do_match(&self, frame: &[u8]) -> (m: bool)
        ensures
            m == self.matches(frame@),
    {
        let m1 = match &self.layer3 {
            Some(below) => below.do_match(frame),
            None => true,
        };
        if !m1 {
            return false;
        }
        match read_transport(frame) {
            Some((protocol, from, to)) => {
                let ethertype = get16(frame, 12);
                let family = (protocol == PROTOCOL_ICMP && ethertype == ETHERTYPE_IPV4) || (protocol
                    == PROTOCOL_ICMPV6 && ethertype == ETHERTYPE_IPV6);
                if !family || to - from < 4 {
                    return false;
                }
                let ghost data = frame@.subrange(from as int, to as int);
                assert(data[0] == frame@[from as int] && data[1] == frame@[from + 1]);
                let m2 = match &self.types {
                    Some(list) => holds(list, frame[from]),
                    None => true,
                };
                let m3 = match &self.codes {
                    Some(list) => holds(list, frame[from + 1]),
                    None => true,
                };
                m2 && m3
            },
            None => false,
        }
    }
}

/// A matcher of any of the four shapes.
#[derive(Debug, Clone)]
pub enum LayersMatch {
    Layer2Match(Layer2Match),
    Layer3Match(Layer3Match),
    Layer4MatchTcpUdp(Layer4MatchTcpUdp),
    Layer4MatchIcmp(Layer4MatchIcmp),
}

impl LayersMatch {
    /// Whether the frame meets the matcher.
    pub open spec fn matches(self, frame: Seq<u8>) -> bool {
        match self {
            LayersMatch::Layer2Match(m) => m.matches(frame),
            LayersMatch::Layer3Match(m) => m.matches(frame),
            LayersMatch::Layer4MatchTcpUdp(m) => m.matches(frame),
            LayersMatch::Layer4MatchIcmp(m) => m.matches(frame),
        }
    }

    /// The predicate over the network addresses that the matcher holds,
    /// if any.
    pub open spec fn layer3(self) -> Option<Layer3Match> {
        match self {
            LayersMatch::Layer2Match(_) => None,
            LayersMatch::Layer3Match(m) => Some(m),
            LayersMatch::Layer4MatchTcpUdp(m) => m.layer3,
            LayersMatch::Layer4MatchIcmp(m) => m.layer3,
        }
    }

    /// Decides `matches`.
    pub fn do_match(&self, frame: &[u8]) -> (m: bool)
        ensures
            m == self.matches(frame@),
    {
        match self {
            LayersMatch::Layer2Match(m) => m.do_match(frame),
            LayersMatch::Layer3Match(m) => m.do_match(frame),
            LayersMatch::Layer4MatchTcpUdp(m) => m.do_match(frame),
            LayersMatch::Layer4MatchIcmp(m) => m.do_match(frame),
        }
    }
}

/// A frame that a matcher accepts has the source address that the
/// matcher names, and the destination address that it names.
pub proof fn lemma_matcher_sound(matcher: LayersMatch, frame: Seq<u8>)
    requires
        matcher.matches(frame),
        matcher.layer3() is Some,
    ensures
        matcher.layer3()->Some_0.src_addr is Some ==> frame_source(frame)
            == matcher.layer3()->Some_0.src_addr,
        matcher.layer3()->Some_0.dst_addr is Some ==> frame_destination(frame)
            == matcher.layer3()->Some_0.dst_addr,
{
}

/// A frame that a port matcher accepts has the ports that the matcher
/// names: a matcher with both addresses and both ports set accepts the
/// frames of one flow only.
pub proof fn lemma_ports_pinned(matcher: Layer4MatchTcpUdp, frame: Seq<u8>)
    requires
        matcher.matches(frame),
    ensures
        frame_transport(frame) is Some,
        matcher.src_port is Some ==> Some(read16(frame_transport(frame)->Some_0.1, 0))
            == matcher.src_port,
        matcher.dst_port is Some ==> Some(read16(frame_transport(frame)->Some_0.1, 2))
            == matcher.dst_port,
{
}

/// Whether any of `matchers` accepts the frame.
pub open spec fn any_matches(matchers: Seq<LayersMatch>, frame: Seq<u8>) -> bool {
    exists|i: int| 0 <= i < matchers.len() && (#[trigger] matchers[i]).matches(frame)
}

/// What a received frame means to a probe that waits for a response: the
/// frame's payload where one of the probe's matchers accepts the frame,
/// and nothing where none does.
pub fn select_response(matchers: &[LayersMatch], frame: &[u8]) -> (response: Option<Vec<u8>>)
    ensures
        match response {
            Some(packet) => any_matches(matchers@, frame@) && packet@ == frame_payload(frame@),
            None => !any_matches(matchers@, frame@),
        },
{
    let mut i: usize = 0;
    while i < matchers.len()
        invariant
            i <= matchers.len(),
            forall|j: int| 0 <= j < i ==> !(#[trigger] matchers@[j]).matches(frame@),
        decreases matchers.len() - i,
    {
        if matchers[i].do_match(frame) {
            let from: usize = if frame.len() < ETHERNET_HEADER_SIZE {
                frame.len()
            } else {
                ETHERNET_HEADER_SIZE
            };
            let mut packet: Vec<u8> = Vec::new();
            crate::packet::push_bytes(&mut packet, slice_from(frame, from));
            assert(frame.len() >= 14) by {
                lemma_accepts_header(matchers@[i as int], frame@);
            }
            return Some(packet);
        }
        i += 1;
    }
    None
}

/// A frame that a matcher accepts has an Ethernet header.
pub proof fn lemma_accepts_header(matcher: LayersMatch, frame: Seq<u8>)
    requires
        matcher.matches(frame),
    ensures
        frame.len() >= 14,
{
}

} // verus!
