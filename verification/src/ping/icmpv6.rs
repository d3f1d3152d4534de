//! ICMPv6 echo ping: the probe, the matcher that binds a response to it,
//! and the verdict that a response gives.

use crate::addr::{IpAddr, Ipv6Addr};
use crate::layers::{Layer3Match, Layer4MatchIcmp, LayersMatch};
use crate::packet::{
    build_echo6_request, build_ipv6_header, echo6_request, ipv6_header, push32, push64,
    push_bytes, Ipv6Fields, ICMP_HEADER_SIZE, IPV6_HEADER_SIZE, PROTOCOL_ICMPV6,
};
use crate::ping::icmp::{
    answers, draw_ping_nonce, is_answer, ping_data, response_view, PingNonce, ICMP_DATA_SIZE,
};
use crate::results::PingStatus;
use vstd::prelude::*;

verus! {

/// The hop limit of a ping.
pub const HOP_LIMIT: u8 = 64;

/// The ICMPv6 type of an echo reply.
pub const ICMPV6_ECHO_REPLY: u8 = 129;

/// The IPv6 header of a ping.
pub open spec fn ping6_fields(source: Ipv6Addr, destination: Ipv6Addr) -> Ipv6Fields {
    Ipv6Fields {
        source,
        destination,
        next_header: PROTOCOL_ICMPV6,
        payload_length: 24,
        hop_limit: HOP_LIMIT,
    }
}

/// The ping packet: the IPv6 header, then the echo request. The
/// identification that is drawn for the IPv4 header has no place in it.
pub open spec fn ping6_packet(source: Ipv6Addr, destination: Ipv6Addr, nonce: PingNonce) -> Seq<
    u8,
> {
    ipv6_header(ping6_fields(source, destination)) + echo6_request(
        nonce.identifier,
        nonce.sequence,
        ping_data(nonce),
        source,
        destination,
    )
}

/// Builds the ping packet: 64 bytes, IPv6 header and echo request, the
/// latter with a checksum that a receiver finds intact.
pub fn build_ping6_packet(source: Ipv6Addr, destination: Ipv6Addr, nonce: PingNonce) -> (packet:
    Vec<u8>)
    ensures
        packet@ == ping6_packet(source, destination, nonce),
        packet.len() == IPV6_HEADER_SIZE + ICMP_HEADER_SIZE + ICMP_DATA_SIZE,
        crate::checksum::checksum_of(
            crate::checksum::pseudo6_total(
                PROTOCOL_ICMPV6,
                source,
                destination,
                packet@.subrange(40, 64),
            ),
        ) == 0,
{
    let fields = Ipv6Fields {
        source,
        destination,
        next_header: PROTOCOL_ICMPV6,
        payload_length: 24,
        hop_limit: HOP_LIMIT,
    };
    let mut packet = build_ipv6_header(fields);
    let mut data: Vec<u8> = Vec::new();
    push64(&mut data, nonce.tv_sec);
    push32(&mut data, nonce.tv_msec);
    data.push(0);
    data.push(0);
    data.push(0);
    data.push(0);
    assert(data@ == ping_data(nonce));
    let message = build_echo6_request(
        nonce.identifier,
        nonce.sequence,
        data.as_slice(),
        source,
        destination,
    );
    push_bytes(&mut packet, message.as_slice());
    assert(packet@.subrange(40, 64) == message@);
    packet
}

/// The matchers of a ping from `source` to `destination`: any ICMPv6
/// message that `destination` sends to `source`.
pub open spec fn ping6_matchers(source: Ipv6Addr, destination: Ipv6Addr) -> Seq<LayersMatch> {
    seq![
        LayersMatch::Layer4MatchIcmp(
            Layer4MatchIcmp {
                layer3: Some(
                    Layer3Match {
                        layer2: None,
                        src_addr: Some(IpAddr::V6(destination)),
                        dst_addr: Some(IpAddr::V6(source)),
                    },
                ),
                types: None,
                codes: None,
            },
        ),
    ]
}

/// Builds the matchers of a ping.
pub fn build_ping6_matchers(source: Ipv6Addr, destination: Ipv6Addr) -> (matchers: Vec<
    LayersMatch,
>)
    ensures
        matchers@ == ping6_matchers(source, destination),
{
    let layer3 = Layer3Match {
        layer2: None,
        src_addr: Some(IpAddr::V6(destination)),
        dst_addr: Some(IpAddr::V6(source)),
    };
    let layer4 = Layer4MatchIcmp { layer3: Some(layer3), types: None, codes: None };
    let mut matchers: Vec<LayersMatch> = Vec::new();
    matchers.push(LayersMatch::Layer4MatchIcmp(layer4));
    matchers
}

/// What a response tells of the host: up where it is an ICMPv6 echo reply,
/// right behind the IPv6 header, that answers the ping that `nonce` was
/// drawn for, and down otherwise, be it a reply to another ping, a
/// destination unreachable message, anything else, or no response.
pub open spec fn ping6_verdict(response: Option<Seq<u8>>, nonce: PingNonce) -> PingStatus {
    match response {
        Some(packet) => if packet.len() >= 40 && packet[6] == PROTOCOL_ICMPV6 && answers(
            packet.subrange(40, packet.len() as int),
            ICMPV6_ECHO_REPLY,
            nonce,
        ) {
            PingStatus::Up
        } else {
            PingStatus::Down
        },
        None => PingStatus::Down,
    }
}

/// Computes `ping6_verdict`.
pub fn ping6_status(response: &Option<Vec<u8>>, nonce: PingNonce) -> (status: PingStatus)
    ensures
        status == ping6_verdict(response_view(*response), nonce),
{
    match response {
        Some(packet) => {
            let packet = packet.as_slice();
            if packet.len() < IPV6_HEADER_SIZE || packet[6] != PROTOCOL_ICMPV6 {
                return PingStatus::Down;
            }
            if is_answer(packet, IPV6_HEADER_SIZE, packet.len(), ICMPV6_ECHO_REPLY, nonce) {
                PingStatus::Up
            } else {
                PingStatus::Down
            }
        },
        None => PingStatus::Down,
    }
}

/// A ping over IPv6, ready to send.
#[derive(Debug, Clone)]
pub struct Ping6Probe {
    pub nonce: PingNonce,
    pub packet: Vec<u8>,
    pub matchers: Vec<LayersMatch>,
}

/// Makes a ping, with numbers drawn at random and the time of the call.
pub fn ping6_probe(source: Ipv6Addr, destination: Ipv6Addr) -> (probe: Ping6Probe)
    ensures
        probe.packet@ == ping6_packet(source, destination, probe.nonce),
        probe.matchers@ == ping6_matchers(source, destination),
{
    let nonce = draw_ping_nonce();
    Ping6Probe {
        nonce,
        packet: build_ping6_packet(source, destination, nonce),
        matchers: build_ping6_matchers(source, destination),
    }
}

} // verus!
