//! UDP scan and IP protocol scan: the probes and the verdicts.

use crate::addr::Ipv4Addr;
use crate::errors::PacketBuildError;
use crate::layers::LayersMatch;
use crate::packet::{
    build_ipv4_header, build_udp_datagram, ipv4_header, push_bytes, udp_datagram, Ipv4Fields,
    IPV4_HEADER_SIZE, PROTOCOL_UDP, UDP_HEADER_SIZE,
};
use crate::ping::icmp::{message_kind, read_message_kind, ICMP_DESTINATION_UNREACHABLE};
use crate::results::TargetScanStatus;
use crate::scan::tcp::{blocked_by, is_unreachable, Flow, TTL};
use vstd::prelude::*;

verus! {

/// The UDP probe of a flow: the IP header, then a datagram with `payload`.
pub open spec fn udp_probe_packet(flow: Flow, identification: u16, payload: Seq<u8>) -> Seq<u8> {
    ipv4_header(
        Ipv4Fields {
            source: flow.source,
            destination: flow.destination,
            protocol: PROTOCOL_UDP,
            total_length: (28 + payload.len()) as u16,
            identification,
            ttl: TTL,
        },
    ) + udp_datagram(
        flow.source_port,
        flow.destination_port,
        payload,
        flow.source,
        flow.destination,
    )
}

/// The longest payload that a UDP probe can carry.
pub const UDP_PAYLOAD_MAX: usize = 0xffff - IPV4_HEADER_SIZE - UDP_HEADER_SIZE;

/// Builds a UDP probe; the payload is empty, or what the service-probe
/// database gives for the port. A payload that does not fit the packet is
/// refused.
pub fn build_udp_probe_packet(flow: Flow, identification: u16, payload: &[u8]) -> (r: Result<
    Vec<u8>,
    PacketBuildError,
>)
    ensures
        match r {
            Ok(packet) => payload.len() <= UDP_PAYLOAD_MAX && packet@ == udp_probe_packet(
                flow,
                identification,
                payload@,
            ),
            Err(e) => payload.len() > UDP_PAYLOAD_MAX && e == PacketBuildError::PayloadTooLong,
        },
{
    if payload.len() > UDP_PAYLOAD_MAX {
        return Err(PacketBuildError::PayloadTooLong);
    }
    let length: u16 = (IPV4_HEADER_SIZE + UDP_HEADER_SIZE + payload.len()) as u16;
    let ip = Ipv4Fields {
        source: flow.source,
        destination: flow.destination,
        protocol: PROTOCOL_UDP,
        total_length: length,
        identification,
        ttl: TTL,
    };
    let mut packet = build_ipv4_header(ip);
    let datagram = build_udp_datagram(
        flow.source_port,
        flow.destination_port,
        payload,
        flow.source,
        flow.destination,
    );
    push_bytes(&mut packet, datagram.as_slice());
    Ok(packet)
}

/// The probe of an IP protocol scan: an IP header that names the
/// protocol, and nothing behind it.
pub open spec fn protocol_probe_packet(
    source: Ipv4Addr,
    destination: Ipv4Addr,
    protocol: u8,
    identification: u16,
) -> Seq<u8> {
    ipv4_header(
        Ipv4Fields { source, destination, protocol, total_length: 20, identification, ttl: TTL },
    )
}

/// Builds the probe of an IP protocol scan.
pub fn build_protocol_probe_packet(
    source: Ipv4Addr,
    destination: Ipv4Addr,
    protocol: u8,
    identification: u16,
) -> (packet: Vec<u8>)
    ensures
        packet@ == protocol_probe_packet(source, destination, protocol, identification),
        packet.len() == IPV4_HEADER_SIZE,
{
    build_ipv4_header(
        Ipv4Fields { source, destination, protocol, total_length: 20, identification, ttl: TTL },
    )
}

/// The matchers of a UDP probe: the datagrams of the flow in the reverse
/// direction, and any ICMP message that the destination sends to the source.
pub fn build_udp_matchers(flow: Flow) -> (matchers: Vec<LayersMatch>)
    ensures
        matchers@ == crate::scan::tcp::probe_matchers(flow),
{
    crate::scan::tcp::build_probe_matchers(flow)
}

/// Whether a packet has the protocol number `protocol`.
pub open spec fn has_protocol(packet: Seq<u8>, protocol: u8) -> bool {
    packet.len() >= 20 && packet[9] == protocol
}

/// Whether a packet is an ICMP destination unreachable message with the
/// code `code`.
pub open spec fn is_unreachable_with(packet: Seq<u8>, code: u8) -> bool {
    message_kind(packet) == Some((ICMP_DESTINATION_UNREACHABLE, code))
}

/// What the response to a UDP probe tells of the port: open on a UDP
/// datagram, closed on an ICMP port unreachable message, filtered on
/// another ICMP unreachable message, and open or filtered otherwise.
pub open spec fn udp_verdict(response: Option<Seq<u8>>) -> TargetScanStatus {
    match response {
        Some(packet) => if has_protocol(packet, PROTOCOL_UDP) {
            TargetScanStatus::Open
        } else if is_unreachable_with(packet, 3) {
            TargetScanStatus::Closed
        } else if is_unreachable(packet) {
            TargetScanStatus::Filtered
        } else {
            TargetScanStatus::OpenOrFiltered
        },
        None => TargetScanStatus::OpenOrFiltered,
    }
}

/// What the response to an IP protocol probe tells of the protocol: open
/// on any packet of that protocol, closed on an ICMP protocol unreachable
/// message, filtered on another ICMP unreachable message, and open or
/// filtered otherwise.
pub open spec fn ip_protocol_verdict(protocol: u8, response: Option<Seq<u8>>) -> TargetScanStatus {
    match response {
        Some(packet) => if is_unreachable_with(packet, 2) {
            TargetScanStatus::Closed
        } else if is_unreachable(packet) {
            TargetScanStatus::Filtered
        } else if has_protocol(packet, protocol) {
            TargetScanStatus::Open
        } else {
            TargetScanStatus::OpenOrFiltered
        },
        None => TargetScanStatus::OpenOrFiltered,
    }
}

/// Computes `udp_verdict`.
pub fn udp_scan_status(response: &Option<Vec<u8>>) -> (status: TargetScanStatus)
    ensures
        status == udp_verdict(crate::ping::icmp::response_view(*response)),
{
    match response {
        Some(packet) => {
            let packet = packet.as_slice();
            if packet.len() >= 20 && packet[9] == PROTOCOL_UDP {
                TargetScanStatus::Open
            } else if read_message_kind(packet) == Some((ICMP_DESTINATION_UNREACHABLE, 3u8)) {
                TargetScanStatus::Closed
            } else if blocked_by(packet) {
                TargetScanStatus::Filtered
            } else {
                TargetScanStatus::OpenOrFiltered
            }
        },
        None => TargetScanStatus::OpenOrFiltered,
    }
}

/// Computes `ip_protocol_verdict`.
pub fn ip_protocol_scan_status(protocol: u8, response: &Option<Vec<u8>>) -> (status:
    TargetScanStatus)
    ensures
        status == ip_protocol_verdict(protocol, crate::ping::icmp::response_view(*response)),
{
    match response {
        Some(packet) => {
            let packet = packet.as_slice();
            if read_message_kind(packet) == Some((ICMP_DESTINATION_UNREACHABLE, 2u8)) {
                TargetScanStatus::Closed
            } else if blocked_by(packet) {
                TargetScanStatus::Filtered
            } else if packet.len() >= 20 && packet[9] == protocol {
                TargetScanStatus::Open
            } else {
                TargetScanStatus::OpenOrFiltered
            }
        },
        None => TargetScanStatus::OpenOrFiltered,
    }
}

} // verus!
