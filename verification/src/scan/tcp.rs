//! TCP scans: SYN, FIN, NULL, Xmas, ACK, Window and Maimon probes, and
//! the idle scan's reading of a zombie's counter.

use crate::addr::{IpAddr, Ipv4Addr};
use crate::layers::{Layer3Match, Layer4MatchIcmp, Layer4MatchTcpUdp, LayersMatch};
use crate::packet::{
    build_ipv4_header, build_tcp_header, get16, ipv4_header, ipv4_payload, ipv4_payload_bounds,
    push_bytes, read16, tcp_header, Ipv4Fields, TcpFields, IPV4_HEADER_SIZE, PROTOCOL_TCP,
    TCP_ACK, TCP_FIN, TCP_HEADER_SIZE, TCP_PSH, TCP_RST, TCP_SYN, TCP_URG,
};
use crate::ping::icmp::{
    is_unreachable_code, message_kind, random_u32, read_message_kind, response_view,
    unreachable_code, ICMP_DESTINATION_UNREACHABLE,
};
use crate::results::{IdleScanResults, TargetScanStatus};
use vstd::prelude::*;

verus! {

/// The time to live of a scan probe.
pub const TTL: u8 = 64;

/// A way to probe a TCP port.
#[derive(Debug, Clone, Copy, PartialEq, Eq, Structural)]
pub enum TcpTechnique {
    Syn,
    Fin,
    Null,
    Xmas,
    Ack,
    Window,
    Maimon,
}

/// The flags that the probe of a technique carries.
pub open spec fn probe_flags(technique: TcpTechnique) -> u8 {
    match technique {
        TcpTechnique::Syn => TCP_SYN,
        TcpTechnique::Fin => TCP_FIN,
        TcpTechnique::Null => 0,
        TcpTechnique::Xmas => 0x29,
        TcpTechnique::Ack => TCP_ACK,
        TcpTechnique::Window => TCP_ACK,
        TcpTechnique::Maimon => 0x11,
    }
}

/// The window that the probe of a technique announces.
pub open spec fn probe_window(technique: TcpTechnique) -> u16 {
    match technique {
        TcpTechnique::Syn => 2048,
        _ => 1024,
    }
}

/// The Xmas probe carries FIN, PSH and URG, and the Maimon probe FIN and ACK.
pub proof fn lemma_probe_flags()
    ensures
        probe_flags(TcpTechnique::Xmas) == TCP_FIN | TCP_PSH | TCP_URG,
        probe_flags(TcpTechnique::Maimon) == TCP_FIN | TCP_ACK,
{
    assert(0x29u8 == 0x01u8 | 0x08u8 | 0x20u8) by (bit_vector);
    assert(0x11u8 == 0x01u8 | 0x10u8) by (bit_vector);
}

/// Computes `probe_flags`.
pub fn flags_of(technique: TcpTechnique) -> (flags: u8)
    ensures
        flags == probe_flags(technique),
{
    match technique {
        TcpTechnique::Syn => TCP_SYN,
        TcpTechnique::Fin => TCP_FIN,
        TcpTechnique::Null => 0,
        TcpTechnique::Xmas => 0x29,
        TcpTechnique::Ack => TCP_ACK,
        TcpTechnique::Window => TCP_ACK,
        TcpTechnique::Maimon => 0x11,
    }
}

/// Computes `probe_window`.
pub fn window_of(technique: TcpTechnique) -> (window: u16)
    ensures
        window == probe_window(technique),
{
    match technique {
        TcpTechnique::Syn => 2048,
        _ => 1024,
    }
}

/// The two ends of the flow that a probe opens.
#[derive(Debug, Clone, Copy, PartialEq, Eq, Structural)]
pub struct Flow {
    pub source: Ipv4Addr,
    pub destination: Ipv4Addr,
    pub source_port: u16,
    pub destination_port: u16,
}

/// What is drawn for one TCP probe: the identification of the IP header,
/// the sequence number, and the acknowledgement number, which the first
/// segment of a flow does not use.
#[derive(Debug, Clone, Copy, PartialEq, Eq, Structural)]
pub struct TcpNonce {
    pub identification: u16,
    pub sequence: u32,
    pub acknowledgement: u32,
}

/// The IP header of a TCP probe.
pub open spec fn probe_ip_fields(flow: Flow, nonce: TcpNonce) -> Ipv4Fields {
    Ipv4Fields {
        source: flow.source,
        destination: flow.destination,
        protocol: PROTOCOL_TCP,
        total_length: 40,
        identification: nonce.identification,
        ttl: TTL,
    }
}

/// The TCP header of a probe.
pub open spec fn probe_tcp_fields(technique: TcpTechnique, flow: Flow, nonce: TcpNonce)
    -> TcpFields {
    TcpFields {
        source_port: flow.source_port,
        destination_port: flow.destination_port,
        sequence: nonce.sequence,
        acknowledgement: nonce.acknowledgement,
        flags: probe_flags(technique),
        window: probe_window(technique),
    }
}

/// The probe of a technique: the IP header, then the TCP header.
pub open spec fn probe_packet(technique: TcpTechnique, flow: Flow, nonce: TcpNonce) -> Seq<u8> {
    ipv4_header(probe_ip_fields(flow, nonce)) + tcp_header(
        probe_tcp_fields(technique, flow, nonce),
        flow.source,
        flow.destination,
    )
}

/// Builds the probe of a technique: 40 bytes, IP header and TCP header,
/// each with a checksum that a receiver finds intact.
pub fn build_probe_packet(technique: TcpTechnique, flow: Flow, nonce: TcpNonce) -> (packet: Vec<u8>)
    ensures
        packet@ == probe_packet(technique, flow, nonce),
        packet.len() == IPV4_HEADER_SIZE + TCP_HEADER_SIZE,
        crate::checksum::internet_checksum(packet@.subrange(0, 20)) == 0,
        crate::checksum::checksum_of(
            crate::checksum::pseudo_total(
                PROTOCOL_TCP,
                flow.source,
                flow.destination,
                packet@.subrange(20, 40),
            ),
        ) == 0,
{
    let ip = Ipv4Fields {
        source: flow.source,
        destination: flow.destination,
        protocol: PROTOCOL_TCP,
        total_length: 40,
        identification: nonce.identification,
        ttl: TTL,
    };
    let tcp = TcpFields {
        source_port: flow.source_port,
        destination_port: flow.destination_port,
        sequence: nonce.sequence,
        acknowledgement: nonce.acknowledgement,
        flags: flags_of(technique),
        window: window_of(technique),
    };
    let mut packet = build_ipv4_header(ip);
    let segment = build_tcp_header(tcp, flow.source, flow.destination);
    let ghost header = packet@;
    push_bytes(&mut packet, segment.as_slice());
    assert(packet@.subrange(0, 20) == header);
    assert(packet@.subrange(20, 40) == segment@);
    packet
}

/// The matchers of a probe: the TCP segments of the flow in the reverse
/// direction, and any ICMP message that the destination sends to the source.
pub open spec fn probe_matchers(flow: Flow) -> Seq<LayersMatch> {
    let layer3 = Layer3Match {
        layer2: None,
        src_addr: Some(IpAddr::V4(flow.destination)),
        dst_addr: Some(IpAddr::V4(flow.source)),
    };
    seq![
        LayersMatch::Layer4MatchTcpUdp(
            Layer4MatchTcpUdp {
                layer3: Some(layer3),
                src_port: Some(flow.destination_port),
                dst_port: Some(flow.source_port),
            },
        ),
        LayersMatch::Layer4MatchIcmp(
            Layer4MatchIcmp { layer3: Some(layer3), types: None, codes: None },
        ),
    ]
}

/// Builds the matchers of a probe.
pub fn build_probe_matchers(flow: Flow) -> (matchers: Vec<LayersMatch>)
    ensures
        matchers@ == probe_matchers(flow),
{
    let layer3 = Layer3Match {
        layer2: None,
        src_addr: Some(IpAddr::V4(flow.destination)),
        dst_addr: Some(IpAddr::V4(flow.source)),
    };
    let layer4 = Layer4MatchTcpUdp {
        layer3: Some(layer3),
        src_port: Some(flow.destination_port),
        dst_port: Some(flow.source_port),
    };
    let errors = Layer4MatchIcmp { layer3: Some(layer3), types: None, codes: None };
    let mut matchers: Vec<LayersMatch> = Vec::new();
    matchers.push(LayersMatch::Layer4MatchTcpUdp(layer4));
    matchers.push(LayersMatch::Layer4MatchIcmp(errors));
    matchers
}

/// A probe, ready to send.
#[derive(Debug, Clone)]
pub struct TcpProbe {
    pub nonce: TcpNonce,
    pub packet: Vec<u8>,
    pub matchers: Vec<LayersMatch>,
}

/// Makes the probe of a technique, with numbers drawn at random.
pub fn tcp_probe(technique: TcpTechnique, flow: Flow) -> (probe: TcpProbe)
    ensures
        probe.packet@ == probe_packet(technique, flow, probe.nonce),
        probe.matchers@ == probe_matchers(flow),
{
    let a = random_u32();
    let nonce = TcpNonce {
        identification: (a % 0x1_0000) as u16,
        sequence: random_u32(),
        acknowledgement: random_u32(),
    };
    TcpProbe {
        nonce,
        packet: build_probe_packet(technique, flow, nonce),
        matchers: build_probe_matchers(flow),
    }
}

/// The flags and the window of the TCP segment that an IPv4 packet
/// carries; none where the packet carries another protocol or is cut
/// short.
pub open spec fn tcp_reply(packet: Seq<u8>) -> Option<(u8, u16)> {
    let segment = ipv4_payload(packet);
    if packet.len() >= 20 && packet[9] == PROTOCOL_TCP && segment.len() >= 20 {
        Some((segment[13], read16(segment, 14)))
    } else {
        None
    }
}

/// Reads the flags and the window of the TCP segment of a packet.
pub fn read_tcp_reply(packet: &[u8]) -> (reply: Option<(u8, u16)>)
    ensures
        reply == tcp_reply(packet@),
{
    if packet.len() < 20 || packet[9] != PROTOCOL_TCP {
        return None;
    }
    let (from, to) = ipv4_payload_bounds(packet);
    if to - from < 20 {
        return None;
    }
    let ghost segment = packet@.subrange(from as int, to as int);
    assert(segment[13] == packet@[from + 13] && segment[14] == packet@[from + 14] && segment[15]
        == packet@[from + 15]);
    Some((packet[from + 13], get16(packet, from + 14)))
}

/// Whether a packet is an ICMP destination unreachable message with one
/// of the codes that tell of a filter.
pub open spec fn is_unreachable(packet: Seq<u8>) -> bool {
    match message_kind(packet) {
        Some((kind, code)) => kind == ICMP_DESTINATION_UNREACHABLE && is_unreachable_code(code),
        None => false,
    }
}

/// Decides `is_unreachable`.
pub fn blocked_by(packet: &[u8]) -> (r: bool)
    ensures
        r == is_unreachable(packet@),
{
    match read_message_kind(packet) {
        Some((kind, code)) => kind == ICMP_DESTINATION_UNREACHABLE && unreachable_code(code),
        None => false,
    }
}

/// Whether a packet is a TCP segment with both SYN and ACK set.
pub open spec fn is_syn_ack(packet: Seq<u8>) -> bool {
    match tcp_reply(packet) {
        Some((flags, _)) => flags & TCP_SYN != 0 && flags & TCP_ACK != 0,
        None => false,
    }
}

/// Whether a packet is a TCP segment with RST set.
pub open spec fn is_rst(packet: Seq<u8>) -> bool {
    match tcp_reply(packet) {
        Some((flags, _)) => flags & TCP_RST != 0,
        None => false,
    }
}

/// What the response to a probe tells of the port.
///
/// - SYN: open on SYN and ACK, closed on RST, filtered otherwise.
/// - FIN, NULL, Xmas, Maimon: closed on RST, filtered on an ICMP
///   unreachable message, open or filtered otherwise.
/// - ACK: unfiltered on RST, filtered otherwise.
/// - Window: on RST open where the window is positive and closed where it
///   is zero, filtered otherwise.
///
/// No response counts as "otherwise", and so does a packet that is none of
/// those named.
pub open spec fn tcp_verdict(technique: TcpTechnique, response: Option<Seq<u8>>)
    -> TargetScanStatus {
    match technique {
        TcpTechnique::Syn => match response {
            Some(packet) => if is_syn_ack(packet) {
                TargetScanStatus::Open
            } else if is_rst(packet) {
                TargetScanStatus::Closed
            } else {
                TargetScanStatus::Filtered
            },
            None => TargetScanStatus::Filtered,
        },
        TcpTechnique::Fin | TcpTechnique::Null | TcpTechnique::Xmas | TcpTechnique::Maimon => match response {
            Some(packet) => if is_rst(packet) {
                TargetScanStatus::Closed
            } else if is_unreachable(packet) {
                TargetScanStatus::Filtered
            } else {
                TargetScanStatus::OpenOrFiltered
            },
            None => TargetScanStatus::OpenOrFiltered,
        },
        TcpTechnique::Ack => match response {
            Some(packet) => if is_rst(packet) {
                TargetScanStatus::Unfiltered
            } else {
                TargetScanStatus::Filtered
            },
            None => TargetScanStatus::Filtered,
        },
        TcpTechnique::Window => match response {
            Some(packet) => if is_rst(packet) {
                if tcp_reply(packet)->Some_0.1 > 0 {
                    TargetScanStatus::Open
                } else {
                    TargetScanStatus::Closed
                }
            } else {
                TargetScanStatus::Filtered
            },
            None => TargetScanStatus::Filtered,
        },
    }
}

/// Computes `tcp_verdict`.
pub fn tcp_scan_status(technique: TcpTechnique, response: &Option<Vec<u8>>) -> (status:
    TargetScanStatus)
    ensures
        status == tcp_verdict(technique, response_view(*response)),
        technique == TcpTechnique::Syn && status == TargetScanStatus::Open ==> response is Some
            && is_syn_ack(response->Some_0@),
{
    let reply: Option<(u8, u16)> = match response {
        Some(packet) => read_tcp_reply(packet.as_slice()),
        None => None,
    };
    let blocked: bool = match response {
        Some(packet) => blocked_by(packet.as_slice()),
        None => false,
    };
    let rst: bool = match reply {
        Some((flags, _)) => flags & TCP_RST != 0,
        None => false,
    };
    match technique {
        TcpTechnique::Syn => {
            match reply {
                Some((flags, _)) => {
                    if flags & TCP_SYN != 0 && flags & TCP_ACK != 0 {
                        TargetScanStatus::Open
                    } else if rst {
                        TargetScanStatus::Closed
                    } else {
                        TargetScanStatus::Filtered
                    }
                },
                None => TargetScanStatus::Filtered,
            }
        },
        TcpTechnique::Fin | TcpTechnique::Null | TcpTechnique::Xmas | TcpTechnique::Maimon => {
            if rst {
                TargetScanStatus::Closed
            } else if blocked {
                TargetScanStatus::Filtered
            } else {
                TargetScanStatus::OpenOrFiltered
            }
        },
        TcpTechnique::Ack => {
            if rst {
                TargetScanStatus::Unfiltered
            } else {
                TargetScanStatus::Filtered
            }
        },
        TcpTechnique::Window => {
            match reply {
                Some((_, window)) => {
                    if !rst {
                        TargetScanStatus::Filtered
                    } else if window > 0 {
                        TargetScanStatus::Open
                    } else {
                        TargetScanStatus::Closed
                    }
                },
                None => TargetScanStatus::Filtered,
            }
        },
    }
}

/// A port that a SYN scan reports open has answered with a segment in
/// which both SYN and ACK are set.
pub proof fn lemma_open_means_syn_ack(response: Option<Seq<u8>>)
    requires
        tcp_verdict(TcpTechnique::Syn, response) == TargetScanStatus::Open,
    ensures
        response is Some,
        tcp_reply(response->Some_0) is Some,
        tcp_reply(response->Some_0)->Some_0.0 & TCP_SYN != 0,
        tcp_reply(response->Some_0)->Some_0.0 & TCP_ACK != 0,
{
}

/// An ICMP unreachable message outweighs silence: where a FIN, NULL, Xmas
/// or Maimon probe draws one, the port is filtered, not open or filtered.
pub proof fn lemma_unreachable_filters(technique: TcpTechnique, packet: Seq<u8>)
    requires
        is_unreachable(packet),
    ensures
        tcp_verdict(technique, Some(packet)) == TargetScanStatus::Filtered,
{
}

/// How an attempt to connect ended.
#[derive(Debug, Clone, Copy, PartialEq, Eq, Structural)]
pub enum ConnectOutcome {
    /// The connection was made.
    Connected,
    /// The destination refused the connection.
    Refused,
    /// The attempt ran out of time.
    TimedOut,
    /// The attempt failed for another reason.
    Failed,
}

/// What an attempt to connect tells of the port: open where the
/// connection was made, closed where it was refused, and filtered
/// otherwise.
pub open spec fn connect_verdict(outcome: ConnectOutcome) -> TargetScanStatus {
    match outcome {
        ConnectOutcome::Connected => TargetScanStatus::Open,
        ConnectOutcome::Refused => TargetScanStatus::Closed,
        ConnectOutcome::TimedOut => TargetScanStatus::Filtered,
        ConnectOutcome::Failed => TargetScanStatus::Filtered,
    }
}

/// Computes `connect_verdict`.
pub fn connect_scan_status(outcome: ConnectOutcome) -> (status: TargetScanStatus)
    ensures
        status == connect_verdict(outcome),
{
    match outcome {
        ConnectOutcome::Connected => TargetScanStatus::Open,
        ConnectOutcome::Refused => TargetScanStatus::Closed,
        ConnectOutcome::TimedOut => TargetScanStatus::Filtered,
        ConnectOutcome::Failed => TargetScanStatus::Filtered,
    }
}

/// How far the zombie's IP identification moved between the two probes
/// of an idle scan, the counter wrapping around at 65536.
pub open spec fn idle_delta(results: IdleScanResults) -> int {
    (results.zombie_ip_id_2 - results.zombie_ip_id_1) % 0x1_0000
}

/// What the zombie's counter tells of the port: open where it moved by
/// two or more, since the zombie then answered the target besides the
/// prober, and closed where it moved by one or not at all. Where the
/// zombie did not answer both probes in time, nothing can be read, and
/// the port counts as filtered.
pub open spec fn idle_verdict(results: Option<IdleScanResults>) -> TargetScanStatus {
    match results {
        Some(ids) => if idle_delta(ids) >= 2 {
            TargetScanStatus::Open
        } else {
            TargetScanStatus::Closed
        },
        None => TargetScanStatus::Filtered,
    }
}

/// Computes `idle_verdict`.
pub fn idle_scan_status(results: Option<IdleScanResults>) -> (status: TargetScanStatus)
    ensures
        status == idle_verdict(results),
{
    match results {
        Some(ids) => {
            let delta: u16 = ids.zombie_ip_id_2.wrapping_sub(ids.zombie_ip_id_1);
            if delta >= 2 {
                TargetScanStatus::Open
            } else {
                TargetScanStatus::Closed
            }
        },
        None => TargetScanStatus::Filtered,
    }
}

} // verus!
