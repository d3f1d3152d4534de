use pistol::checksum::{pseudo6_checksum, sum_segments};
use pistol::layers::select_response;
use pistol::packet::{
    build_echo6_request, build_ipv6_header, build_tcp_header6, build_udp_datagram6, Ipv6Fields,
    TcpFields, PROTOCOL_ICMPV6, PROTOCOL_TCP, PROTOCOL_UDP, TCP_SYN,
};
use pistol::ping::icmp::PingNonce;
use pistol::ping::icmpv6::{
    build_ping6_matchers, build_ping6_packet, ping6_probe, ping6_status,
};
use pistol::{Ipv6Addr, PingStatus};
use pnet::packet::icmpv6::Icmpv6Packet;
use pnet::packet::ipv6::Ipv6Packet;
use pnet::packet::tcp::TcpPacket;
use pnet::packet::udp::UdpPacket;
use pnet::packet::Packet;

fn here() -> Ipv6Addr {
    Ipv6Addr::new(0xfe80, 0, 0, 0, 0x20c, 0x29ff, 0xfe43, 0x9c8c)
}

fn there() -> Ipv6Addr {
    Ipv6Addr::new(0xfe80, 0, 0, 0, 0, 0, 0, 1)
}

fn std6(addr: Ipv6Addr) -> [u8; 16] {
    addr.bits.to_be_bytes()
}

#[test]
fn ipv6_header_is_wire_exact() {
    let header = build_ipv6_header(Ipv6Fields {
        source: here(),
        destination: there(),
        next_header: PROTOCOL_TCP,
        payload_length: 20,
        hop_limit: 64,
    });
    assert_eq!(header.len(), 40);
    assert_eq!(&header[..8], &[0x60, 0, 0, 0, 0, 20, 6, 64]);
    assert_eq!(&header[8..24], &std6(here()));
    assert_eq!(&header[24..], &std6(there()));
    let parsed = Ipv6Packet::new(&header).unwrap();
    assert_eq!(parsed.get_version(), 6);
    assert_eq!(parsed.get_traffic_class(), 0);
    assert_eq!(parsed.get_flow_label(), 0);
    assert_eq!(parsed.get_payload_length(), 20);
    assert_eq!(parsed.get_next_header().0, 6);
    assert_eq!(parsed.get_hop_limit(), 64);
    assert_eq!(parsed.get_source().octets(), std6(here()));
    assert_eq!(parsed.get_destination().octets(), std6(there()));
}

#[test]
fn echo_request_over_ipv6_validates() {
    let lo = Ipv6Addr::new(0, 0, 0, 0, 0, 0, 0, 1);
    let message = build_echo6_request(0, 0, &[], lo, lo);
    assert_eq!(message, vec![0x80, 0x00, 0x7f, 0xbb, 0x00, 0x00, 0x00, 0x00]);

    let message = build_echo6_request(0x1234, 7, b"abcde", here(), there());
    assert_eq!(&message[..2], &[128, 0]);
    assert_eq!(&message[4..], &[0x12, 0x34, 0, 7, b'a', b'b', b'c', b'd', b'e']);
    assert_eq!(pseudo6_checksum(PROTOCOL_ICMPV6, &message, here(), there()), 0);
    let neighbour = Ipv6Addr { bits: there().bits + 1 };
    assert_ne!(pseudo6_checksum(PROTOCOL_ICMPV6, &message, here(), neighbour), 0);
    let parsed = Icmpv6Packet::new(&message).unwrap();
    let expected =
        pnet::packet::icmpv6::checksum(&parsed, &std6(here()).into(), &std6(there()).into());
    assert_eq!(parsed.get_checksum(), expected);
}

#[test]
fn tcp_and_udp_over_ipv6_validate() {
    let f = TcpFields {
        source_port: 47890,
        destination_port: 443,
        sequence: 9,
        acknowledgement: 0,
        flags: TCP_SYN,
        window: 2048,
    };
    let header = build_tcp_header6(f, here(), there());
    assert_eq!(header.len(), 20);
    assert_eq!(pseudo6_checksum(PROTOCOL_TCP, &header, here(), there()), 0);
    assert_ne!(pseudo6_checksum(PROTOCOL_UDP, &header, here(), there()), 0);
    let parsed = TcpPacket::new(&header).unwrap();
    let expected =
        pnet::packet::tcp::ipv6_checksum(&parsed, &std6(here()).into(), &std6(there()).into());
    assert_eq!(parsed.get_checksum(), expected);
    assert_eq!(parsed.get_flags(), TCP_SYN);

    let datagram = build_udp_datagram6(5353, 53, b"query", here(), there());
    assert_eq!(&datagram[..6], &[0x14, 0xe9, 0, 53, 0, 13]);
    assert_eq!(pseudo6_checksum(PROTOCOL_UDP, &datagram, here(), there()), 0);
    let parsed = UdpPacket::new(&datagram).unwrap();
    let expected =
        pnet::packet::udp::ipv6_checksum(&parsed, &std6(here()).into(), &std6(there()).into());
    assert_eq!(parsed.get_checksum(), expected);
}

#[test]
fn segments_are_summed() {
    assert_eq!(sum_segments(Ipv6Addr { bits: 0 }), 0);
    assert_eq!(sum_segments(Ipv6Addr { bits: u128::MAX }), 8 * 0xffff);
    assert_eq!(sum_segments(Ipv6Addr::new(1, 2, 3, 4, 5, 6, 7, 8)), 36);
}

#[test]
fn ping_over_ipv6() {
    let nonce = PingNonce { identification: 1, identifier: 0x0a0b, sequence: 0x0c0d, tv_sec: 5, tv_msec: 6 };
    let packet = build_ping6_packet(here(), there(), nonce);
    assert_eq!(packet.len(), 64);
    let ip = Ipv6Packet::new(&packet).unwrap();
    assert_eq!(ip.get_next_header().0, 58);
    assert_eq!(ip.get_payload_length(), 24);
    assert_eq!(ip.get_hop_limit(), 64);
    assert_eq!(&packet[40..42], &[128, 0]);
    assert_eq!(&packet[44..], &[0x0a, 0x0b, 0x0c, 0x0d, 0, 0, 0, 0, 0, 0, 0, 5, 0, 0, 0, 6, 0, 0, 0, 0]);
    assert_eq!(pseudo6_checksum(PROTOCOL_ICMPV6, &packet[40..], here(), there()), 0);

    let probe = ping6_probe(here(), there());
    assert_eq!(probe.packet, build_ping6_packet(here(), there(), probe.nonce));

    let mut reply = build_ipv6_header(Ipv6Fields {
        source: there(),
        destination: here(),
        next_header: PROTOCOL_ICMPV6,
        payload_length: 24,
        hop_limit: 64,
    });
    reply.extend_from_slice(&[129, 0, 0, 0]);
    reply.extend_from_slice(&packet[44..]);
    let mut frame = vec![0u8; 12];
    frame.extend_from_slice(&[0x86, 0xdd]);
    frame.extend_from_slice(&reply);
    let matchers = build_ping6_matchers(here(), there());
    assert_eq!(select_response(&matchers, &frame), Some(reply.clone()));
    let matchers = build_ping6_matchers(there(), here());
    assert_eq!(select_response(&matchers, &frame), None);

    let status = |packet: Vec<u8>| ping6_status(&Some(packet), nonce);
    assert_eq!(status(reply.clone()), PingStatus::Up);
    let mut unreachable = reply.clone();
    unreachable[40] = 1;
    assert_eq!(status(unreachable), PingStatus::Down);
    let mut coded = reply.clone();
    coded[41] = 1;
    assert_eq!(status(coded), PingStatus::Down);
    let mut other = reply.clone();
    other[6] = 6;
    assert_eq!(status(other), PingStatus::Down);
    assert_eq!(status(reply[..59].to_vec()), PingStatus::Down);
    assert_eq!(status(reply[..60].to_vec()), PingStatus::Up);
    assert_eq!(status(reply[..39].to_vec()), PingStatus::Down);
    assert_eq!(ping6_status(&None, nonce), PingStatus::Down);
    for at in 44..60 {
        let mut stale = reply.clone();
        stale[at] ^= 1;
        assert_eq!(status(stale), PingStatus::Down, "byte {}", at);
    }
    let earlier = PingNonce { sequence: 0x0c0c, ..nonce };
    assert_eq!(ping6_status(&Some(reply.clone()), earlier), PingStatus::Down);
}
