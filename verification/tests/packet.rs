use pistol::checksum::{checksum, folded_sum, pseudo_checksum};
use pistol::packet::{
    build_echo_request, build_ipv4_header, build_tcp_header, build_udp_datagram,
    ipv4_payload_bounds, Ipv4Fields, TcpFields, PROTOCOL_ICMP, PROTOCOL_TCP, PROTOCOL_UDP,
    TCP_ACK, TCP_SYN,
};
use pistol::ping::icmp::{
    begins_with, build_ping_matchers, build_ping_packet, draw_ping_nonce, make_ping_nonce,
    ping_probe, ping_status, PingNonce, ICMP_DATA_SIZE,
};
use pistol::{Ipv4Addr, LayersMatch, PingStatus};
use pnet::packet::icmp::echo_request::EchoRequestPacket;
use pnet::packet::icmp::IcmpPacket;
use pnet::packet::ipv4::Ipv4Packet;
use pnet::packet::tcp::TcpPacket;
use pnet::packet::udp::UdpPacket;
use pnet::packet::Packet;

fn fields() -> Ipv4Fields {
    Ipv4Fields {
        source: Ipv4Addr::new(192, 168, 0, 1),
        destination: Ipv4Addr::new(192, 168, 0, 199),
        protocol: PROTOCOL_UDP,
        total_length: 0x73,
        identification: 0,
        ttl: 64,
    }
}

fn ip_packet(source: Ipv4Addr, destination: Ipv4Addr, protocol: u8, payload: &[u8]) -> Vec<u8> {
    let mut packet = build_ipv4_header(Ipv4Fields {
        source,
        destination,
        protocol,
        total_length: (20 + payload.len()) as u16,
        identification: 7,
        ttl: 64,
    });
    packet.extend_from_slice(payload);
    packet
}

#[test]
fn ipv4_header_is_wire_exact() {
    let header = build_ipv4_header(fields());
    assert_eq!(
        header,
        vec![
            0x45, 0x00, 0x00, 0x73, 0x00, 0x00, 0x40, 0x00, 0x40, 0x11, 0xb8, 0x61, 0xc0, 0xa8,
            0x00, 0x01, 0xc0, 0xa8, 0x00, 0xc7
        ]
    );
}

#[test]
fn ipv4_header_checksum_is_intact() {
    for id in [0u16, 1, 0x1234, 0xffff] {
        for ttl in [1u8, 64, 128, 255] {
            let f = Ipv4Fields {
                source: Ipv4Addr::new(10, 0, 0, 1),
                destination: Ipv4Addr::new(255, 255, 255, 255),
                protocol: PROTOCOL_ICMP,
                total_length: 44,
                identification: id,
                ttl,
            };
            let header = build_ipv4_header(f);
            assert_eq!(checksum(&header), 0);
            let parsed = Ipv4Packet::new(&header).unwrap();
            assert_eq!(pnet::packet::ipv4::checksum(&parsed), parsed.get_checksum());
            assert_eq!(parsed.get_version(), 4);
            assert_eq!(parsed.get_header_length(), 5);
            assert_eq!(parsed.get_total_length(), 44);
            assert_eq!(parsed.get_identification(), id);
            assert_eq!(parsed.get_flags(), 2);
            assert_eq!(parsed.get_fragment_offset(), 0);
            assert_eq!(parsed.get_ttl(), ttl);
            assert_eq!(parsed.get_next_level_protocol().0, 1);
            assert_eq!(parsed.get_source().octets(), [10, 0, 0, 1]);
            assert_eq!(parsed.get_destination().octets(), [255, 255, 255, 255]);
        }
    }
}

#[test]
fn a_damaged_header_is_found_out() {
    let mut header = build_ipv4_header(fields());
    header[8] ^= 0x01;
    assert_ne!(checksum(&header), 0);
}

#[test]
fn checksum_of_known_data() {
    assert_eq!(checksum(&[]), 0xffff);
    assert_eq!(checksum(&[0, 0]), 0xffff);
    assert_eq!(checksum(&[0xff, 0xff]), 0);
    assert_eq!(checksum(&[0x12]), 0xedff);
    assert_eq!(checksum(&[0x00, 0x01, 0xf2, 0x03, 0xf4, 0xf5, 0xf6, 0xf7]), 0x220d);
    assert_eq!(folded_sum(&[0xff, 0xff, 0x00, 0x01], 0), 1);
    assert_eq!(folded_sum(&[0xff, 0xff, 0xff, 0xff], 0xffff), 0xffff);
    assert_eq!(folded_sum(&[], 5), 5);
}

#[test]
fn tcp_header_is_wire_exact() {
    let source = Ipv4Addr::new(192, 168, 5, 133);
    let destination = Ipv4Addr::new(192, 168, 5, 1);
    let f = TcpFields {
        source_port: 47890,
        destination_port: 443,
        sequence: 0x0102_0304,
        acknowledgement: 0xa0b0_c0d0,
        flags: TCP_SYN,
        window: 2048,
    };
    let header = build_tcp_header(f, source, destination);
    assert_eq!(header.len(), 20);
    assert_eq!(&header[..16], &[0xbb, 0x12, 0x01, 0xbb, 1, 2, 3, 4, 0xa0, 0xb0, 0xc0, 0xd0, 0x50, 0x02, 0x08, 0x00]);
    assert_eq!(&header[18..], &[0, 0]);
    let parsed = TcpPacket::new(&header).unwrap();
    assert_eq!(parsed.get_source(), 47890);
    assert_eq!(parsed.get_destination(), 443);
    assert_eq!(parsed.get_sequence(), 0x0102_0304);
    assert_eq!(parsed.get_acknowledgement(), 0xa0b0_c0d0);
    assert_eq!(parsed.get_data_offset(), 5);
    assert_eq!(parsed.get_flags(), 0x02);
    assert_eq!(parsed.get_window(), 2048);
    assert_eq!(parsed.get_urgent_ptr(), 0);
    let expected = pnet::packet::tcp::ipv4_checksum(
        &parsed,
        &[192, 168, 5, 133].into(),
        &[192, 168, 5, 1].into(),
    );
    assert_eq!(parsed.get_checksum(), expected);
}

#[test]
fn tcp_checksum_validates_with_the_same_addresses() {
    let source = Ipv4Addr::new(10, 1, 2, 3);
    let destination = Ipv4Addr::new(93, 184, 216, 34);
    for flags in [0u8, TCP_SYN, TCP_SYN | TCP_ACK, 0x29, 0xff] {
        let f = TcpFields {
            source_port: 1,
            destination_port: 65535,
            sequence: u32::MAX,
            acknowledgement: 0,
            flags,
            window: 1024,
        };
        let header = build_tcp_header(f, source, destination);
        assert_eq!(pseudo_checksum(PROTOCOL_TCP, &header, source, destination), 0);
        assert_ne!(pseudo_checksum(PROTOCOL_TCP, &header, source, Ipv4Addr::new(93, 184, 216, 35)), 0);
        assert_ne!(pseudo_checksum(PROTOCOL_UDP, &header, source, destination), 0);
    }
}

#[test]
fn udp_datagram_is_wire_exact_and_validates() {
    let source = Ipv4Addr::new(192, 168, 0, 1);
    let destination = Ipv4Addr::new(192, 168, 0, 199);
    for payload in [&b""[..], &b"abc"[..], &b"\x00\x06\x01\x00"[..]] {
        let datagram = build_udp_datagram(5000, 53, payload, source, destination);
        assert_eq!(datagram.len(), 8 + payload.len());
        assert_eq!(&datagram[..4], &[0x13, 0x88, 0x00, 0x35]);
        assert_eq!(&datagram[4..6], &[0, 8 + payload.len() as u8]);
        assert_eq!(&datagram[8..], payload);
        let parsed = UdpPacket::new(&datagram).unwrap();
        let expected = pnet::packet::udp::ipv4_checksum(
            &parsed,
            &[192, 168, 0, 1].into(),
            &[192, 168, 0, 199].into(),
        );
        assert_eq!(parsed.get_checksum(), expected);
        assert_eq!(pseudo_checksum(PROTOCOL_UDP, &datagram, source, destination), 0);
    }
}

#[test]
fn echo_request_is_wire_exact_and_validates() {
    let message = build_echo_request(0x1234, 0x0001, &[1, 2, 3, 4, 5]);
    assert_eq!(message.len(), 13);
    assert_eq!(&message[..2], &[8, 0]);
    assert_eq!(&message[4..], &[0x12, 0x34, 0x00, 0x01, 1, 2, 3, 4, 5]);
    assert_eq!(checksum(&message), 0);
    let parsed = IcmpPacket::new(&message).unwrap();
    assert_eq!(pnet::packet::icmp::checksum(&parsed), parsed.get_checksum());
    let echo = EchoRequestPacket::new(&message).unwrap();
    assert_eq!(echo.get_identifier(), 0x1234);
    assert_eq!(echo.get_sequence_number(), 1);
    assert_eq!(echo.payload(), &[1, 2, 3, 4, 5]);
    assert_eq!(checksum(&build_echo_request(0, 0, &[])), 0);
}

fn nonce() -> PingNonce {
    PingNonce {
        identification: 0xbeef,
        identifier: 0x0a0b,
        sequence: 0x0c0d,
        tv_sec: 0x0000_0001_6543_2100,
        tv_msec: 999,
    }
}

#[test]
fn test_icmp_ping_packet() {
    let src_ipv4 = Ipv4Addr::new(192, 168, 72, 128);
    let dst_ipv4 = Ipv4Addr::new(192, 168, 72, 2);
    let packet = build_ping_packet(src_ipv4, dst_ipv4, nonce());
    assert_eq!(packet.len(), 20 + 8 + ICMP_DATA_SIZE);
    let ip = Ipv4Packet::new(&packet).unwrap();
    assert_eq!(ip.get_total_length(), 44);
    assert_eq!(ip.get_identification(), 0xbeef);
    assert_eq!(ip.get_ttl(), 64);
    assert_eq!(ip.get_next_level_protocol().0, PROTOCOL_ICMP);
    assert_eq!(ip.get_source().octets(), [192, 168, 72, 128]);
    assert_eq!(ip.get_destination().octets(), [192, 168, 72, 2]);
    assert_eq!(checksum(&packet[..20]), 0);
    assert_eq!(checksum(&packet[20..]), 0);
    let echo = EchoRequestPacket::new(ip.payload()).unwrap();
    assert_eq!(echo.get_icmp_type().0, 8);
    assert_eq!(echo.get_icmp_code().0, 0);
    assert_eq!(echo.get_identifier(), 0x0a0b);
    assert_eq!(echo.get_sequence_number(), 0x0c0d);
    assert_eq!(
        echo.payload(),
        &[0, 0, 0, 1, 0x65, 0x43, 0x21, 0, 0, 0, 0x03, 0xe7, 0, 0, 0, 0]
    );

    let mut reply = ip_packet(dst_ipv4, src_ipv4, PROTOCOL_ICMP, &packet[20..]);
    reply[20] = 0;
    let ret = ping_status(&Some(reply), nonce());
    println!("{:?}", ret);
    assert_eq!(ret, PingStatus::Up);
}

#[test]
fn ping_probe_draws_its_numbers() {
    let source = Ipv4Addr::new(192, 168, 72, 128);
    let destination = Ipv4Addr::new(192, 168, 72, 2);
    let probe = ping_probe(source, destination);
    assert_eq!(probe.packet, build_ping_packet(source, destination, probe.nonce));
    assert_eq!(probe.matchers.len(), 1);
    assert!(probe.nonce.tv_sec > 1_600_000_000);
    let another = ping_probe(source, destination);
    let third = ping_probe(source, destination);
    assert!(probe.nonce != another.nonce || another.nonce != third.nonce);
}

#[test]
fn ping_matcher_is_pinned_to_the_pair() {
    let source = Ipv4Addr::new(192, 168, 72, 128);
    let destination = Ipv4Addr::new(192, 168, 72, 2);
    let matchers = build_ping_matchers(source, destination);
    assert_eq!(matchers.len(), 1);
    match &matchers[0] {
        LayersMatch::Layer4MatchIcmp(m) => {
            let layer3 = m.layer3.unwrap();
            assert_eq!(layer3.src_addr, Some(pistol::IpAddr::V4(destination)));
            assert_eq!(layer3.dst_addr, Some(pistol::IpAddr::V4(source)));
            assert!(layer3.layer2.is_none());
            assert!(m.types.is_none() && m.codes.is_none());
        }
        other => panic!("{:?}", other),
    }
}

fn echo_of(nonce: PingNonce) -> Vec<u8> {
    let mut echo = Vec::new();
    echo.extend_from_slice(&nonce.identifier.to_be_bytes());
    echo.extend_from_slice(&nonce.sequence.to_be_bytes());
    echo.extend_from_slice(&nonce.tv_sec.to_be_bytes());
    echo.extend_from_slice(&nonce.tv_msec.to_be_bytes());
    echo.extend_from_slice(&[0, 0, 0, 0]);
    echo
}

#[test]
fn ping_verdicts() {
    let a = Ipv4Addr::new(192, 168, 72, 128);
    let b = Ipv4Addr::new(192, 168, 72, 2);
    let icmp = |kind: u8, code: u8| {
        let mut message = vec![kind, code, 0, 0];
        message.extend(echo_of(nonce()));
        ip_packet(b, a, PROTOCOL_ICMP, &message)
    };
    let status = |packet: Vec<u8>| ping_status(&Some(packet), nonce());
    assert_eq!(status(icmp(0, 0)), PingStatus::Up);
    assert_eq!(status(icmp(0, 1)), PingStatus::Down);
    for code in [1u8, 2, 3, 9, 10, 13] {
        assert_eq!(status(icmp(3, code)), PingStatus::Down);
    }
    assert_eq!(status(icmp(8, 0)), PingStatus::Down);
    assert_eq!(status(icmp(11, 0)), PingStatus::Down);
    assert_eq!(ping_status(&None, nonce()), PingStatus::Down);
    assert_eq!(status(vec![]), PingStatus::Down);
    assert_eq!(status(vec![0x45; 19]), PingStatus::Down);
    let mut tcp = icmp(0, 0);
    tcp[9] = PROTOCOL_TCP;
    assert_eq!(status(tcp), PingStatus::Down);
    let short = icmp(0, 0);
    assert_eq!(status(short[..39].to_vec()), PingStatus::Down);
    assert_eq!(status(short[..40].to_vec()), PingStatus::Up);
    let mut cut = icmp(0, 0);
    cut[3] = 39;
    assert_eq!(status(cut), PingStatus::Down);
    let mut longer = icmp(0, 0);
    longer[40] = 9;
    assert_eq!(status(longer), PingStatus::Up);
}

#[test]
fn a_stale_echo_reply_is_not_an_answer() {
    let a = Ipv4Addr::new(192, 168, 72, 128);
    let b = Ipv4Addr::new(192, 168, 72, 2);
    let reply_to = |n: PingNonce| {
        let mut message = vec![0u8, 0, 0, 0];
        message.extend(echo_of(n));
        Some(ip_packet(b, a, PROTOCOL_ICMP, &message))
    };
    let ours = nonce();
    assert_eq!(ping_status(&reply_to(ours), ours), PingStatus::Up);
    let other_ip_id = PingNonce { identification: 1, ..ours };
    assert_eq!(ping_status(&reply_to(ours), other_ip_id), PingStatus::Up);
    let stale = [
        PingNonce { identifier: ours.identifier + 1, ..ours },
        PingNonce { sequence: ours.sequence - 1, ..ours },
        PingNonce { tv_sec: ours.tv_sec - 1, ..ours },
        PingNonce { tv_sec: ours.tv_sec + (1 << 40), ..ours },
        PingNonce { tv_msec: ours.tv_msec - 1, ..ours },
    ];
    for earlier in stale {
        assert_eq!(ping_status(&reply_to(earlier), ours), PingStatus::Down, "{:?}", earlier);
        assert_eq!(ping_status(&reply_to(earlier), earlier), PingStatus::Up);
    }
    for at in 24..36 {
        let mut damaged = reply_to(ours).unwrap();
        damaged[at] ^= 0x80;
        assert_eq!(ping_status(&Some(damaged), ours), PingStatus::Down, "byte {}", at);
    }
    let bare = Some(ip_packet(b, a, PROTOCOL_ICMP, &[0, 0, 0xff, 0xff, 0x0a, 0x0b, 0x0c, 0x0d]));
    assert_eq!(ping_status(&bare, ours), PingStatus::Down);
    assert!(begins_with(&[1, 2, 3, 4], 1, &[2, 3]));
    assert!(begins_with(&[1, 2, 3, 4], 4, &[]));
    assert!(!begins_with(&[1, 2, 3, 4], 1, &[2, 4]));
    assert!(!begins_with(&[1, 2, 3, 4], 3, &[4, 5]));
    assert!(!begins_with(&[1, 2, 3, 4], 5, &[]));
}

#[test]
fn payload_follows_the_options() {
    let mut packet = vec![0u8; 40];
    packet[0] = 0x46;
    packet[3] = 40;
    assert_eq!(ipv4_payload_bounds(&packet), (24, 40));
    packet[3] = 30;
    assert_eq!(ipv4_payload_bounds(&packet), (24, 30));
    packet[3] = 10;
    assert_eq!(ipv4_payload_bounds(&packet), (24, 24));
    packet[0] = 0x40;
    packet[3] = 40;
    assert_eq!(ipv4_payload_bounds(&packet), (20, 40));
    packet[0] = 0x4f;
    packet[3] = 255;
    assert_eq!(ipv4_payload_bounds(&packet), (0, 0));
    assert_eq!(ipv4_payload_bounds(&packet[..19]), (0, 0));
    let parsed = Ipv4Packet::new(&packet).unwrap();
    assert!(parsed.payload().is_empty());
}

#[test]
fn a_nonce_is_cut_from_what_is_drawn() {
    assert_eq!(
        make_ping_nonce(0x1234_5678, 0x9abc_def0, 1_700_000_000_123),
        PingNonce {
            identification: 0x5678,
            identifier: 0x9abc,
            sequence: 0xdef0,
            tv_sec: 1_700_000_000,
            tv_msec: 123,
        }
    );
    assert_eq!(
        make_ping_nonce(u32::MAX, 0, 999),
        PingNonce { identification: 0xffff, identifier: 0, sequence: 0, tv_sec: 0, tv_msec: 999 }
    );
    assert_eq!(
        make_ping_nonce(0, u32::MAX, i64::MAX),
        PingNonce {
            identification: 0,
            identifier: 0xffff,
            sequence: 0xffff,
            tv_sec: 9_223_372_036_854_775,
            tv_msec: 807,
        }
    );
    let epoch = PingNonce { identification: 1, identifier: 0, sequence: 2, tv_sec: 0, tv_msec: 0 };
    assert_eq!(make_ping_nonce(0x0001_0001, 2, -1), epoch);
    assert_eq!(make_ping_nonce(1, 2, i64::MIN), epoch);
    assert_eq!(make_ping_nonce(1, 2, 0), epoch);

    let drawn = draw_ping_nonce();
    assert!(drawn.tv_msec < 1000);
    assert!(drawn.tv_sec > 1_600_000_000 && drawn.tv_sec <= 9_223_372_036_854_775);
}
