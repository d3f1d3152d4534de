use pistol::layers::select_response;
use pistol::scan::arp::{build_arp_matchers, build_arp_request, read_arp_reply, ARP_FRAME_SIZE};
use pistol::{ArpScanResults, Interface, Ipv4Addr, Ipv4Network, MacAddr, Target};
use pnet::packet::arp::{ArpOperations, ArpPacket};
use pnet::packet::ethernet::{EtherTypes, EthernetPacket};
use pnet::packet::Packet;

const LOCAL_MAC: MacAddr = MacAddr(0x00, 0x0c, 0x29, 0x43, 0x9c, 0x8c);

fn local() -> Ipv4Addr {
    Ipv4Addr::new(192, 168, 1, 100)
}

fn reply(from: Ipv4Addr, mac: MacAddr, to: Ipv4Addr, to_mac: MacAddr) -> Vec<u8> {
    let mut frame = vec![to_mac.0, to_mac.1, to_mac.2, to_mac.3, to_mac.4, to_mac.5];
    frame.extend_from_slice(&[mac.0, mac.1, mac.2, mac.3, mac.4, mac.5]);
    frame.extend_from_slice(&[0x08, 0x06, 0, 1, 8, 0, 6, 4, 0, 2]);
    frame.extend_from_slice(&[mac.0, mac.1, mac.2, mac.3, mac.4, mac.5]);
    frame.extend_from_slice(&from.octets());
    frame.extend_from_slice(&[to_mac.0, to_mac.1, to_mac.2, to_mac.3, to_mac.4, to_mac.5]);
    frame.extend_from_slice(&to.octets());
    frame
}

#[test]
fn arp_request_is_wire_exact() {
    let frame = build_arp_request(LOCAL_MAC, local(), Ipv4Addr::new(192, 168, 1, 1));
    assert_eq!(frame.len(), ARP_FRAME_SIZE);
    assert_eq!(
        frame,
        vec![
            0xff, 0xff, 0xff, 0xff, 0xff, 0xff, 0x00, 0x0c, 0x29, 0x43, 0x9c, 0x8c, 0x08, 0x06,
            0x00, 0x01, 0x08, 0x00, 0x06, 0x04, 0x00, 0x01, 0x00, 0x0c, 0x29, 0x43, 0x9c, 0x8c,
            192, 168, 1, 100, 0, 0, 0, 0, 0, 0, 192, 168, 1, 1
        ]
    );
    let ethernet = EthernetPacket::new(&frame).unwrap();
    assert_eq!(ethernet.get_ethertype(), EtherTypes::Arp);
    assert!(ethernet.get_destination().is_broadcast());
    let arp = ArpPacket::new(ethernet.payload()).unwrap();
    assert_eq!(arp.get_operation(), ArpOperations::Request);
    assert_eq!(arp.get_sender_proto_addr().octets(), [192, 168, 1, 100]);
    assert_eq!(arp.get_target_proto_addr().octets(), [192, 168, 1, 1]);
    assert!(arp.get_target_hw_addr().is_zero());
    assert_eq!(arp.get_sender_hw_addr().octets(), [0x00, 0x0c, 0x29, 0x43, 0x9c, 0x8c]);
    assert_eq!(read_arp_reply(&frame), None);
}

#[test]
fn arp_scan_of_a_subnet_of_eight() {
    let interfaces = vec![Interface {
        name: "eth0".to_string(),
        up: true,
        loopback: false,
        ipv4: vec![Ipv4Network { addr: local(), prefix: 24 }],
        ipv6: Vec::new(),
    }];
    let target = Target::from_subnet("192.168.1.0/29", None, &interfaces).unwrap();
    let probed: Vec<u8> = target.hosts.iter().map(|h| h.addr.octets()[3]).collect();
    assert_eq!(probed, vec![1, 2, 3, 4, 5, 6]);

    let answering = [1u8, 4, 6];
    let mut results = ArpScanResults::new();
    for host in &target.hosts {
        let request = build_arp_request(LOCAL_MAC, local(), host.addr);
        assert_eq!(&request[38..], &host.addr.octets());
        let matchers = build_arp_matchers(LOCAL_MAC, local(), host.addr);
        for last in answering {
            let from = Ipv4Addr::new(192, 168, 1, last);
            let mac = MacAddr(0x00, 0x50, 0x56, 0, 0, last);
            let frame = reply(from, mac, local(), LOCAL_MAC);
            if select_response(&matchers, &frame).is_some() {
                assert_eq!(from, host.addr);
                let mac = read_arp_reply(&frame).unwrap();
                assert!(results.record(host.addr, mac, "VMware, Inc.".to_string()));
            }
        }
    }
    assert_eq!(results.alive_hosts_num, 3);
    let mut alive: Vec<u32> = results.alive_hosts.keys().copied().collect();
    alive.sort();
    let expected: Vec<u32> = answering.iter().map(|d| Ipv4Addr::new(192, 168, 1, *d).bits).collect();
    assert_eq!(alive, expected);
    for host in results.alive_hosts.values() {
        assert_ne!(host.mac_addr, MacAddr(0, 0, 0, 0, 0, 0));
        assert!(!host.ouis.is_empty());
    }
    assert_eq!(
        results.to_string(),
        "Alive hosts: 3\n\
         192.168.1.1: 00:50:56:00:00:01 (VMware, Inc.)\n\
         192.168.1.4: 00:50:56:00:00:04 (VMware, Inc.)\n\
         192.168.1.6: 00:50:56:00:00:06 (VMware, Inc.)\n"
    );
}

#[test]
fn a_second_answer_replaces_the_first() {
    let mut results = ArpScanResults::new();
    assert_eq!(results.alive_hosts_num, 0);
    let host = Ipv4Addr::new(10, 0, 0, 1);
    assert!(results.record(host, MacAddr(1, 2, 3, 4, 5, 6), "a".to_string()));
    assert!(results.record(host, MacAddr(6, 5, 4, 3, 2, 1), "b".to_string()));
    assert_eq!(results.alive_hosts_num, 1);
    assert_eq!(results.alive_hosts[&host.bits].mac_addr, MacAddr(6, 5, 4, 3, 2, 1));
    assert_eq!(results.alive_hosts[&host.bits].ouis, "b");
}

#[test]
fn only_replies_are_read() {
    let mac = MacAddr(2, 0, 0, 0, 0, 9);
    let good = reply(Ipv4Addr::new(192, 168, 1, 1), mac, local(), LOCAL_MAC);
    assert_eq!(read_arp_reply(&good), Some(mac));
    assert_eq!(read_arp_reply(&good[..41]), None);
    for (at, value) in [(13usize, 0x00u8), (15, 6), (17, 1), (18, 8), (19, 16), (21, 1), (21, 3)] {
        let mut bad = good.clone();
        bad[at] = value;
        assert_eq!(read_arp_reply(&bad), None, "byte {}", at);
    }
    let matchers = build_arp_matchers(LOCAL_MAC, local(), Ipv4Addr::new(192, 168, 1, 1));
    assert!(select_response(&matchers, &good).is_some());
    let other = reply(Ipv4Addr::new(192, 168, 1, 2), mac, local(), LOCAL_MAC);
    assert!(select_response(&matchers, &other).is_none());
    let not_for_us = reply(Ipv4Addr::new(192, 168, 1, 1), mac, local(), MacAddr(2, 2, 2, 2, 2, 2));
    assert!(select_response(&matchers, &not_for_us).is_none());
}

#[test]
fn the_zero_hardware_address_is_not_recorded() {
    let mut results = ArpScanResults::new();
    let host = Ipv4Addr::new(10, 0, 0, 1);
    assert!(!results.record(host, MacAddr(0, 0, 0, 0, 0, 0), "none".to_string()));
    assert_eq!(results.alive_hosts_num, 0);
    assert!(results.alive_hosts.is_empty());
    assert!(results.record(host, MacAddr(0, 0, 0, 0, 0, 1), "one".to_string()));
    assert!(!results.record(host, MacAddr(0, 0, 0, 0, 0, 0), "none".to_string()));
    assert!(!results.record(Ipv4Addr::new(10, 0, 0, 2), MacAddr(0, 0, 0, 0, 0, 0), "".to_string()));
    assert_eq!(results.alive_hosts_num, 1);
    assert_eq!(results.alive_hosts[&host.bits].mac_addr, MacAddr(0, 0, 0, 0, 0, 1));
    assert_eq!(results.alive_hosts[&host.bits].ouis, "one");
    assert_eq!(results.to_string(), "Alive hosts: 1\n10.0.0.1: 00:00:00:00:00:01 (one)\n");
}
