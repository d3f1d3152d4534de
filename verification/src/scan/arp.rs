//! ARP scan: the broadcast request, the matcher that binds a reply to it,
//! and the record of the hosts that answered.

use crate::addr::{IpAddr, Ipv4Addr};
use crate::layers::{
    get_mac, read_mac, Layer2Match, Layer3Match, LayersMatch, MacAddr, ETHERTYPE_ARP,
};
use crate::packet::{be32, get16, push32, read16};
use crate::results::{ArpAliveHosts, ArpScanResults};
use std::collections::HashMap;
use vstd::prelude::*;

verus! {

/// The length of an ARP request in its Ethernet frame.
pub const ARP_FRAME_SIZE: usize = 42;

/// The six octets of a hardware address.
pub open spec fn mac_bytes(mac: MacAddr) -> Seq<u8> {
    seq![mac.0, mac.1, mac.2, mac.3, mac.4, mac.5]
}

/// Appends the six octets of a hardware address.
pub fn push_mac_bytes(out: &mut Vec<u8>, mac: MacAddr)
    ensures
        final(out)@ == old(out)@ + mac_bytes(mac),
{
    out.push(mac.0);
    out.push(mac.1);
    out.push(mac.2);
    out.push(mac.3);
    out.push(mac.4);
    out.push(mac.5);
}

/// The request that asks who has `target`: broadcast on Ethernet, from
/// the sender's hardware address; hardware type Ethernet, protocol type
/// IPv4, operation 1; the sender's two addresses, the target's hardware
/// address zero, and the target's IPv4 address.
pub open spec fn arp_request(sender_mac: MacAddr, sender: Ipv4Addr, target: Ipv4Addr) -> Seq<u8> {
    seq![0xffu8, 0xffu8, 0xffu8, 0xffu8, 0xffu8, 0xffu8] + mac_bytes(sender_mac) + seq![
        0x08u8,
        0x06u8,
    ] + seq![0u8, 1u8, 8u8, 0u8, 6u8, 4u8, 0u8, 1u8] + mac_bytes(sender_mac) + be32(sender.bits)
        + seq![0u8, 0u8, 0u8, 0u8, 0u8, 0u8] + be32(target.bits)
}

/// Builds the request that asks who has `target`.
pub fn build_arp_request(sender_mac: MacAddr, sender: Ipv4Addr, target: Ipv4Addr) -> (frame: Vec<
    u8,
>)
    ensures
        frame@ == arp_request(sender_mac, sender, target),
        frame.len() == ARP_FRAME_SIZE,
{
    let mut frame: Vec<u8> = Vec::new();
    push_mac_bytes(&mut frame, MacAddr(0xff, 0xff, 0xff, 0xff, 0xff, 0xff));
    push_mac_bytes(&mut frame, sender_mac);
    frame.push(0x08);
    frame.push(0x06);
    frame.push(0);
    frame.push(1);
    frame.push(8);
    frame.push(0);
    frame.push(6);
    frame.push(4);
    frame.push(0);
    frame.push(1);
    push_mac_bytes(&mut frame, sender_mac);
    push32(&mut frame, sender.bits);
    push_mac_bytes(&mut frame, MacAddr(0, 0, 0, 0, 0, 0));
    push32(&mut frame, target.bits);
    frame
}

/// The matchers of a request: an ARP frame addressed to the sender's
/// hardware address, in which `target` answers `sender`.
pub open spec fn arp_matchers(sender_mac: MacAddr, sender: Ipv4Addr, target: Ipv4Addr) -> Seq<
    LayersMatch,
> {
    seq![
        LayersMatch::Layer3Match(
            Layer3Match {
                layer2: Some(
                    Layer2Match {
                        ethertype: Some(ETHERTYPE_ARP),
                        src_mac: None,
                        dst_mac: Some(sender_mac),
                    },
                ),
                src_addr: Some(IpAddr::V4(target)),
                dst_addr: Some(IpAddr::V4(sender)),
            },
        ),
    ]
}

/// Builds the matchers of a request.
pub fn build_arp_matchers(sender_mac: MacAddr, sender: Ipv4Addr, target: Ipv4Addr) -> (matchers:
    Vec<LayersMatch>)
    ensures
        matchers@ == arp_matchers(sender_mac, sender, target),
{
    let layer2 = Layer2Match {
        ethertype: Some(ETHERTYPE_ARP),
        src_mac: None,
        dst_mac: Some(sender_mac),
    };
    let layer3 = Layer3Match {
        layer2: Some(layer2),
        src_addr: Some(IpAddr::V4(target)),
        dst_addr: Some(IpAddr::V4(sender)),
    };
    let mut matchers: Vec<LayersMatch> = Vec::new();
    matchers.push(LayersMatch::Layer3Match(layer3));
    matchers
}

/// The hardware address that an ARP reply gives for its sender; none
/// where the frame is no ARP reply for IPv4 over Ethernet.
pub open spec fn arp_reply_mac(frame: Seq<u8>) -> Option<MacAddr> {
    if frame.len() >= 42 && read16(frame, 12) == ETHERTYPE_ARP && read16(frame, 14) == 1 && read16(
        frame,
        16,
    ) == 0x0800 && frame[18] == 6 && frame[19] == 4 && read16(frame, 20) == 2 {
        Some(read_mac(frame, 22))
    } else {
        None
    }
}

/// Reads the hardware address of the sender of an ARP reply.
pub fn read_arp_reply(frame: &[u8]) -> (mac: Option<MacAddr>)
    ensures
        mac == arp_reply_mac(frame@),
{
    if frame.len() >= ARP_FRAME_SIZE && get16(frame, 12) == ETHERTYPE_ARP && get16(frame, 14) == 1
        && get16(frame, 16) == 0x0800 && frame[18] == 6 && frame[19] == 4 && get16(frame, 20)
        == 2 {
        Some(get_mac(frame, 22))
    } else {
        None
    }
}

/// Whether a hardware address is all zero, and so names no host.
pub open spec fn is_zero_mac(mac: MacAddr) -> bool {
    mac == MacAddr(0, 0, 0, 0, 0, 0)
}

impl ArpScanResults {
    /// The count is the number of hosts recorded, and every host recorded
    /// has a hardware address that is not zero.
    pub open spec fn wf(self) -> bool {
        &&& self.alive_hosts_num == self.alive_hosts@.dom().len()
        &&& forall|addr: u32| #[trigger]
            self.alive_hosts@.contains_key(addr) ==> !is_zero_mac(
                self.alive_hosts@[addr].mac_addr,
            )
    }

    /// No host has answered.
    pub fn new() -> (r: ArpScanResults)
        ensures
            r.wf(),
            r.alive_hosts@ == Map::<u32, ArpAliveHosts>::empty(),
    {
        ArpScanResults { alive_hosts_num: 0, alive_hosts: HashMap::new() }
    }

    /// Records that `addr` answered from the hardware address `mac_addr`,
    /// made by `ouis`, and says whether it did record. A second answer of
    /// a host replaces the first. An answer that gives the zero hardware
    /// address names no host: it is not recorded, and nothing changes.
    pub fn record(&mut self, addr: Ipv4Addr, mac_addr: MacAddr, ouis: String) -> (recorded: bool)
        ensures
            recorded == !is_zero_mac(mac_addr),
            recorded ==> final(self).alive_hosts@ == old(self).alive_hosts@.insert(
                addr.bits,
                ArpAliveHosts { mac_addr, ouis },
            ) && final(self).alive_hosts_num == final(self).alive_hosts@.dom().len(),
            !recorded ==> final(self).alive_hosts@ == old(self).alive_hosts@,
            !recorded ==> final(self).alive_hosts_num == old(self).alive_hosts_num,
            old(self).wf() ==> final(self).wf(),
    {
        broadcast use vstd::std_specs::hash::group_hash_axioms;

        if mac_addr == MacAddr(0, 0, 0, 0, 0, 0) {
            return false;
        }
        self.alive_hosts.insert(addr.bits, ArpAliveHosts { mac_addr, ouis });
        self.alive_hosts_num = self.alive_hosts.len();
        true
    }
}

} // verus!
