use pistol::checksum::{checksum, pseudo6_checksum, pseudo_checksum};
use pistol::{Ipv4Addr, Ipv6Addr};
use pnet::packet::icmp::IcmpPacket;
use pnet::packet::icmpv6::Icmpv6Packet;
use pnet::packet::ipv4::Ipv4Packet;
use pnet::packet::tcp::TcpPacket;
use pnet::packet::udp::UdpPacket;

struct Lcg(u64);

impl Lcg {
    fn next(&mut self) -> u64 {
        self.0 = self.0.wrapping_mul(6364136223846793005).wrapping_add(1442695040888963407);
        self.0 >> 11
    }

    fn bytes(&mut self, len: usize) -> Vec<u8> {
        (0..len).map(|_| self.next() as u8).collect()
    }

    fn v4(&mut self) -> Ipv4Addr {
        Ipv4Addr { bits: self.next() as u32 }
    }

    fn v6(&mut self) -> Ipv6Addr {
        Ipv6Addr { bits: ((self.next() as u128) << 64) | self.next() as u128 }
    }
}

fn zeroed(data: &[u8], word: usize) -> Vec<u8> {
    let mut copy = data.to_vec();
    copy[2 * word] = 0;
    copy[2 * word + 1] = 0;
    copy
}

#[test]
fn header_checksum_is_the_internet_checksum_with_the_field_zero() {
    let mut rng = Lcg(1);
    for round in 0..2000 {
        let len = 20 + (rng.next() % 45) as usize;
        let mut data = rng.bytes(len);
        if round % 3 == 0 {
            data[0] = 0x45;
        }
        let header = ((data[0] % 16) as usize * 4).clamp(20, len);
        let theirs = pnet::packet::ipv4::checksum(&Ipv4Packet::new(&data).unwrap());
        assert_eq!(theirs, checksum(&zeroed(&data[..header], 5)), "{:?}", data);
    }
}

#[test]
fn message_checksum_is_the_internet_checksum_with_the_field_zero() {
    let mut rng = Lcg(2);
    for _ in 0..2000 {
        let len = 4 + (rng.next() % 70) as usize;
        let data = rng.bytes(len);
        let theirs = pnet::packet::icmp::checksum(&IcmpPacket::new(&data).unwrap());
        assert_eq!(theirs, checksum(&zeroed(&data, 1)), "{:?}", data);
    }
}

#[test]
fn transport_checksums_cover_the_pseudo_header() {
    let mut rng = Lcg(3);
    for _ in 0..2000 {
        let (a, b) = (rng.v4(), rng.v4());
        let len = 20 + (rng.next() % 70) as usize;
        let data = rng.bytes(len);
        let theirs = pnet::packet::tcp::ipv4_checksum(&TcpPacket::new(&data).unwrap(), &a.bits.into(), &b.bits.into());
        assert_eq!(theirs, pseudo_checksum(6, &zeroed(&data, 8), a, b));
        let len = 8 + (rng.next() % 70) as usize;
        let data = rng.bytes(len);
        let theirs = pnet::packet::udp::ipv4_checksum(&UdpPacket::new(&data).unwrap(), &a.bits.into(), &b.bits.into());
        assert_eq!(theirs, pseudo_checksum(17, &zeroed(&data, 3), a, b));
    }
}

#[test]
fn transport_checksums_cover_the_ipv6_pseudo_header() {
    let mut rng = Lcg(4);
    for _ in 0..2000 {
        let (a, b) = (rng.v6(), rng.v6());
        let len = 20 + (rng.next() % 70) as usize;
        let data = rng.bytes(len);
        let theirs = pnet::packet::tcp::ipv6_checksum(&TcpPacket::new(&data).unwrap(), &a.bits.into(), &b.bits.into());
        assert_eq!(theirs, pseudo6_checksum(6, &zeroed(&data, 8), a, b));
        let len = 8 + (rng.next() % 70) as usize;
        let data = rng.bytes(len);
        let theirs = pnet::packet::udp::ipv6_checksum(&UdpPacket::new(&data).unwrap(), &a.bits.into(), &b.bits.into());
        assert_eq!(theirs, pseudo6_checksum(17, &zeroed(&data, 3), a, b));
        let len = 4 + (rng.next() % 70) as usize;
        let data = rng.bytes(len);
        let theirs = pnet::packet::icmpv6::checksum(&Icmpv6Packet::new(&data).unwrap(), &a.bits.into(), &b.bits.into());
        assert_eq!(theirs, pseudo6_checksum(58, &zeroed(&data, 1), a, b));
    }
}

#[test]
fn extreme_sums_fold_to_sixteen_bits() {
    let ones = vec![0xffu8; 0xffff];
    let theirs = pnet::packet::icmp::checksum(&IcmpPacket::new(&ones).unwrap());
    assert_eq!(theirs, checksum(&zeroed(&ones, 1)));
    let a = Ipv4Addr { bits: u32::MAX };
    let theirs = pnet::packet::tcp::ipv4_checksum(&TcpPacket::new(&ones).unwrap(), &a.bits.into(), &a.bits.into());
    assert_eq!(theirs, pseudo_checksum(6, &zeroed(&ones, 8), a, a));
    let b = Ipv6Addr { bits: u128::MAX };
    let theirs = pnet::packet::tcp::ipv6_checksum(&TcpPacket::new(&ones).unwrap(), &b.bits.into(), &b.bits.into());
    assert_eq!(theirs, pseudo6_checksum(6, &zeroed(&ones, 8), b, b));
    let zeros = vec![0u8; 20];
    let none = Ipv4Addr { bits: 0 };
    let theirs = pnet::packet::tcp::ipv4_checksum(&TcpPacket::new(&zeros).unwrap(), &none.bits.into(), &none.bits.into());
    assert_eq!(theirs, pseudo_checksum(6, &zeros, none, none));
}
