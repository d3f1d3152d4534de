//! ICMP echo ping: the probe, the matcher that binds a response to it,
//! and the verdict that a response gives.

use crate::addr::{IpAddr, Ipv4Addr};
use crate::layers::{Layer3Match, Layer4MatchIcmp, LayersMatch};
use crate::packet::{
    be16, be32, be64, build_echo_request, build_ipv4_header, echo_request, ipv4_header,
    ipv4_payload, ipv4_payload_bounds, push16, push32, push64, push_bytes, Ipv4Fields,
    ICMP_HEADER_SIZE, IPV4_HEADER_SIZE, PROTOCOL_ICMP,
};
use crate::results::PingStatus;
use chrono::{DateTime, Utc};
use rand::Rng;
use std::time::SystemTime;
use vstd::prelude::*;

verus! {

/// The time to live of a ping.
pub const TTL: u8 = 64;

/// The length of the data that an echo request carries.
pub const ICMP_DATA_SIZE: usize = 16;

/// The ICMP type of an echo reply.
pub const ICMP_ECHO_REPLY: u8 = 0;

/// The ICMP type of a destination unreachable message.
pub const ICMP_DESTINATION_UNREACHABLE: u8 = 3;

/// `rand::Rng::gen` on the thread's generator: a number drawn at random.
/// Nothing is known of it.
#[verifier::external_body]
pub(crate) fn random_u32() -> u32 {
    rand::thread_rng().gen()
}

/// `chrono`'s `DateTime::<Utc>::from` on the system's clock, read by
/// `timestamp_millis`: the time of the call in milliseconds since the
/// epoch, negative where the clock stands before it. Nothing is known of
/// it.
#[verifier::external_body]
pub(crate) fn now_millis() -> i64 {
    DateTime::<Utc>::from(SystemTime::now()).timestamp_millis()
}

/// What is drawn for one ping: the identification of the IP header, the
/// identifier and sequence number of the echo request, and the time sent.
#[derive(Debug, Clone, Copy, PartialEq, Eq, Structural)]
pub struct PingNonce {
    pub identification: u16,
    pub identifier: u16,
    pub sequence: u16,
    pub tv_sec: u64,
    pub tv_msec: u32,
}

/// The data of an echo request: the seconds in eight bytes and the
/// milliseconds in four, high byte first, then zeros up to sixteen bytes.
pub open spec fn ping_data(nonce: PingNonce) -> Seq<u8> {
    be64(nonce.tv_sec) + be32(nonce.tv_msec) + seq![0u8, 0u8, 0u8, 0u8]
}

/// The IP header of a ping.
pub open spec fn ping_fields(source: Ipv4Addr, destination: Ipv4Addr, nonce: PingNonce)
    -> Ipv4Fields {
    Ipv4Fields {
        source,
        destination,
        protocol: PROTOCOL_ICMP,
        total_length: 44,
        identification: nonce.identification,
        ttl: TTL,
    }
}

/// The ping packet: the IP header, then the echo request.
pub open spec fn ping_packet(source: Ipv4Addr, destination: Ipv4Addr, nonce: PingNonce) -> Seq<u8> {
    ipv4_header(ping_fields(source, destination, nonce)) + echo_request(
        nonce.identifier,
        nonce.sequence,
        ping_data(nonce),
    )
}

/// Builds the ping packet: 44 bytes, IP header and echo request, each with
/// a checksum that a receiver finds intact.
pub fn build_ping_packet(source: Ipv4Addr, destination: Ipv4Addr, nonce: PingNonce) -> (packet:
    Vec<u8>)
    ensures
        packet@ == ping_packet(source, destination, nonce),
        packet.len() == IPV4_HEADER_SIZE + ICMP_HEADER_SIZE + ICMP_DATA_SIZE,
        crate::checksum::internet_checksum(packet@.subrange(0, 20)) == 0,
        crate::checksum::internet_checksum(packet@.subrange(20, 44)) == 0,
{
    let fields = Ipv4Fields {
        source,
        destination,
        protocol: PROTOCOL_ICMP,
        total_length: 44,
        identification: nonce.identification,
        ttl: TTL,
    };
    let mut packet = build_ipv4_header(fields);
    let mut data: Vec<u8> = Vec::new();
    push64(&mut data, nonce.tv_sec);
    push32(&mut data, nonce.tv_msec);
    data.push(0);
    data.push(0);
    data.push(0);
    data.push(0);
    assert(data@ == ping_data(nonce));
    let message = build_echo_request(nonce.identifier, nonce.sequence, data.as_slice());
    let ghost header = packet@;
    push_bytes(&mut packet, message.as_slice());
    assert(packet@.subrange(0, 20) == header);
    assert(packet@.subrange(20, 44) == message@);
    packet
}

/// The matchers of a ping from `source` to `destination`: any ICMP
/// message that `destination` sends to `source`.
pub open spec fn ping_matchers(source: Ipv4Addr, destination: Ipv4Addr) -> Seq<LayersMatch> {
    seq![
        LayersMatch::Layer4MatchIcmp(
            Layer4MatchIcmp {
                layer3: Some(
                    Layer3Match {
                        layer2: None,
                        src_addr: Some(IpAddr::V4(destination)),
                        dst_addr: Some(IpAddr::V4(source)),
                    },
                ),
                types: None,
                codes: None,
            },
        ),
    ]
}

/// Builds the matchers of a ping.
pub fn build_ping_matchers(source: Ipv4Addr, destination: Ipv4Addr) -> (matchers: Vec<LayersMatch>)
    ensures
        matchers@ == ping_matchers(source, destination),
{
    let layer3 = Layer3Match {
        layer2: None,
        src_addr: Some(IpAddr::V4(destination)),
        dst_addr: Some(IpAddr::V4(source)),
    };
    let layer4 = Layer4MatchIcmp { layer3: Some(layer3), types: None, codes: None };
    let mut matchers: Vec<LayersMatch> = Vec::new();
    matchers.push(LayersMatch::Layer4MatchIcmp(layer4));
    matchers
}

/// The type and code of the ICMP message that an IPv4 packet carries;
/// none where the packet carries another protocol or is cut short.
pub open spec fn message_kind(packet: Seq<u8>) -> Option<(u8, u8)> {
    let message = ipv4_payload(packet);
    if packet.len() >= 20 && packet[9] == PROTOCOL_ICMP && message.len() >= 4 {
        Some((message[0], message[1]))
    } else {
        None
    }
}

/// Reads type and code of the ICMP message of a packet.
pub fn read_message_kind(packet: &[u8]) -> (kind: Option<(u8, u8)>)
    ensures
        kind == message_kind(packet@),
{
    if packet.len() < 20 || packet[9] != PROTOCOL_ICMP {
        return None;
    }
    let (from, to) = ipv4_payload_bounds(packet);
    if to - from < 4 {
        return None;
    }
    let ghost message = packet@.subrange(from as int, to as int);
    assert(message[0] == packet@[from as int] && message[1] == packet@[from + 1]);
    Some((packet[from], packet[from + 1]))
}

/// Whether `code` is one of the codes of a destination unreachable
/// message that count for liveness and filtering: host, protocol or port
/// unreachable, or prohibited by the administration of network, host or
/// communication.
pub open spec fn is_unreachable_code(code: u8) -> bool {
    code == 1 || code == 2 || code == 3 || code == 9 || code == 10 || code == 13
}

/// Decides `is_unreachable_code`.
pub fn unreachable_code(code: u8) -> (r: bool)
    ensures
        r == is_unreachable_code(code),
{
    code == 1 || code == 2 || code == 3 || code == 9 || code == 10 || code == 13
}

/// The view of an optional response.
pub open spec fn response_view(response: Option<Vec<u8>>) -> Option<Seq<u8>> {
    match response {
        Some(packet) => Some(packet@),
        None => None,
    }
}

/// What an echo reply repeats of the request that it answers, behind its
/// type, code and checksum: identifier and sequence number, and the time
/// that the request carries.
pub open spec fn ping_echo(nonce: PingNonce) -> Seq<u8> {
    be16(nonce.identifier) + be16(nonce.sequence) + be64(nonce.tv_sec) + be32(nonce.tv_msec)
}

/// Whether a message answers the ping that `nonce` was drawn for: it has
/// the type of an echo reply and code 0, and repeats the identifier, the
/// sequence number and the time of that ping. A reply to another ping, an
/// earlier one for instance, does not.
pub open spec fn answers(message: Seq<u8>, reply: u8, nonce: PingNonce) -> bool {
    message.len() >= 20 && message[0] == reply && message[1] == 0 && message.subrange(4, 20)
        == ping_echo(nonce)
}

/// Whether the bytes of `data` from `from` on begin with `expected`.
pub fn begins_with(data: &[u8], from: usize, expected: &[u8]) -> (r: bool)
    ensures
        r == (from + expected.len() <= data.len() && data@.subrange(
            from as int,
            from + expected.len(),
        ) == expected@),
{
    if from > data.len() || expected.len() > data.len() - from {
        return false;
    }
    let mut i: usize = 0;
    while i < expected.len()
        invariant
            i <= expected.len(),
            from + expected.len() <= data.len(),
            data@.subrange(from as int, from + i) == expected@.take(i as int),
        decreases expected.len() - i,
    {
        if data[from + i] != expected[i] {
            assert(data@.subrange(from as int, from + expected.len())[i as int] != expected@[i as int]);
            return false;
        }
        assert(data@.subrange(from as int, from + i + 1) == data@.subrange(
            from as int,
            from + i,
        ).push(data@[from + i]));
        assert(expected@.take(i + 1) == expected@.take(i as int).push(expected@[i as int]));
        i += 1;
    }
    assert(expected@ == expected@.take(expected.len() as int));
    true
}

/// Decides `answers` for the message that lies in `packet[from..to]`.
pub fn is_answer(packet: &[u8], from: usize, to: usize, reply: u8, nonce: PingNonce) -> (r: bool)
    requires
        from <= to <= packet.len(),
    ensures
        r == answers(packet@.subrange(from as int, to as int), reply, nonce),
{
    let ghost message = packet@.subrange(from as int, to as int);
    if to - from < 20 {
        return false;
    }
    assert(message[0] == packet@[from as int] && message[1] == packet@[from + 1]);
    if packet[from] != reply || packet[from + 1] != 0 {
        return false;
    }
    let mut expected: Vec<u8> = Vec::new();
    push16(&mut expected, nonce.identifier);
    push16(&mut expected, nonce.sequence);
    push64(&mut expected, nonce.tv_sec);
    push32(&mut expected, nonce.tv_msec);
    assert(expected@ == ping_echo(nonce));
    assert(expected@.len() == 16);
    assert(message.subrange(4, 20) == packet@.subrange(from + 4, from + 20));
    begins_with(packet, from + 4, expected.as_slice())
}

/// What a response tells of the host: up where it is an ICMP echo reply
/// that answers the ping that `nonce` was drawn for, and down otherwise,
/// be it a reply to another ping, a destination unreachable message,
/// anything else, or no response.
pub open spec fn ping_verdict(response: Option<Seq<u8>>, nonce: PingNonce) -> PingStatus {
    match response {
        Some(packet) => if packet.len() >= 20 && packet[9] == PROTOCOL_ICMP && answers(
            ipv4_payload(packet),
            ICMP_ECHO_REPLY,
            nonce,
        ) {
            PingStatus::Up
        } else {
            PingStatus::Down
        },
        None => PingStatus::Down,
    }
}

/// Computes `ping_verdict`.
pub fn ping_status(response: &Option<Vec<u8>>, nonce: PingNonce) -> (status: PingStatus)
    ensures
        status == ping_verdict(response_view(*response), nonce),
{
    match response {
        Some(packet) => {
            let packet = packet.as_slice();
            if packet.len() < 20 || packet[9] != PROTOCOL_ICMP {
                return PingStatus::Down;
            }
            let (from, to) = ipv4_payload_bounds(packet);
            if is_answer(packet, from, to, ICMP_ECHO_REPLY, nonce) {
                PingStatus::Up
            } else {
                PingStatus::Down
            }
        },
        None => PingStatus::Down,
    }
}

/// An echo reply that is judged up carries the identifier, the sequence
/// number and the time of the ping that it is held against.
pub proof fn lemma_up_is_pinned(response: Option<Seq<u8>>, nonce: PingNonce)
    requires
        ping_verdict(response, nonce) == PingStatus::Up,
    ensures
        response is Some,
        message_kind(response->Some_0) == Some((ICMP_ECHO_REPLY, 0u8)),
        ipv4_payload(response->Some_0).subrange(4, 8) == be16(nonce.identifier) + be16(
            nonce.sequence,
        ),
        ipv4_payload(response->Some_0).subrange(8, 20) == be64(nonce.tv_sec) + be32(
            nonce.tv_msec,
        ),
{
    let message = ipv4_payload(response->Some_0);
    let echo = message.subrange(4, 20);
    assert(message.subrange(4, 8) == echo.subrange(0, 4));
    assert(message.subrange(8, 20) == echo.subrange(4, 16));
    assert(ping_echo(nonce).subrange(0, 4) == be16(nonce.identifier) + be16(nonce.sequence));
    assert(ping_echo(nonce).subrange(4, 16) == be64(nonce.tv_sec) + be32(nonce.tv_msec));
}

/// A ping, ready to send.
#[derive(Debug, Clone)]
pub struct PingProbe {
    pub nonce: PingNonce,
    pub packet: Vec<u8>,
    pub matchers: Vec<LayersMatch>,
}

/// Makes a ping, with numbers drawn at random and the time of the call.
pub fn ping_probe(source: Ipv4Addr, destination: Ipv4Addr) -> (probe: PingProbe)
    ensures
        probe.packet@ == ping_packet(source, destination, probe.nonce),
        probe.matchers@ == ping_matchers(source, destination),
{
    let nonce = draw_ping_nonce();
    PingProbe {
        nonce,
        packet: build_ping_packet(source, destination, nonce),
        matchers: build_ping_matchers(source, destination),
    }
}

/// Draws what one ping needs: two numbers at random, and the time of the
/// call. Whatever is drawn, the result is what `nonce_of` makes of it.
pub fn draw_ping_nonce() -> (nonce: PingNonce)
    ensures
        exists|first: u32, second: u32, millis: i64|
            nonce == #[trigger] nonce_of(first, second, millis),
        nonce.tv_msec < 1000,
        nonce.tv_sec <= 0x7fff_ffff_ffff_ffffint / 1000,
{
    let first = random_u32();
    let second = random_u32();
    let millis = now_millis();
    let nonce = make_ping_nonce(first, second, millis);
    assert(nonce == nonce_of(first, second, millis));
    nonce
}

/// What two drawn numbers and a time in milliseconds since the epoch make
/// for one ping: the identification is the low half of the first number,
/// identifier and sequence number are the high and the low half of the
/// second, and the time is cut into seconds and the milliseconds within
/// the second. A time before the epoch counts as the epoch.
pub open spec fn nonce_of(first: u32, second: u32, millis: i64) -> PingNonce {
    PingNonce {
        identification: (first % 0x1_0000) as u16,
        identifier: (second / 0x1_0000) as u16,
        sequence: (second % 0x1_0000) as u16,
        tv_sec: if millis >= 0 {
            (millis / 1000) as u64
        } else {
            0
        },
        tv_msec: if millis >= 0 {
            (millis % 1000) as u32
        } else {
            0
        },
    }
}

/// Computes `nonce_of`.
pub fn make_ping_nonce(first: u32, second: u32, millis: i64) -> (nonce: PingNonce)
    ensures
        nonce == nonce_of(first, second, millis),
{
    let (tv_sec, tv_msec): (u64, u32) = if millis >= 0 {
        ((millis / 1000) as u64, (millis % 1000) as u32)
    } else {
        (0, 0)
    };
    PingNonce {
        identification: (first % 0x1_0000) as u16,
        identifier: (second / 0x1_0000) as u16,
        sequence: (second % 0x1_0000) as u16,
        tv_sec,
        tv_msec,
    }
}

} // verus!
