//! The payload of a probe: the bytes that the escaped text of a `Probe`
//! line stands for.

use crate::service::dbparser::{probes_views, ProbesProtocol, ServiceProbes, ServiceProbesView};
use crate::text::chars_of;
use vstd::prelude::*;

verus! {

/// The value of a hexadecimal digit, in either case.
pub open spec fn hex_value(c: char) -> Option<u8> {
    if '0' <= c <= '9' {
        Some((c as u32 - '0' as u32) as u8)
    } else if 'a' <= c <= 'f' {
        Some((c as u32 - 'a' as u32 + 10) as u8)
    } else if 'A' <= c <= 'F' {
        Some((c as u32 - 'A' as u32 + 10) as u8)
    } else {
        None
    }
}

/// The byte that the character behind a backslash stands for, but for
/// `x`, which takes two hexadecimal digits.
pub open spec fn escape_value(c: char) -> Option<u8> {
    if c == '\\' {
        Some(0x5cu8)
    } else if c == '0' {
        Some(0u8)
    } else if c == 'a' {
        Some(7u8)
    } else if c == 'b' {
        Some(8u8)
    } else if c == 't' {
        Some(9u8)
    } else if c == 'n' {
        Some(10u8)
    } else if c == 'v' {
        Some(11u8)
    } else if c == 'f' {
        Some(12u8)
    } else if c == 'r' {
        Some(13u8)
    } else {
        None
    }
}

/// The first byte that an escaped text stands for, and the number of
/// characters that write it; none where the text is empty or starts
/// with what stands for no byte.
///
/// A character stands for the byte with its number, if that is below 256.
/// A backslash takes the next character with it: `\\`, `\0`, `\a`, `\b`,
/// `\t`, `\n`, `\v`, `\f` and `\r` stand for one byte each, and `\x`
/// with two hexadecimal digits for the byte that the digits write.
pub open spec fn first_byte(s: Seq<char>) -> Option<(u8, int)> {
    if s.len() == 0 {
        None
    } else if s[0] != '\\' {
        if s[0] as u32 <= 0xff {
            Some((s[0] as u32 as u8, 1))
        } else {
            None
        }
    } else if s.len() < 2 {
        None
    } else if s[1] == 'x' {
        if s.len() >= 4 && hex_value(s[2]) is Some && hex_value(s[3]) is Some {
            Some(((hex_value(s[2])->Some_0 * 16 + hex_value(s[3])->Some_0) as u8, 4))
        } else {
            None
        }
    } else {
        match escape_value(s[1]) {
            Some(b) => Some((b, 2)),
            None => None,
        }
    }
}

/// The bytes that an escaped text stands for; none where some part of it
/// stands for no byte.
pub open spec fn unescaped(s: Seq<char>) -> Option<Seq<u8>>
    decreases s.len(),
{
    if s.len() == 0 {
        Some(Seq::empty())
    } else {
        match first_byte(s) {
            Some((b, n)) => if 0 < n <= s.len() {
                match unescaped(s.skip(n)) {
                    Some(rest) => Some(seq![b] + rest),
                    None => None,
                }
            } else {
                None
            },
            None => None,
        }
    }
}

/// Computes `hex_value`.
pub fn read_hex(c: char) -> (v: Option<u8>)
    ensures
        v == hex_value(c),
{
    if '0' <= c && c <= '9' {
        Some((c as u32 - '0' as u32) as u8)
    } else if 'a' <= c && c <= 'f' {
        Some((c as u32 - 'a' as u32 + 10) as u8)
    } else if 'A' <= c && c <= 'F' {
        Some((c as u32 - 'A' as u32 + 10) as u8)
    } else {
        None
    }
}

/// Computes `escape_value`.
pub fn read_escape(c: char) -> (v: Option<u8>)
    ensures
        v == escape_value(c),
{
    if c == '\\' {
        Some(0x5c)
    } else if c == '0' {
        Some(0)
    } else if c == 'a' {
        Some(7)
    } else if c == 'b' {
        Some(8)
    } else if c == 't' {
        Some(9)
    } else if c == 'n' {
        Some(10)
    } else if c == 'v' {
        Some(11)
    } else if c == 'f' {
        Some(12)
    } else if c == 'r' {
        Some(13)
    } else {
        None
    }
}

/// Computes `first_byte` of the text from `at` on.
pub fn read_first_byte(s: &[char], at: usize) -> (r: Option<(u8, usize)>)
    requires
        at <= s.len(),
    ensures
        match r {
            Some((b, n)) => first_byte(s@.skip(at as int)) == Some((b, n as int)) && 0 < n && at
                + n <= s.len(),
            None => first_byte(s@.skip(at as int)) is None,
        },
{
    let ghost rest = s@.skip(at as int);
    if at == s.len() {
        return None;
    }
    assert(rest[0] == s@[at as int]);
    let c = s[at];
    if c != '\\' {
        let code: u32 = c as u32;
        if code <= 0xff {
            Some((code as u8, 1))
        } else {
            None
        }
    } else if s.len() - at < 2 {
        None
    } else {
        assert(rest[1] == s@[at + 1]);
        let e = s[at + 1];
        if e == 'x' {
            if s.len() - at < 4 {
                return None;
            }
            assert(rest[2] == s@[at + 2] && rest[3] == s@[at + 3]);
            match (read_hex(s[at + 2]), read_hex(s[at + 3])) {
                (Some(high), Some(low)) => Some((high * 16 + low, 4)),
                _ => None,
            }
        } else {
            match read_escape(e) {
                Some(b) => Some((b, 2)),
                None => None,
            }
        }
    }
}

/// The bytes that the escaped text of a probe stands for; none where the
/// text is malformed.
pub fn probe_payload(probestring: &str) -> (payload: Option<Vec<u8>>)
    ensures
        match payload {
            Some(bytes) => unescaped(probestring@) == Some(bytes@),
            None => unescaped(probestring@) is None,
        },
{
    let s = chars_of(probestring);
    let mut out: Vec<u8> = Vec::new();
    let mut i: usize = 0;
    assert(s@.skip(0) == s@);
    while i < s.len()
        invariant
            i <= s.len(),
            s@ == probestring@,
            unescaped(s@) == match unescaped(s@.skip(i as int)) {
                Some(rest) => Some(out@ + rest),
                None => None,
            },
        decreases s.len() - i,
    {
        let ghost rest = s@.skip(i as int);
        match read_first_byte(s.as_slice(), i) {
            Some((b, n)) => {
                assert(rest.skip(n as int) == s@.skip(i + n));
                proof {
                    match unescaped(rest.skip(n as int)) {
                        Some(tail) => {
                            assert(out@.push(b) + tail == out@ + (seq![b] + tail));
                        },
                        None => {},
                    }
                }
                out.push(b);
                i += n;
            },
            None => {
                return None;
            },
        }
    }
    assert(s@.skip(s.len() as int).len() == 0);
    assert(out@ + Seq::<u8>::empty() == out@);
    Some(out)
}

/// Whether a list of ports holds a port.
pub fn lists_port(ports: &Vec<u16>, port: u16) -> (r: bool)
    ensures
        r == ports@.contains(port),
{
    let mut i: usize = 0;
    while i < ports.len()
        invariant
            i <= ports.len(),
            forall|j: int| 0 <= j < i ==> ports@[j] != port,
        decreases ports.len() - i,
    {
        if ports[i] == port {
            return true;
        }
        i += 1;
    }
    false
}

/// Whether a block offers a payload for a UDP port: its probe is a UDP
/// probe, not barred from use as a payload, and the block's ports hold
/// the port.
pub open spec fn offers_payload(block: ServiceProbesView, port: u16) -> bool {
    block.probe.protocol == ProbesProtocol::Udp && !block.probe.no_payload && block.ports is Some
        && block.ports->Some_0.contains(port)
}

/// The position of the first block of `db` that offers a payload for
/// `port`, or the length of `db` where none does.
pub open spec fn payload_block(db: Seq<ServiceProbesView>, port: u16) -> int
    decreases db.len(),
{
    if db.len() == 0 {
        0
    } else if offers_payload(db[0], port) {
        0
    } else {
        1 + payload_block(db.drop_first(), port)
    }
}

/// The payload of a UDP probe to `port`: what the first block of the
/// database that offers one for the port stands for, and nothing where no
/// block offers one or its text is malformed.
pub open spec fn udp_payload(db: Seq<ServiceProbesView>, port: u16) -> Seq<u8> {
    let k = payload_block(db, port);
    if 0 <= k < db.len() {
        match unescaped(db[k].probe.probestring) {
            Some(bytes) => bytes,
            None => Seq::empty(),
        }
    } else {
        Seq::empty()
    }
}

/// Chooses the payload of a UDP probe to `port` from the database.
pub fn udp_payload_for(db: &[ServiceProbes], port: u16) -> (payload: Vec<u8>)
    ensures
        payload@ == udp_payload(probes_views(db@), port),
{
    let ghost all = probes_views(db@);
    let mut k: usize = 0;
    assert(all.skip(0) == all);
    while k < db.len()
        invariant
            k <= db.len(),
            all == probes_views(db@),
            payload_block(all, port) == k + payload_block(all.skip(k as int), port),
        decreases db.len() - k,
    {
        assert(all.skip(k as int)[0] == db[k as int]@);
        assert(all[k as int] == db[k as int]@);
        let block = &db[k];
        let udp = match block.probe.protocol {
            ProbesProtocol::Udp => true,
            ProbesProtocol::Tcp => false,
        };
        let listed = match &block.ports {
            Some(ports) => lists_port(ports, port),
            None => false,
        };
        if udp && !block.probe.no_payload && listed {
            return match probe_payload(block.probe.probestring.as_str()) {
                Some(bytes) => bytes,
                None => Vec::new(),
            };
        }
        assert(all.skip(k as int).drop_first() == all.skip(k + 1));
        k += 1;
    }
    Vec::new()
}

} // verus!
