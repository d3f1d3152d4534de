//! Verdicts and results: what a probe tells of a host, a port or a
//! protocol.

use crate::addr::{push_quad, quad_text, IpAddr, Ipv4Addr};
use crate::layers::MacAddr;
use crate::text::{append, chars_of, decimal, hex_char, hex_digit, push_decimal, string_of};
use pnet::packet::ip::IpNextHeaderProtocol;
use std::collections::HashMap;
use std::time::Duration;
use vstd::prelude::*;
use vstd::std_specs::iter::IteratorSpec;

verus! {

/// Whether a host answered.
#[derive(Debug, Clone, Copy, PartialEq, Eq, Structural)]
pub enum PingStatus {
    Up,
    Down,
}

/// The state of a port or a protocol, as far as a probe can tell.
#[derive(Debug, Clone, Copy, PartialEq, Eq, Structural)]
pub enum TargetScanStatus {
    Open,
    Closed,
    Filtered,
    OpenOrFiltered,
    Unfiltered,
    Unreachable,
    ClosedOrFiltered,
}

/// The IP identifications that a zombie host answered with, before and
/// after the spoofed probe of an idle scan.
#[derive(Debug, Clone, Copy, PartialEq, Eq, Structural)]
pub struct IdleScanResults {
    pub zombie_ip_id_1: u16,
    pub zombie_ip_id_2: u16,
}

/// The keys of a map, in the order in which the map is walked.
pub fn keys_of(m: &HashMap<u32, ArpAliveHosts>) -> (keys: Vec<u32>)
    ensures
        keys@.to_set() == m@.dom(),
        keys@.no_duplicates(),
{
    broadcast use vstd::std_specs::hash::group_hash_axioms;
    broadcast use vstd::std_specs::hash::axiom_spec_keys_iter;

    let mut keys: Vec<u32> = Vec::new();
    for k in it: m.keys()
        invariant
            keys@ == it.seq().take(it.index() as int).unref(),
            it.index() == it.seq().len() ==> keys@ == it.seq().unref(),
            it.seq().unref().to_set() == m@.dom(),
            it.seq().unref().no_duplicates(),
    {
        keys.push(*k);
        assert(it.seq().take(it.seq().len() as int) == it.seq());
    }
    keys
}

/// A host that answered an ARP request.
#[derive(Debug, Clone)]
pub struct ArpAliveHosts {
    pub mac_addr: MacAddr,
    /// The maker that the address's first three octets are registered to.
    pub ouis: String,
}

/// The hosts that answered an ARP scan, by address.
#[derive(Debug, Clone)]
pub struct ArpScanResults {
    pub alive_hosts_num: usize,
    /// The hosts, keyed by the bits of their IPv4 address.
    pub alive_hosts: HashMap<u32, ArpAliveHosts>,
}

/// The result of a ping.
#[derive(Debug, Clone, Copy)]
pub struct PingResults {
    pub addr: IpAddr,
    pub status: PingStatus,
    pub rtt: Option<Duration>,
}

/// What a scan found of the ports of a host.
#[derive(Debug, Clone)]
pub struct TcpUdpScanResults {
    pub addr: IpAddr,
    pub results: HashMap<u16, TargetScanStatus>,
    pub rtt: Option<Duration>,
}

/// What a scan found of the protocols of a host, by protocol number.
#[derive(Debug, Clone)]
pub struct IpScanResults {
    pub addr: IpAddr,
    pub results: HashMap<u8, TargetScanStatus>,
    pub rtt: Option<Duration>,
}

/// The word for a state.
pub open spec fn status_text(status: TargetScanStatus) -> Seq<char> {
    match status {
        TargetScanStatus::Open => "open"@,
        TargetScanStatus::OpenOrFiltered => "open|filtered"@,
        TargetScanStatus::Filtered => "filtered"@,
        TargetScanStatus::Unfiltered => "unfiltered"@,
        TargetScanStatus::Closed => "closed"@,
        TargetScanStatus::Unreachable => "unreachable"@,
        TargetScanStatus::ClosedOrFiltered => "closed|filtered"@,
    }
}

/// Appends the word for a state.
pub fn push_status(out: &mut Vec<char>, status: TargetScanStatus)
    ensures
        final(out)@ == old(out)@ + status_text(status),
{
    let word = match status {
        TargetScanStatus::Open => chars_of("open"),
        TargetScanStatus::OpenOrFiltered => chars_of("open|filtered"),
        TargetScanStatus::Filtered => chars_of("filtered"),
        TargetScanStatus::Unfiltered => chars_of("unfiltered"),
        TargetScanStatus::Closed => chars_of("closed"),
        TargetScanStatus::Unreachable => chars_of("unreachable"),
        TargetScanStatus::ClosedOrFiltered => chars_of("closed|filtered"),
    };
    append(out, word.as_slice());
}

/// The line of a ping result: the address, then `up` or `down`.
pub open spec fn ping_text(addr: IpAddr, status: PingStatus) -> Seq<char> {
    addr.text() + match status {
        PingStatus::Up => " up"@,
        PingStatus::Down => " down"@,
    }
}

impl PingResults {
    /// The result as a line of text.
    pub fn to_string(&self) -> (s: String)
        ensures
            s@ == ping_text(self.addr, self.status),
    {
        let mut out: Vec<char> = Vec::new();
        self.addr.push_text(&mut out);
        let word = match self.status {
            PingStatus::Up => chars_of(" up"),
            PingStatus::Down => chars_of(" down"),
        };
        append(&mut out, word.as_slice());
        string_of(out.as_slice())
    }
}

/// The line of a port: the address, the port and the word for its state.
pub open spec fn port_line(addr: IpAddr, port: u16, status: TargetScanStatus) -> Seq<char> {
    addr.text() + seq![' '] + decimal(port as nat) + seq![' '] + status_text(status) + seq!['\n']
}

/// The lines of the ports below `below`, in rising order.
pub open spec fn port_lines(addr: IpAddr, results: Map<u16, TargetScanStatus>, below: int) -> Seq<
    char,
>
    decreases below,
{
    if below <= 0 {
        Seq::empty()
    } else if results.contains_key((below - 1) as u16) {
        port_lines(addr, results, below - 1) + port_line(
            addr,
            (below - 1) as u16,
            results[(below - 1) as u16],
        )
    } else {
        port_lines(addr, results, below - 1)
    }
}

impl TcpUdpScanResults {
    /// Results for `addr` with no port in them yet.
    pub fn new(addr: IpAddr, rtt: Option<Duration>) -> (r: TcpUdpScanResults)
        ensures
            r.addr == addr,
            r.rtt == rtt,
            r.results@ == Map::<u16, TargetScanStatus>::empty(),
    {
        let results = HashMap::new();
        TcpUdpScanResults { addr, results, rtt }
    }

    /// Records what the probe of a port came to: the state that the probe
    /// found, or, where the probe itself failed, that the port could not
    /// be reached. A later record of a port replaces an earlier one.
    pub fn record(&mut self, port: u16, outcome: Option<TargetScanStatus>)
        ensures
            final(self).addr == old(self).addr,
            final(self).rtt == old(self).rtt,
            final(self).results@ == old(self).results@.insert(
                port,
                match outcome {
                    Some(status) => status,
                    None => TargetScanStatus::Unreachable,
                },
            ),
    {
        broadcast use vstd::std_specs::hash::group_hash_axioms;

        let status = match outcome {
            Some(status) => status,
            None => TargetScanStatus::Unreachable,
        };
        self.results.insert(port, status);
    }

    /// The results as text: one line for each port, in rising order.
    pub fn to_string(&self) -> (s: String)
        ensures
            s@ == port_lines(self.addr, self.results@, 0x1_0000),
    {
        broadcast use vstd::std_specs::hash::group_hash_axioms;

        let mut out: Vec<char> = Vec::new();
        let mut p: u32 = 0;
        while p < 0x1_0000
            invariant
                p <= 0x1_0000,
                out@ == port_lines(self.addr, self.results@, p as int),
            decreases 0x1_0000 - p,
        {
            let port: u16 = p as u16;
            match self.results.get(&port) {
                Some(status) => {
                    self.addr.push_text(&mut out);
                    out.push(' ');
                    push_decimal(&mut out, port as u64);
                    out.push(' ');
                    push_status(&mut out, *status);
                    out.push('\n');
                },
                None => {},
            }
            p += 1;
        }
        string_of(out.as_slice())
    }
}

/// The name that `pnet` prints for a protocol number.
pub uninterp spec fn protocol_name(protocol: u8) -> Seq<char>;

/// The `Display` of `pnet::packet::ip::IpNextHeaderProtocol`: the name of
/// the protocol with the number given.
#[verifier::external_body]
pub(crate) fn name_of_protocol(protocol: u8) -> (name: String)
    ensures
        name@ == protocol_name(protocol),
{
    format!("{}", IpNextHeaderProtocol(protocol))
}

/// A line of results: the address, a name and the word for a state.
pub open spec fn named_line(addr: IpAddr, name: Seq<char>, status: TargetScanStatus) -> Seq<char> {
    addr.text() + seq![' '] + name + seq![' '] + status_text(status) + seq!['\n']
}

/// The line of a protocol: the address, the protocol's name and the word
/// for its state.
pub open spec fn protocol_line(addr: IpAddr, protocol: u8, status: TargetScanStatus) -> Seq<char> {
    named_line(addr, protocol_name(protocol), status)
}

/// Appends a line of results.
pub fn push_named_line(out: &mut Vec<char>, addr: IpAddr, name: &str, status: TargetScanStatus)
    ensures
        final(out)@ == old(out)@ + named_line(addr, name@, status),
{
    addr.push_text(out);
    out.push(' ');
    append(out, chars_of(name).as_slice());
    out.push(' ');
    push_status(out, status);
    out.push('\n');
}

/// The lines of the protocols below `below`, in rising order of number.
pub open spec fn protocol_lines(addr: IpAddr, results: Map<u8, TargetScanStatus>, below: int)
    -> Seq<char>
    decreases below,
{
    if below <= 0 {
        Seq::empty()
    } else if results.contains_key((below - 1) as u8) {
        protocol_lines(addr, results, below - 1) + protocol_line(
            addr,
            (below - 1) as u8,
            results[(below - 1) as u8],
        )
    } else {
        protocol_lines(addr, results, below - 1)
    }
}

impl IpScanResults {
    /// Results for `addr` with no protocol in them yet.
    pub fn new(addr: IpAddr, rtt: Option<Duration>) -> (r: IpScanResults)
        ensures
            r.addr == addr,
            r.rtt == rtt,
            r.results@ == Map::<u8, TargetScanStatus>::empty(),
    {
        let results = HashMap::new();
        IpScanResults { addr, results, rtt }
    }

    /// Records what the probe of a protocol came to: the state that the
    /// probe found, or, where the probe itself failed, that the protocol
    /// could not be reached. A later record replaces an earlier one.
    pub fn record(&mut self, protocol: u8, outcome: Option<TargetScanStatus>)
        ensures
            final(self).addr == old(self).addr,
            final(self).rtt == old(self).rtt,
            final(self).results@ == old(self).results@.insert(
                protocol,
                match outcome {
                    Some(status) => status,
                    None => TargetScanStatus::Unreachable,
                },
            ),
    {
        broadcast use vstd::std_specs::hash::group_hash_axioms;

        let status = match outcome {
            Some(status) => status,
            None => TargetScanStatus::Unreachable,
        };
        self.results.insert(protocol, status);
    }

    /// The results as text: one line for each protocol, in rising order
    /// of number.
    pub fn to_string(&self) -> (s: String)
        ensures
            s@ == protocol_lines(self.addr, self.results@, 0x100),
    {
        broadcast use vstd::std_specs::hash::group_hash_axioms;

        let mut out: Vec<char> = Vec::new();
        let mut p: u16 = 0;
        while p < 0x100
            invariant
                p <= 0x100,
                out@ == protocol_lines(self.addr, self.results@, p as int),
            decreases 0x100 - p,
        {
            let protocol: u8 = p as u8;
            match self.results.get(&protocol) {
                Some(status) => {
                    let name = name_of_protocol(protocol);
                    push_named_line(&mut out, self.addr, name.as_str(), *status);
                },
                None => {},
            }
            p += 1;
        }
        string_of(out.as_slice())
    }
}

/// The two hexadecimal digits of an octet.
pub open spec fn octet_text(octet: u8) -> Seq<char> {
    seq![hex_char(octet as int / 16), hex_char(octet as int % 16)]
}

/// The text that writes a hardware address: six octets of two hexadecimal
/// digits between colons.
pub open spec fn mac_text(mac: MacAddr) -> Seq<char> {
    octet_text(mac.0) + seq![':'] + octet_text(mac.1) + seq![':'] + octet_text(mac.2) + seq![':']
        + octet_text(mac.3) + seq![':'] + octet_text(mac.4) + seq![':'] + octet_text(mac.5)
}

/// Appends the two hexadecimal digits of an octet.
pub fn push_octet(out: &mut Vec<char>, octet: u8)
    ensures
        final(out)@ == old(out)@ + octet_text(octet),
{
    out.push(hex_digit(octet / 16));
    out.push(hex_digit(octet % 16));
}

/// Appends the text that writes a hardware address.
pub fn push_mac(out: &mut Vec<char>, mac: MacAddr)
    ensures
        final(out)@ == old(out)@ + mac_text(mac),
{
    push_octet(out, mac.0);
    out.push(':');
    push_octet(out, mac.1);
    out.push(':');
    push_octet(out, mac.2);
    out.push(':');
    push_octet(out, mac.3);
    out.push(':');
    push_octet(out, mac.4);
    out.push(':');
    push_octet(out, mac.5);
}

/// The line of an alive host: its address, its hardware address and its
/// maker.
pub open spec fn alive_line(addr: u32, host: ArpAliveHosts) -> Seq<char> {
    quad_text(Ipv4Addr { bits: addr }) + seq![':', ' '] + mac_text(host.mac_addr) + seq![' ', '(']
        + host.ouis@ + seq![')', '\n']
}

/// The lines of the alive hosts with an address below `below`, in rising
/// order of address.
pub open spec fn alive_lines(hosts: Map<u32, ArpAliveHosts>, below: int) -> Seq<char>
    decreases below,
{
    if below <= 0 {
        Seq::empty()
    } else if hosts.contains_key((below - 1) as u32) {
        alive_lines(hosts, below - 1) + alive_line((below - 1) as u32, hosts[(below - 1) as u32])
    } else {
        alive_lines(hosts, below - 1)
    }
}

/// Where no host has an address from `from` up to `to`, the lines below
/// `to` are those below `from`.
pub proof fn lemma_alive_lines_gap(hosts: Map<u32, ArpAliveHosts>, from: int, to: int)
    requires
        0 <= from <= to <= 0x1_0000_0000,
        forall|k: u32| from <= k < to ==> !hosts.contains_key(k),
    ensures
        alive_lines(hosts, to) == alive_lines(hosts, from),
    decreases to - from,
{
    if from < to {
        lemma_alive_lines_gap(hosts, from, to - 1);
        assert(!hosts.contains_key((to - 1) as u32));
    }
}

/// The least of `keys` that is not below `from`.
pub fn least_from(keys: &Vec<u32>, from: u32) -> (least: Option<u32>)
    ensures
        match least {
            Some(k) => keys@.contains(k) && from <= k && forall|j: int|
                0 <= j < keys@.len() && from <= keys@[j] ==> k <= keys@[j],
            None => forall|j: int| 0 <= j < keys@.len() ==> keys@[j] < from,
        },
{
    let mut least: Option<u32> = None;
    let mut i: usize = 0;
    while i < keys.len()
        invariant
            i <= keys.len(),
            match least {
                Some(k) => keys@.contains(k) && from <= k && forall|j: int|
                    0 <= j < i && from <= keys@[j] ==> k <= keys@[j],
                None => forall|j: int| 0 <= j < i ==> keys@[j] < from,
            },
        decreases keys.len() - i,
    {
        let k = keys[i];
        if k >= from {
            match least {
                Some(best) => {
                    if k < best {
                        least = Some(k);
                    }
                },
                None => {
                    least = Some(k);
                },
            }
        }
        i += 1;
    }
    least
}

/// The text of the results of an ARP scan: the number of alive hosts, then
/// the lines of the hosts.
pub open spec fn arp_text(count: usize, hosts: Map<u32, ArpAliveHosts>) -> Seq<char> {
    "Alive hosts: "@ + decimal(count as nat) + seq!['\n'] + alive_lines(hosts, 0x1_0000_0000)
}

/// Appends the line of an alive host.
pub fn push_alive_line(out: &mut Vec<char>, addr: u32, host: &ArpAliveHosts)
    ensures
        final(out)@ == old(out)@ + alive_line(addr, *host),
{
    push_quad(out, Ipv4Addr { bits: addr });
    out.push(':');
    out.push(' ');
    push_mac(out, host.mac_addr);
    out.push(' ');
    out.push('(');
    append(out, chars_of(host.ouis.as_str()).as_slice());
    out.push(')');
    out.push('\n');
}

/// Where every key from `from` on is at least `to`, the map has no key
/// from `from` up to `to`.
pub proof fn lemma_no_keys_between(
    keys: Seq<u32>,
    hosts: Map<u32, ArpAliveHosts>,
    from: int,
    to: int,
)
    requires
        keys.to_set() == hosts.dom(),
        forall|j: int| 0 <= j < keys.len() && from <= keys[j] ==> to <= keys[j],
    ensures
        forall|k: u32| from <= k < to ==> !hosts.contains_key(k),
{
    assert forall|k: u32| from <= k < to implies !hosts.contains_key(k) by {
        if hosts.contains_key(k) {
            assert(keys.to_set().contains(k));
            let j = choose|j: int| 0 <= j < keys.len() && keys[j] == k;
            assert(to <= keys[j]);
        }
    }
}

impl ArpScanResults {
    /// The results as text: the number of alive hosts, then one line for
    /// each, in rising order of address.
    pub fn to_string(&self) -> (s: String)
        ensures
            s@ == arp_text(self.alive_hosts_num, self.alive_hosts@),
    {
        broadcast use vstd::std_specs::hash::group_hash_axioms;

        let mut out: Vec<char> = chars_of("Alive hosts: ");
        push_decimal(&mut out, self.alive_hosts_num as u64);
        out.push('\n');
        let ghost head = out@;
        let ghost hosts = self.alive_hosts@;
        let keys = keys_of(&self.alive_hosts);
        let mut from: u32 = 0;
        let mut done: bool = false;
        while !done
            invariant
                hosts == self.alive_hosts@,
                keys@.to_set() == hosts.dom(),
                !done ==> out@ == head + alive_lines(hosts, from as int),
                done ==> out@ == head + alive_lines(hosts, 0x1_0000_0000),
            decreases
                    if done {
                        0
                    } else {
                        0x1_0000_0001 - from
                    },
        {
            match least_from(&keys, from) {
                Some(k) => {
                    proof {
                        assert(keys@.to_set().contains(k));
                        lemma_no_keys_between(keys@, hosts, from as int, k as int);
                        lemma_alive_lines_gap(hosts, from as int, k as int);
                    }
                    match self.alive_hosts.get(&k) {
                        Some(host) => {
                            push_alive_line(&mut out, k, host);
                        },
                        None => {},
                    }
                    assert(out@ == head + alive_lines(hosts, k + 1));
                    if k == u32::MAX {
                        done = true;
                    } else {
                        from = k + 1;
                    }
                },
                None => {
                    proof {
                        lemma_no_keys_between(keys@, hosts, from as int, 0x1_0000_0000);
                        lemma_alive_lines_gap(hosts, from as int, 0x1_0000_0000);
                    }
                    done = true;
                },
            }
        }
        string_of(out.as_slice())
    }
}

} // verus!
