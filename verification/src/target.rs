//! Targets: the hosts to probe, each with its ports, given one by one or
//! as a subnet.

use crate::addr::{
    dotted_quad, ipv6_text, push_ipv6, push_quad, quad_text, read_dotted_quad, IpAddr,
    Ipv4Addr, Ipv6Addr,
};
use crate::errors::{IllegalTarget, TargetError};
use crate::text::{
    append, chars_of, decimal, parse_decimal, parse_number, push_decimal, split, split_on,
    string_of, views,
};
use crate::utils::{find_source_ipv4, find_source_ipv6, source4, source6, Interface};
use subnetwork::Ipv4Pool;
use vstd::arithmetic::power2::pow2;
use vstd::prelude::*;

verus! {

/// An IPv4 host to probe, and the ports to probe on it.
#[derive(Debug, Clone)]
pub struct Host {
    pub addr: Ipv4Addr,
    pub ports: Vec<u16>,
}

/// An IPv6 host to probe, and the ports to probe on it.
#[derive(Debug, Clone)]
pub struct Host6 {
    pub addr: Ipv6Addr,
    pub ports: Vec<u16>,
}

/// The ports given, or none.
pub open spec fn ports_or_none(ports: Option<Vec<u16>>) -> Seq<u16> {
    match ports {
        Some(p) => p@,
        None => Seq::empty(),
    }
}

/// Whether an IPv4 address is a legal target: global, or on a route from
/// one of the local interfaces.
pub open spec fn legal4(addr: Ipv4Addr, interfaces: Seq<Interface>) -> bool {
    addr.is_global() || source4(interfaces, addr) is Some
}

/// Whether an IPv6 address is a legal target: global, or on a route from
/// one of the local interfaces.
pub open spec fn legal6(addr: Ipv6Addr, interfaces: Seq<Interface>) -> bool {
    addr.is_global() || source6(interfaces, addr) is Some
}

impl Host {
    /// A host with the ports given, or without ports. The address must be
    /// global, or one that a local interface has a source for; otherwise
    /// it is refused as an illegal target.
    pub fn new(addr: Ipv4Addr, ports: Option<Vec<u16>>, interfaces: &[Interface]) -> (r: Result<
        Host,
        IllegalTarget,
    >)
        ensures
            r is Ok <==> legal4(addr, interfaces@),
            r matches Ok(host) ==> host.addr == addr && host.ports@ == ports_or_none(ports),
            r matches Err(e) ==> e.addr == IpAddr::V4(addr),
    {
        if !addr.is_global_x() {
            match find_source_ipv4(interfaces, addr) {
                Some(_) => (),
                None => return Err(IllegalTarget::new(IpAddr::V4(addr))),
            }
        }
        let h = match ports {
            Some(p) => Host { addr, ports: p },
            None => Host { addr, ports: Vec::new() },
        };
        Ok(h)
    }
}

impl Host6 {
    /// A host with the ports given, or without ports. The address must be
    /// global, or one that a local interface has a source for; otherwise
    /// it is refused as an illegal target.
    pub fn new(addr: Ipv6Addr, ports: Option<Vec<u16>>, interfaces: &[Interface]) -> (r: Result<
        Host6,
        IllegalTarget,
    >)
        ensures
            r is Ok <==> legal6(addr, interfaces@),
            r matches Ok(host) ==> host.addr == addr && host.ports@ == ports_or_none(ports),
            r matches Err(e) ==> e.addr == IpAddr::V6(addr),
    {
        if !addr.is_global_x() {
            match find_source_ipv6(interfaces, addr) {
                Some(_) => (),
                None => return Err(IllegalTarget::new(IpAddr::V6(addr))),
            }
        }
        let h = match ports {
            Some(p) => Host6 { addr, ports: p },
            None => Host6 { addr, ports: Vec::new() },
        };
        Ok(h)
    }
}

/// The family of the hosts of a target.
#[derive(Debug, Clone, Copy, PartialEq, Eq, Structural)]
pub enum TargetType {
    Ipv4,
    Ipv6,
}

/// The hosts to probe: of one family, the list of the other left empty.
#[derive(Debug, Clone)]
pub struct Target {
    pub target_type: TargetType,
    pub hosts: Vec<Host>,
    pub hosts6: Vec<Host6>,
}

/// A subnet: an address in it, and the length of the network prefix.
#[derive(Debug, Clone, Copy, PartialEq, Eq, Structural)]
pub struct Subnet {
    pub addr: Ipv4Addr,
    pub prefix: u8,
}

/// The subnet that a text writes: a dotted quad, a slash, and a prefix
/// length from 1 to 32 in decimal.
pub open spec fn subnet_of(text: Seq<char>) -> Option<Subnet> {
    let p = split_on(text, '/');
    if p.len() == 2 && dotted_quad(p[0]) is Some && parse_decimal(p[1], 255) is Some && 1
        <= parse_decimal(p[1], 255)->Some_0 <= 32 {
        Some(Subnet { addr: dotted_quad(p[0])->Some_0, prefix: parse_decimal(p[1], 255)->Some_0 as u8 })
    } else {
        None
    }
}

/// Computes `subnet_of`.
pub fn read_subnet(text: &[char]) -> (subnet: Option<Subnet>)
    ensures
        subnet == subnet_of(text@),
{
    let p = split(text, '/');
    if p.len() != 2 {
        return None;
    }
    assert(views(p@)[0] == p[0]@ && views(p@)[1] == p[1]@);
    match (read_dotted_quad(p[0].as_slice()), parse_number(p[1].as_slice(), 255)) {
        (Some(addr), Some(prefix)) => {
            if 1 <= prefix && prefix <= 32 {
                Some(Subnet { addr, prefix: prefix as u8 })
            } else {
                None
            }
        },
        _ => None,
    }
}

/// The number of addresses of a subnet.
pub open spec fn subnet_size(subnet: Subnet) -> int {
    pow2((32 - subnet.prefix) as nat) as int
}

/// The first address of a subnet: the network's own.
pub open spec fn subnet_network(subnet: Subnet) -> int {
    subnet.addr.bits as int / subnet_size(subnet) * subnet_size(subnet)
}

/// The addresses of a subnet behind the network's own, in rising order,
/// up to the last, which is the broadcast address.
pub open spec fn subnet_addresses(subnet: Subnet) -> Seq<u32> {
    Seq::new(
        (subnet_size(subnet) - 1) as nat,
        |i: int| (subnet_network(subnet) + 1 + i) as u32,
    )
}

/// The host addresses of a subnet: all but the network's own and the
/// broadcast address, in rising order.
pub open spec fn subnet_hosts(subnet: Subnet) -> Seq<u32> {
    Seq::new(
        if subnet_size(subnet) >= 2 {
            (subnet_size(subnet) - 2) as nat
        } else {
            0
        },
        |i: int| (subnet_network(subnet) + 1 + i) as u32,
    )
}

/// The hosts of a subnet are the addresses strictly between the network's
/// own and the broadcast address, in rising order; the network's own is
/// the multiple of the subnet's size at or below the address given. A
/// subnet with a prefix of 29 bits has six hosts.
pub proof fn lemma_subnet_hosts(subnet: Subnet)
    requires
        1 <= subnet.prefix <= 32,
    ensures
        ({
            let size = subnet_size(subnet);
            let network = subnet_network(subnet);
            let hosts = subnet_hosts(subnet);
            &&& size >= 1
            &&& 0 <= network <= subnet.addr.bits < network + size <= 0x1_0000_0000
            &&& network % size == 0
            &&& hosts.len() == if size >= 2 {
                size - 2
            } else {
                0
            }
            &&& forall|i: int|
                0 <= i < hosts.len() ==> (#[trigger] hosts[i]) == network + 1 + i && network
                    < hosts[i] < network + size - 1
            &&& subnet.prefix == 29 ==> size == 8 && hosts.len() == 6
        }),
{
    let k = (32 - subnet.prefix) as nat;
    let size = subnet_size(subnet);
    let other = pow2(subnet.prefix as nat) as int;
    let bits = subnet.addr.bits as int;
    let q = bits / size;
    vstd::arithmetic::power2::lemma_pow2_pos(k);
    vstd::arithmetic::power2::lemma_pow2_pos(subnet.prefix as nat);
    vstd::arithmetic::power2::lemma_pow2_adds(k, subnet.prefix as nat);
    vstd::arithmetic::power2::lemma2_to64();
    assert(size * other == 0x1_0000_0000);
    vstd::arithmetic::div_mod::lemma_fundamental_div_mod(bits, size);
    assert(bits == size * q + bits % size);
    assert(0 <= bits % size < size);
    assert(q * size == size * q) by (nonlinear_arith);
    assert(0 <= q) by (nonlinear_arith)
        requires
            size > 0,
            bits >= 0,
            q == bits / size,
    ;
    assert(q < other) by (nonlinear_arith)
        requires
            size > 0,
            size * q <= bits,
            bits < size * other,
    ;
    assert((q + 1) * size <= other * size) by (nonlinear_arith)
        requires
            q + 1 <= other,
            size > 0,
    ;
    assert((q + 1) * size == q * size + size) by (nonlinear_arith);
    assert(other * size == size * other) by (nonlinear_arith);
    assert((q * size) % size == 0) by (nonlinear_arith)
        requires
            size > 0,
    ;
    assert(0 <= q * size) by (nonlinear_arith)
        requires
            0 <= q,
            size > 0,
    ;
}

/// A pool of addresses of the `subnetwork` crate: an iterator over the
/// addresses of a subnet.
#[verifier::external_type_specification]
#[verifier::external_body]
pub struct ExIpv4Pool(Ipv4Pool);

/// The addresses that a pool has yet to hand out, in order.
pub uninterp spec fn pool_remaining(pool: Ipv4Pool) -> Seq<u32>;

/// `Ipv4Pool::from`: the pool of the subnet that the text writes. It hands
/// out every address of the subnet behind the network's own, the
/// broadcast address last.
#[verifier::external_body]
pub(crate) fn open_pool(subnet: &str) -> (pool: Ipv4Pool)
    requires
        subnet_of(subnet@) is Some,
    ensures
        pool_remaining(pool) == subnet_addresses(subnet_of(subnet@)->Some_0),
{
    Ipv4Pool::from(subnet).unwrap()
}

/// `Ipv4Pool::next`: hands out the next address of the pool, if one is
/// left.
#[verifier::external_body]
pub(crate) fn pool_next(pool: &mut Ipv4Pool) -> (next: Option<u32>)
    ensures
        match next {
            Some(addr) => pool_remaining(*old(pool)).len() > 0 && addr == pool_remaining(
                *old(pool),
            )[0] && pool_remaining(*final(pool)) == pool_remaining(*old(pool)).drop_first(),
            None => pool_remaining(*old(pool)).len() == 0 && pool_remaining(*final(pool))
                == pool_remaining(*old(pool)),
        },
{
    match pool.next() {
        Some(addr) => Some(addr.into()),
        None => None,
    }
}

/// The addresses of the hosts of a target.
pub open spec fn host_addrs(hosts: Seq<Host>) -> Seq<u32> {
    hosts.map_values(|h: Host| h.addr.bits)
}

/// The position of the first address of `addrs` that is not a legal
/// target, or the length of `addrs` where all are.
pub open spec fn first_illegal(addrs: Seq<u32>, interfaces: Seq<Interface>) -> int
    decreases addrs.len(),
{
    if addrs.len() == 0 {
        0
    } else if !legal4(Ipv4Addr { bits: addrs[0] }, interfaces) {
        0
    } else {
        1 + first_illegal(addrs.drop_first(), interfaces)
    }
}

/// `first_illegal` is the least position of an illegal address.
pub proof fn lemma_first_illegal(addrs: Seq<u32>, interfaces: Seq<Interface>)
    ensures
        0 <= first_illegal(addrs, interfaces) <= addrs.len(),
        forall|j: int|
            0 <= j < first_illegal(addrs, interfaces) ==> legal4(
                Ipv4Addr { bits: #[trigger] addrs[j] },
                interfaces,
            ),
        first_illegal(addrs, interfaces) < addrs.len() ==> !legal4(
            Ipv4Addr { bits: addrs[first_illegal(addrs, interfaces)] },
            interfaces,
        ),
    decreases addrs.len(),
{
    if addrs.len() > 0 && legal4(Ipv4Addr { bits: addrs[0] }, interfaces) {
        lemma_first_illegal(addrs.drop_first(), interfaces);
        assert forall|j: int| 0 <= j < first_illegal(addrs, interfaces) implies legal4(
            Ipv4Addr { bits: #[trigger] addrs[j] },
            interfaces,
        ) by {
            if j > 0 {
                assert(addrs[j] == addrs.drop_first()[j - 1]);
            }
        }
    }
}

impl Target {
    /// The hosts are of the family that the type names: the list of the
    /// other family is empty.
    pub open spec fn wf(self) -> bool {
        match self.target_type {
            TargetType::Ipv4 => self.hosts6@.len() == 0,
            TargetType::Ipv6 => self.hosts@.len() == 0,
        }
    }

    /// The target made of the IPv4 hosts given.
    pub fn new(hosts: Vec<Host>) -> (target: Target)
        ensures
            target.wf(),
            target.target_type == TargetType::Ipv4,
            target.hosts == hosts,
            target.hosts6@.len() == 0,
    {
        Target { target_type: TargetType::Ipv4, hosts, hosts6: Vec::new() }
    }

    /// The target made of the IPv6 hosts given.
    pub fn new6(hosts6: Vec<Host6>) -> (target: Target)
        ensures
            target.wf(),
            target.target_type == TargetType::Ipv6,
            target.hosts6 == hosts6,
            target.hosts@.len() == 0,
    {
        Target { target_type: TargetType::Ipv6, hosts: Vec::new(), hosts6 }
    }

    /// The target made of the hosts of a subnet, each with the same ports.
    ///
    /// The subnet is written as a dotted quad, a slash and a prefix length
    /// from 1 to 32. Its hosts are all its addresses but the network's own
    /// and the broadcast address, in rising order. The first host that is
    /// not a legal target fails the whole.
    pub fn from_subnet(subnet: &str, ports: Option<Vec<u16>>, interfaces: &[Interface]) -> (r:
        Result<Target, TargetError>)
        ensures
            match r {
                Ok(target) => {
                    &&& subnet_of(subnet@) is Some
                    &&& target.wf()
                    &&& target.target_type == TargetType::Ipv4
                    &&& target.hosts6@.len() == 0
                    &&& host_addrs(target.hosts@) == subnet_hosts(subnet_of(subnet@)->Some_0)
                    &&& forall|i: int|
                        0 <= i < target.hosts@.len() ==> (#[trigger] target.hosts@[i]).ports@
                            == ports_or_none(ports) && legal4(target.hosts@[i].addr, interfaces@)
                },
                Err(TargetError::InvalidSubnet) => subnet_of(subnet@) is None,
                Err(TargetError::IllegalTarget(e)) => {
                    let hosts = subnet_hosts(subnet_of(subnet@)->Some_0);
                    let k = first_illegal(hosts, interfaces@);
                    &&& subnet_of(subnet@) is Some
                    &&& k < hosts.len()
                    &&& e.addr == IpAddr::V4(Ipv4Addr { bits: hosts[k] })
                },
            },
    {
        let text = chars_of(subnet);
        if read_subnet(text.as_slice()).is_none() {
            return Err(TargetError::InvalidSubnet);
        }
        let ghost all = subnet_hosts(subnet_of(subnet@)->Some_0);
        let ghost pooled = subnet_addresses(subnet_of(subnet@)->Some_0);
        proof {
            vstd::arithmetic::power2::lemma_pow2_pos((32 - subnet_of(subnet@)->Some_0.prefix) as nat);
            assert(all == pooled.take(all.len() as int));
        }
        let mut pool = open_pool(subnet);
        let mut hosts: Vec<Host> = Vec::new();
        let mut held: Option<u32> = pool_next(&mut pool);
        assert(all.skip(0) == all);
        assert(pooled.len() > 0 ==> pooled.drop_first() == pooled.skip(1));
        loop
            invariant
                subnet_of(subnet@) is Some,
                all == subnet_hosts(subnet_of(subnet@)->Some_0),
                all == pooled.take(all.len() as int),
                all.len() + 1 == pooled.len() || (all.len() == 0 && pooled.len() == 0),
                hosts@.len() <= all.len(),
                host_addrs(hosts@) == all.take(hosts@.len() as int),
                first_illegal(all, interfaces@) == hosts@.len() + first_illegal(
                    all.skip(hosts@.len() as int),
                    interfaces@,
                ),
                forall|i: int|
                    0 <= i < hosts@.len() ==> (#[trigger] hosts@[i]).ports@ == ports_or_none(ports)
                        && legal4(hosts@[i].addr, interfaces@),
                match held {
                    Some(addr) => hosts@.len() < pooled.len() && addr == pooled[hosts@.len() as int]
                        && pool_remaining(pool) == pooled.skip(hosts@.len() as int + 1),
                    None => pooled.len() == 0 && pool_remaining(pool).len() == 0,
                },
            decreases pool_remaining(pool).len(),
        {
            let ghost n = hosts@.len() as int;
            let next = pool_next(&mut pool);
            match (held, next) {
                (Some(addr), Some(_)) => {
                    let ghost rest = all.skip(n);
                    assert(pooled.skip(n + 1).drop_first() == pooled.skip(n + 2));
                    assert(n + 1 < pooled.len());
                    assert(rest.len() > 0 && rest[0] == addr);
                    let copy = match &ports {
                        Some(p) => Some(p.clone()),
                        None => None,
                    };
                    match Host::new(Ipv4Addr { bits: addr }, copy, interfaces) {
                        Ok(host) => {
                            assert(host_addrs(hosts@.push(host)) == host_addrs(hosts@).push(addr));
                            assert(all.take(n + 1) == all.take(n).push(addr));
                            assert(rest.drop_first() == all.skip(n + 1));
                            hosts.push(host);
                        },
                        Err(e) => {
                            return Err(TargetError::IllegalTarget(e));
                        },
                    }
                    held = next;
                },
                _ => {
                    assert(n == all.len());
                    assert(all.take(all.len() as int) == all);
                    return Ok(Target { target_type: TargetType::Ipv4, hosts, hosts6: Vec::new() });
                },
            }
        }
    }
}

/// The ports from the `from`-th on, each in decimal, a comma and a space
/// before each but the first of the list.
pub open spec fn ports_items(ports: Seq<u16>, upto: int) -> Seq<char>
    decreases upto,
{
    if upto <= 0 {
        Seq::empty()
    } else if upto == 1 {
        decimal(ports[0] as nat)
    } else {
        ports_items(ports, upto - 1) + seq![',', ' '] + decimal(ports[upto - 1] as nat)
    }
}

/// A list of ports as text: in square brackets, separated by a comma and
/// a space.
pub open spec fn ports_text(ports: Seq<u16>) -> Seq<char> {
    seq!['['] + ports_items(ports, ports.len() as int) + seq![']']
}

/// Appends a list of ports as text.
pub fn push_ports(out: &mut Vec<char>, ports: &Vec<u16>)
    ensures
        final(out)@ == old(out)@ + ports_text(ports@),
{
    out.push('[');
    let ghost head = out@;
    let mut i: usize = 0;
    while i < ports.len()
        invariant
            i <= ports.len(),
            out@ == head + ports_items(ports@, i as int),
        decreases ports.len() - i,
    {
        if i > 0 {
            out.push(',');
            out.push(' ');
        }
        push_decimal(out, ports[i] as u64);
        i += 1;
    }
    out.push(']');
}

/// The line of an IPv4 host: its address, then its ports.
pub open spec fn host_text(host: Host) -> Seq<char> {
    quad_text(host.addr) + seq![' '] + ports_text(host.ports@)
}

/// The line of an IPv6 host: its address, then its ports.
pub open spec fn host6_text(host: Host6) -> Seq<char> {
    ipv6_text(host.addr) + seq![' '] + ports_text(host.ports@)
}

impl Host {
    /// The host as a line of text.
    pub fn to_string(&self) -> (s: String)
        ensures
            s@ == host_text(*self),
    {
        let mut out: Vec<char> = Vec::new();
        push_quad(&mut out, self.addr);
        out.push(' ');
        push_ports(&mut out, &self.ports);
        string_of(out.as_slice())
    }
}

impl Host6 {
    /// The host as a line of text.
    pub fn to_string(&self) -> (s: String)
        ensures
            s@ == host6_text(*self),
    {
        let mut out: Vec<char> = Vec::new();
        push_ipv6(&mut out, self.addr);
        out.push(' ');
        push_ports(&mut out, &self.ports);
        string_of(out.as_slice())
    }
}

/// The lines of the first `upto` IPv4 hosts, each on a line of its own,
/// indented by six spaces.
pub open spec fn hosts_text(hosts: Seq<Host>, upto: int) -> Seq<char>
    decreases upto,
{
    if upto <= 0 {
        Seq::empty()
    } else {
        hosts_text(hosts, upto - 1) + "\n      "@ + host_text(hosts[upto - 1])
    }
}

/// The lines of the first `upto` IPv6 hosts, each on a line of its own,
/// indented by six spaces.
pub open spec fn hosts6_text(hosts: Seq<Host6>, upto: int) -> Seq<char>
    decreases upto,
{
    if upto <= 0 {
        Seq::empty()
    } else {
        hosts6_text(hosts, upto - 1) + "\n      "@ + host6_text(hosts[upto - 1])
    }
}

/// A target as text: its family, then its hosts of that family.
pub open spec fn target_text(target: Target) -> Seq<char> {
    match target.target_type {
        TargetType::Ipv4 => "Type: Ipv4"@ + hosts_text(target.hosts@, target.hosts@.len() as int),
        TargetType::Ipv6 => "Type: Ipv6"@ + hosts6_text(
            target.hosts6@,
            target.hosts6@.len() as int,
        ),
    }
}

impl Target {
    /// The target as text.
    pub fn to_string(&self) -> (s: String)
        ensures
            s@ == target_text(*self),
    {
        let indent = chars_of("\n      ");
        match self.target_type {
            TargetType::Ipv4 => {
                let mut out: Vec<char> = chars_of("Type: Ipv4");
                let mut i: usize = 0;
                while i < self.hosts.len()
                    invariant
                        i <= self.hosts.len(),
                        indent@ == "\n      "@,
                        out@ == "Type: Ipv4"@ + hosts_text(self.hosts@, i as int),
                    decreases self.hosts.len() - i,
                {
                    append(&mut out, indent.as_slice());
                    push_quad(&mut out, self.hosts[i].addr);
                    out.push(' ');
                    push_ports(&mut out, &self.hosts[i].ports);
                    i += 1;
                }
                string_of(out.as_slice())
            },
            TargetType::Ipv6 => {
                let mut out: Vec<char> = chars_of("Type: Ipv6");
                let mut i: usize = 0;
                while i < self.hosts6.len()
                    invariant
                        i <= self.hosts6.len(),
                        indent@ == "\n      "@,
                        out@ == "Type: Ipv6"@ + hosts6_text(self.hosts6@, i as int),
                    decreases self.hosts6.len() - i,
                {
                    append(&mut out, indent.as_slice());
                    push_ipv6(&mut out, self.hosts6[i].addr);
                    out.push(' ');
                    push_ports(&mut out, &self.hosts6[i].ports);
                    i += 1;
                }
                string_of(out.as_slice())
            },
        }
    }
}

} // verus!
