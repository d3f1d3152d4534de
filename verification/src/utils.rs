//! The choice of a local source address toward a destination.

use crate::addr::{Ipv4Addr, Ipv6Addr};
use vstd::prelude::*;

verus! {

/// An IPv4 address assigned to an interface, with the length of its
/// network prefix.
#[derive(Debug, Clone, Copy, PartialEq, Eq, Structural)]
pub struct Ipv4Network {
    pub addr: Ipv4Addr,
    pub prefix: u8,
}

/// An IPv6 address assigned to an interface, with the length of its
/// network prefix.
#[derive(Debug, Clone, Copy, PartialEq, Eq, Structural)]
pub struct Ipv6Network {
    pub addr: Ipv6Addr,
    pub prefix: u8,
}

/// A local network interface, as far as the choice of a source goes.
#[derive(Debug, Clone)]
pub struct Interface {
    pub name: String,
    pub up: bool,
    pub loopback: bool,
    pub ipv4: Vec<Ipv4Network>,
    pub ipv6: Vec<Ipv6Network>,
}

impl Interface {
    /// An interface can carry probes when it is up and not the loopback.
    pub open spec fn usable(self) -> bool {
        self.up && !self.loopback
    }
}

impl Ipv4Network {
    /// Whether `dst` lies in the network: it agrees with the address in
    /// the first `prefix` bits.
    pub open spec fn contains(self, dst: Ipv4Addr) -> bool {
        self.prefix <= 32 && (self.prefix == 0 || self.addr.bits >> (32 - self.prefix) as u32
            == dst.bits >> (32 - self.prefix) as u32)
    }

    /// Whether the address can be the source toward `dst`: on the same
    /// network when `on_link`, and global otherwise.
    pub open spec fn serves(self, dst: Ipv4Addr, on_link: bool) -> bool {
        if on_link {
            self.contains(dst)
        } else {
            self.addr.is_global()
        }
    }

    /// Decides `serves`.
    pub fn can_serve(&self, dst: Ipv4Addr, on_link: bool) -> (r: bool)
        ensures
            r == self.serves(dst, on_link),
    {
        if on_link {
            if self.prefix > 32 {
                false
            } else if self.prefix == 0 {
                true
            } else {
                let shift: u32 = (32 - self.prefix) as u32;
                self.addr.bits >> shift == dst.bits >> shift
            }
        } else {
            self.addr.is_global_x()
        }
    }
}

impl Ipv6Network {
    /// Whether `dst` lies in the network: it agrees with the address in
    /// the first `prefix` bits.
    pub open spec fn contains(self, dst: Ipv6Addr) -> bool {
        self.prefix <= 128 && (self.prefix == 0 || self.addr.bits >> (128 - self.prefix) as u128
            == dst.bits >> (128 - self.prefix) as u128)
    }

    /// Whether the address can be the source toward `dst`: on the same
    /// network when `on_link`, and global otherwise.
    pub open spec fn serves(self, dst: Ipv6Addr, on_link: bool) -> bool {
        if on_link {
            self.contains(dst)
        } else {
            self.addr.is_global()
        }
    }

    /// Decides `serves`.
    pub fn can_serve(&self, dst: Ipv6Addr, on_link: bool) -> (r: bool)
        ensures
            r == self.serves(dst, on_link),
    {
        if on_link {
            if self.prefix > 128 {
                false
            } else if self.prefix == 0 {
                true
            } else {
                let shift: u128 = (128 - self.prefix) as u128;
                self.addr.bits >> shift == dst.bits >> shift
            }
        } else {
            self.addr.is_global_x()
        }
    }
}

/// The first of `nets` that serves `dst`.
pub open spec fn first_serving4(nets: Seq<Ipv4Network>, dst: Ipv4Addr, on_link: bool) -> Option<
    Ipv4Addr,
>
    decreases nets.len(),
{
    if nets.len() == 0 {
        None
    } else if nets[0].serves(dst, on_link) {
        Some(nets[0].addr)
    } else {
        first_serving4(nets.drop_first(), dst, on_link)
    }
}

/// The first usable interface, from `from` on, that has an address
/// serving `dst`, with the first such address.
pub open spec fn first_source4(
    interfaces: Seq<Interface>,
    from: int,
    dst: Ipv4Addr,
    on_link: bool,
) -> Option<(int, Ipv4Addr)>
    decreases interfaces.len() - from,
{
    if from < 0 || from >= interfaces.len() {
        None
    } else if interfaces[from].usable() && first_serving4(interfaces[from].ipv4@, dst, on_link)
        is Some {
        Some((from, first_serving4(interfaces[from].ipv4@, dst, on_link)->Some_0))
    } else {
        first_source4(interfaces, from + 1, dst, on_link)
    }
}

/// The source toward `dst`: the first address, of the first usable
/// interface that has one, on the same network as `dst`; where no
/// interface has one, the first global address of the first usable
/// interface that has one; and none where there is none either.
pub open spec fn source4(interfaces: Seq<Interface>, dst: Ipv4Addr) -> Option<(int, Ipv4Addr)> {
    match first_source4(interfaces, 0, dst, true) {
        Some(found) => Some(found),
        None => first_source4(interfaces, 0, dst, false),
    }
}

/// The first of `nets` that serves `dst`.
pub open spec fn first_serving6(nets: Seq<Ipv6Network>, dst: Ipv6Addr, on_link: bool) -> Option<
    Ipv6Addr,
>
    decreases nets.len(),
{
    if nets.len() == 0 {
        None
    } else if nets[0].serves(dst, on_link) {
        Some(nets[0].addr)
    } else {
        first_serving6(nets.drop_first(), dst, on_link)
    }
}

/// The first usable interface, from `from` on, that has an address
/// serving `dst`, with the first such address.
pub open spec fn first_source6(
    interfaces: Seq<Interface>,
    from: int,
    dst: Ipv6Addr,
    on_link: bool,
) -> Option<(int, Ipv6Addr)>
    decreases interfaces.len() - from,
{
    if from < 0 || from >= interfaces.len() {
        None
    } else if interfaces[from].usable() && first_serving6(interfaces[from].ipv6@, dst, on_link)
        is Some {
        Some((from, first_serving6(interfaces[from].ipv6@, dst, on_link)->Some_0))
    } else {
        first_source6(interfaces, from + 1, dst, on_link)
    }
}

/// The source toward `dst`, as `source4`.
pub open spec fn source6(interfaces: Seq<Interface>, dst: Ipv6Addr) -> Option<(int, Ipv6Addr)> {
    match first_source6(interfaces, 0, dst, true) {
        Some(found) => Some(found),
        None => first_source6(interfaces, 0, dst, false),
    }
}

/// The view of a choice of source.
pub open spec fn choice_view<A>(choice: Option<(usize, A)>) -> Option<(int, A)> {
    match choice {
        Some((index, addr)) => Some((index as int, addr)),
        None => None,
    }
}

/// Computes `first_serving4`.
pub fn find_serving4(nets: &Vec<Ipv4Network>, dst: Ipv4Addr, on_link: bool) -> (r: Option<Ipv4Addr>)
    ensures
        r == first_serving4(nets@, dst, on_link),
{
    let mut k: usize = 0;
    assert(nets@.skip(0) == nets@);
    while k < nets.len()
        invariant
            k <= nets.len(),
            first_serving4(nets@, dst, on_link) == first_serving4(nets@.skip(k as int), dst, on_link),
        decreases nets.len() - k,
    {
        assert(nets@.skip(k as int)[0] == nets@[k as int]);
        if nets[k].can_serve(dst, on_link) {
            return Some(nets[k].addr);
        }
        assert(nets@.skip(k as int).drop_first() == nets@.skip(k + 1));
        k += 1;
    }
    None
}

/// Computes `first_serving6`.
pub fn find_serving6(nets: &Vec<Ipv6Network>, dst: Ipv6Addr, on_link: bool) -> (r: Option<Ipv6Addr>)
    ensures
        r == first_serving6(nets@, dst, on_link),
{
    let mut k: usize = 0;
    assert(nets@.skip(0) == nets@);
    while k < nets.len()
        invariant
            k <= nets.len(),
            first_serving6(nets@, dst, on_link) == first_serving6(nets@.skip(k as int), dst, on_link),
        decreases nets.len() - k,
    {
        assert(nets@.skip(k as int)[0] == nets@[k as int]);
        if nets[k].can_serve(dst, on_link) {
            return Some(nets[k].addr);
        }
        assert(nets@.skip(k as int).drop_first() == nets@.skip(k + 1));
        k += 1;
    }
    None
}

/// Computes `first_source4` from the first interface on.
pub fn scan_sources4(interfaces: &[Interface], dst: Ipv4Addr, on_link: bool) -> (r: Option<
    (usize, Ipv4Addr),
>)
    ensures
        choice_view(r) == first_source4(interfaces@, 0, dst, on_link),
{
    let mut i: usize = 0;
    while i < interfaces.len()
        invariant
            i <= interfaces.len(),
            first_source4(interfaces@, 0, dst, on_link) == first_source4(
                interfaces@,
                i as int,
                dst,
                on_link,
            ),
        decreases interfaces.len() - i,
    {
        let interface = &interfaces[i];
        if interface.up && !interface.loopback {
            match find_serving4(&interface.ipv4, dst, on_link) {
                Some(addr) => {
                    return Some((i, addr));
                },
                None => {},
            }
        }
        i += 1;
    }
    None
}

/// Computes `first_source6` from the first interface on.
pub fn scan_sources6(interfaces: &[Interface], dst: Ipv6Addr, on_link: bool) -> (r: Option<
    (usize, Ipv6Addr),
>)
    ensures
        choice_view(r) == first_source6(interfaces@, 0, dst, on_link),
{
    let mut i: usize = 0;
    while i < interfaces.len()
        invariant
            i <= interfaces.len(),
            first_source6(interfaces@, 0, dst, on_link) == first_source6(
                interfaces@,
                i as int,
                dst,
                on_link,
            ),
        decreases interfaces.len() - i,
    {
        let interface = &interfaces[i];
        if interface.up && !interface.loopback {
            match find_serving6(&interface.ipv6, dst, on_link) {
                Some(addr) => {
                    return Some((i, addr));
                },
                None => {},
            }
        }
        i += 1;
    }
    None
}

/// Chooses the interface and the source address toward an IPv4
/// destination: an interface that is up and not the loopback, with an
/// address on the destination's network where any has one, and with a
/// global address otherwise. The result names the interface by its
/// position in `interfaces`.
pub fn find_source_ipv4(interfaces: &[Interface], dst_ipv4: Ipv4Addr) -> (r: Option<
    (usize, Ipv4Addr),
>)
    ensures
        choice_view(r) == source4(interfaces@, dst_ipv4),
{
    match scan_sources4(interfaces, dst_ipv4, true) {
        Some(found) => Some(found),
        None => scan_sources4(interfaces, dst_ipv4, false),
    }
}

/// Chooses the interface and the source address toward an IPv6
/// destination, as `find_source_ipv4` does.
pub fn find_source_ipv6(interfaces: &[Interface], dst_ipv6: Ipv6Addr) -> (r: Option<
    (usize, Ipv6Addr),
>)
    ensures
        choice_view(r) == source6(interfaces@, dst_ipv6),
{
    match scan_sources6(interfaces, dst_ipv6, true) {
        Some(found) => Some(found),
        None => scan_sources6(interfaces, dst_ipv6, false),
    }
}

/// The source that is chosen belongs to a usable interface, and is on the
/// destination's network or global.
pub proof fn lemma_source_is_usable(interfaces: Seq<Interface>, dst: Ipv4Addr)
    requires
        source4(interfaces, dst) is Some,
    ensures
        ({
            let (index, addr) = source4(interfaces, dst)->Some_0;
            &&& 0 <= index < interfaces.len()
            &&& interfaces[index].usable()
            &&& exists|k: int|
                0 <= k < interfaces[index].ipv4@.len() && (#[trigger] interfaces[index].ipv4@[k]).addr
                    == addr && (interfaces[index].ipv4@[k].contains(dst) || addr.is_global())
        }),
{
    if first_source4(interfaces, 0, dst, true) is Some {
        lemma_first_source4(interfaces, 0, dst, true);
    } else {
        lemma_first_source4(interfaces, 0, dst, false);
    }
}

/// What `first_source4` finds is an address of a usable interface that
/// serves the destination.
pub proof fn lemma_first_source4(interfaces: Seq<Interface>, from: int, dst: Ipv4Addr, on_link: bool)
    requires
        0 <= from,
        first_source4(interfaces, from, dst, on_link) is Some,
    ensures
        ({
            let (index, addr) = first_source4(interfaces, from, dst, on_link)->Some_0;
            &&& from <= index < interfaces.len()
            &&& interfaces[index].usable()
            &&& exists|k: int|
                0 <= k < interfaces[index].ipv4@.len() && (#[trigger] interfaces[index].ipv4@[k]).addr
                    == addr && interfaces[index].ipv4@[k].serves(dst, on_link)
        }),
    decreases interfaces.len() - from,
{
    if from < interfaces.len() {
        if interfaces[from].usable() && first_serving4(interfaces[from].ipv4@, dst, on_link)
            is Some {
            lemma_first_serving4(interfaces[from].ipv4@, dst, on_link);
        } else {
            lemma_first_source4(interfaces, from + 1, dst, on_link);
        }
    }
}

/// What `first_serving4` finds is one of the addresses, and serves the
/// destination.
pub proof fn lemma_first_serving4(nets: Seq<Ipv4Network>, dst: Ipv4Addr, on_link: bool)
    requires
        first_serving4(nets, dst, on_link) is Some,
    ensures
        exists|k: int|
            0 <= k < nets.len() && (#[trigger] nets[k]).addr == first_serving4(
                nets,
                dst,
                on_link,
            )->Some_0 && nets[k].serves(dst, on_link),
    decreases nets.len(),
{
    if nets[0].serves(dst, on_link) {
        assert(nets[0].addr == first_serving4(nets, dst, on_link)->Some_0);
    } else {
        lemma_first_serving4(nets.drop_first(), dst, on_link);
        let k = choose|k: int|
            0 <= k < nets.drop_first().len() && (#[trigger] nets.drop_first()[k]).addr
                == first_serving4(nets.drop_first(), dst, on_link)->Some_0 && nets.drop_first()[k].serves(
                dst,
                on_link,
            );
        assert(nets[k + 1] == nets.drop_first()[k]);
    }
}

} // verus!
