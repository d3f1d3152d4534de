//! What can go wrong before a probe is sent.

use crate::addr::IpAddr;
use vstd::prelude::*;

verus! {

/// A destination that is not global, and that no local interface routes
/// to.
#[derive(Debug, Clone, Copy, PartialEq, Eq, Structural)]
pub struct IllegalTarget {
    pub addr: IpAddr,
}

impl IllegalTarget {
    /// The error for the destination `addr`.
    pub fn new(addr: IpAddr) -> (e: IllegalTarget)
        ensures
            e.addr == addr,
    {
        IllegalTarget { addr }
    }
}

/// Why a target could not be made from a subnet.
#[derive(Debug, Clone, Copy, PartialEq, Eq, Structural)]
pub enum TargetError {
    /// The text is not an address, a slash and a prefix length from 1 to 32.
    InvalidSubnet,
    /// An address of the subnet is not a legal target.
    IllegalTarget(IllegalTarget),
}

/// Why a packet could not be built.
#[derive(Debug, Clone, Copy, PartialEq, Eq, Structural)]
pub enum PacketBuildError {
    /// The payload does not fit a packet, whose length is counted in 16 bits.
    PayloadTooLong,
}

} // verus!
