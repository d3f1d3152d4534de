//! Host discovery.

pub mod icmp;
pub mod icmpv6;

pub use crate::results::PingStatus;
