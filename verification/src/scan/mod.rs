//! Port and protocol scans: the probes of each technique and the verdicts
//! that their responses give.

pub mod arp;
pub mod plan;
pub mod tcp;
pub mod udp;
