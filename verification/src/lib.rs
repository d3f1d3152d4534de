//! The probe engine of a network reconnaissance toolkit, without the
//! sockets: everything that is decided or computed between a target given
//! and a verdict returned.
//!
//! - `addr`, `utils`, `target`: addresses, the choice of a local source,
//!   and the hosts to probe.
//! - `checksum`, `packet`: wire-exact headers with checksums that a
//!   receiver finds intact.
//! - `layers`, `transport`: the matchers that bind a response to its
//!   probe, and the course of one probe on the wire.
//! - `ping`, `scan`: the probes of each technique and the verdicts that
//!   their responses give.
//! - `service`: the service-probe database, from its text to the rule
//!   that identifies a response.
//! - `results`: what a scan found, and how it is written.
//!
//! Sending and receiving is left to the caller, who hands in what came
//! back from the network, the local interfaces and the files.

pub mod addr;
pub mod checksum;
pub mod errors;
pub mod layers;
pub mod packet;
pub mod ping;
pub mod results;
pub mod scan;
pub mod service;
pub mod target;
pub mod text;
pub mod transport;
pub mod utils;

pub use addr::{IpAddr, Ipv4Addr, Ipv6Addr};
pub use errors::{IllegalTarget, PacketBuildError, TargetError};
pub use layers::{
    Layer2Match, Layer3Match, Layer4MatchIcmp, Layer4MatchTcpUdp, LayersMatch, MacAddr,
};
pub use results::{
    ArpAliveHosts, ArpScanResults, IdleScanResults, IpScanResults, PingResults, PingStatus,
    TargetScanStatus, TcpUdpScanResults,
};
pub use service::dbparser::{
    nsp_exclued_parser, nsp_parser, ports_parser, ExcludePorts, Match, ParseError,
    ParseErrorKind, Probe, ProbesProtocol, ServiceProbes,
};
pub use service::identify::identify_in;
pub use target::{Host, Host6, Target, TargetType};
pub use utils::{find_source_ipv4, find_source_ipv6, Interface, Ipv4Network, Ipv6Network};

use vstd::prelude::*;

verus! {

/// How often a probe is handed to the socket before its transmission
/// counts as failed.
pub const DEFAULT_MAXLOOP: usize = 512;

/// How many seconds a probe waits for its response.
pub const DEFAULT_TIMEOUT: u64 = 3;

} // verus!
