//! The jobs of a scan: one probe for each port of each host, and the
//! round-trip time that a host is credited with.

use crate::addr::Ipv4Addr;
use crate::target::{Host, Target};
use vstd::prelude::*;

verus! {

/// One probe to send: a port of a host.
#[derive(Debug, Clone, Copy, PartialEq, Eq, Structural)]
pub struct Job {
    pub addr: Ipv4Addr,
    pub port: u16,
}

/// The jobs of a host: one for each of its ports, in the order given.
pub open spec fn host_jobs(host: Host) -> Seq<Job> {
    host.ports@.map_values(|port: u16| Job { addr: host.addr, port })
}

/// The jobs of a list of hosts: those of each host, in the order given.
pub open spec fn hosts_jobs(hosts: Seq<Host>) -> Seq<Job>
    decreases hosts.len(),
{
    if hosts.len() == 0 {
        Seq::empty()
    } else {
        hosts_jobs(hosts.drop_last()) + host_jobs(hosts.last())
    }
}

/// Lays out the jobs of a scan of the IPv4 hosts of a target.
pub fn plan(target: &Target) -> (jobs: Vec<Job>)
    ensures
        jobs@ == hosts_jobs(target.hosts@),
{
    let mut jobs: Vec<Job> = Vec::new();
    let mut i: usize = 0;
    assert(target.hosts@.take(0).len() == 0);
    while i < target.hosts.len()
        invariant
            i <= target.hosts.len(),
            jobs@ == hosts_jobs(target.hosts@.take(i as int)),
        decreases target.hosts.len() - i,
    {
        let host = &target.hosts[i];
        let ghost before = jobs@;
        let mut j: usize = 0;
        while j < host.ports.len()
            invariant
                j <= host.ports.len(),
                jobs@ == before + host_jobs(*host).take(j as int),
            decreases host.ports.len() - j,
        {
            jobs.push(Job { addr: host.addr, port: host.ports[j] });
            assert(host_jobs(*host).take(j + 1) == host_jobs(*host).take(j as int).push(
                Job { addr: host.addr, port: host.ports@[j as int] },
            ));
            j += 1;
        }
        proof {
            assert(host_jobs(*host).take(host.ports.len() as int) == host_jobs(*host));
            let next = target.hosts@.take(i + 1);
            assert(next.drop_last() == target.hosts@.take(i as int));
            assert(next.last() == *host);
        }
        i += 1;
    }
    assert(target.hosts@.take(target.hosts.len() as int) == target.hosts@);
    jobs
}

/// The lesser of two round-trip times, where a probe without a response
/// has none.
pub open spec fn lesser(a: Option<u64>, b: Option<u64>) -> Option<u64> {
    match (a, b) {
        (Some(x), Some(y)) => if x <= y {
            Some(x)
        } else {
            Some(y)
        },
        (Some(x), None) => Some(x),
        (None, other) => other,
    }
}

/// The round-trip time of a host: the least of those of its probes that
/// drew a response, and none where no probe drew one.
pub open spec fn least_rtt(rtts: Seq<Option<u64>>) -> Option<u64>
    decreases rtts.len(),
{
    if rtts.len() == 0 {
        None
    } else {
        lesser(least_rtt(rtts.drop_last()), rtts.last())
    }
}

/// Computes `lesser`: the round-trip time of a host so far, with one
/// more probe counted in.
pub fn faster(best: Option<u64>, rtt: Option<u64>) -> (r: Option<u64>)
    ensures
        r == lesser(best, rtt),
{
    match (best, rtt) {
        (Some(x), Some(y)) => if x <= y {
            Some(x)
        } else {
            Some(y)
        },
        (Some(x), None) => Some(x),
        (None, other) => other,
    }
}

/// Computes `least_rtt`.
pub fn host_rtt(rtts: &[Option<u64>]) -> (r: Option<u64>)
    ensures
        r == least_rtt(rtts@),
{
    let mut best: Option<u64> = None;
    let mut i: usize = 0;
    assert(rtts@.take(0).len() == 0);
    while i < rtts.len()
        invariant
            i <= rtts.len(),
            best == least_rtt(rtts@.take(i as int)),
        decreases rtts.len() - i,
    {
        proof {
            let next = rtts@.take(i + 1);
            assert(next.drop_last() == rtts@.take(i as int));
            assert(next.last() == rtts@[i as int]);
        }
        best = faster(best, rtts[i]);
        i += 1;
    }
    assert(rtts@.take(rtts.len() as int) == rtts@);
    best
}

/// The round-trip time of a host is that of one of its answered probes,
/// and no answered probe was faster; it is none exactly when no probe was
/// answered.
pub proof fn lemma_least_rtt(rtts: Seq<Option<u64>>)
    ensures
        least_rtt(rtts) is None <==> forall|i: int| 0 <= i < rtts.len() ==> rtts[i] is None,
        least_rtt(rtts) is Some ==> rtts.contains(least_rtt(rtts)),
        forall|i: int|
            0 <= i < rtts.len() && rtts[i] is Some ==> least_rtt(rtts) is Some && least_rtt(
                rtts,
            )->Some_0 <= (#[trigger] rtts[i])->Some_0,
    decreases rtts.len(),
{
    if rtts.len() > 0 {
        let before = rtts.drop_last();
        lemma_least_rtt(before);
        assert(forall|i: int| 0 <= i < before.len() ==> before[i] == rtts[i]);
        if least_rtt(rtts) is Some {
            if least_rtt(rtts) == rtts.last() {
                assert(rtts[rtts.len() - 1] == least_rtt(rtts));
            } else {
                assert(before.contains(least_rtt(rtts)));
                let k = choose|k: int| 0 <= k < before.len() && before[k] == least_rtt(rtts);
                assert(rtts[k] == least_rtt(rtts));
            }
        }
    }
}

} // verus!
