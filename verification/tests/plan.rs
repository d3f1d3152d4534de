use pistol::scan::plan::{faster, host_rtt, plan, Job};
use pistol::{Host, Ipv4Addr, Target};

#[test]
fn a_scan_has_one_job_for_each_port_of_each_host() {
    let a = Ipv4Addr::new(93, 184, 216, 34);
    let b = Ipv4Addr::new(8, 8, 8, 8);
    let c = Ipv4Addr::new(1, 1, 1, 1);
    let target = Target::new(vec![
        Host::new(a, Some(vec![22, 80]), &[]).unwrap(),
        Host::new(b, None, &[]).unwrap(),
        Host::new(c, Some(vec![53, 53, 1]), &[]).unwrap(),
    ]);
    assert_eq!(
        plan(&target),
        vec![
            Job { addr: a, port: 22 },
            Job { addr: a, port: 80 },
            Job { addr: c, port: 53 },
            Job { addr: c, port: 53 },
            Job { addr: c, port: 1 },
        ]
    );
    assert!(plan(&Target::new(vec![])).is_empty());
    assert!(plan(&Target::new6(vec![])).is_empty());
}

#[test]
fn a_host_is_credited_with_its_fastest_answer() {
    assert_eq!(host_rtt(&[]), None);
    assert_eq!(host_rtt(&[None, None]), None);
    assert_eq!(host_rtt(&[Some(7)]), Some(7));
    assert_eq!(host_rtt(&[None, Some(9), None, Some(3), Some(5)]), Some(3));
    assert_eq!(host_rtt(&[Some(0), Some(u64::MAX)]), Some(0));
    assert_eq!(faster(None, None), None);
    assert_eq!(faster(Some(4), None), Some(4));
    assert_eq!(faster(None, Some(4)), Some(4));
    assert_eq!(faster(Some(4), Some(4)), Some(4));
    assert_eq!(faster(Some(5), Some(4)), Some(4));
    assert_eq!(faster(Some(3), Some(4)), Some(3));
}
