use pistol::packet::{build_ipv4_header, build_tcp_header, Ipv4Fields, TcpFields, TCP_ACK, TCP_SYN};
use pistol::scan::tcp::{
    connect_scan_status, build_probe_matchers, tcp_scan_status, ConnectOutcome, Flow, TcpTechnique,
};
use pistol::transport::{round_trip, Action, Event, Exchange, ProbeState};
use pistol::{
    IpAddr, IpScanResults, Ipv4Addr, TargetScanStatus, TcpUdpScanResults, DEFAULT_MAXLOOP,
};

const SECOND: u64 = 1_000_000_000;
const TIMEOUT: u64 = 3 * SECOND;

fn flow() -> Flow {
    Flow {
        source: Ipv4Addr::new(192, 168, 5, 133),
        destination: Ipv4Addr::new(93, 184, 216, 34),
        source_port: 47890,
        destination_port: 80,
    }
}

fn frame(source: Ipv4Addr, destination: Ipv4Addr, sport: u16, dport: u16, flags: u8) -> Vec<u8> {
    let mut frame = vec![0u8; 12];
    frame.extend_from_slice(&[0x08, 0x00]);
    frame.extend(build_ipv4_header(Ipv4Fields {
        source,
        destination,
        protocol: 6,
        total_length: 40,
        identification: 1,
        ttl: 64,
    }));
    frame.extend(build_tcp_header(
        TcpFields { source_port: sport, destination_port: dport, sequence: 0, acknowledgement: 0, flags, window: 512 },
        source,
        destination,
    ));
    frame
}

fn answer() -> Vec<u8> {
    frame(flow().destination, flow().source, 80, 47890, TCP_SYN | TCP_ACK)
}

fn noise() -> Vec<u8> {
    frame(flow().destination, flow().source, 443, 47890, TCP_SYN | TCP_ACK)
}

#[test]
fn syn_scan_of_an_open_port_end_to_end() {
    let matchers = build_probe_matchers(flow());
    let mut exchange = Exchange::new();
    assert_eq!(exchange, Exchange { state: ProbeState::Pending, failures: 0 });
    assert_eq!(exchange.on_event(Event::SendDone, &matchers, TIMEOUT), Action::Receive { wait: TIMEOUT });
    assert_eq!(exchange.state, ProbeState::Sent);
    let action = exchange.on_event(Event::Frame { bytes: noise(), elapsed: 1000 }, &matchers, TIMEOUT);
    assert_eq!(action, Action::Receive { wait: TIMEOUT - 1000 });
    assert_eq!(exchange.state, ProbeState::Sent);
    let action = exchange.on_event(Event::Frame { bytes: answer(), elapsed: 2500 }, &matchers, TIMEOUT);
    assert_eq!(exchange.state, ProbeState::Matched);
    match action {
        Action::Return { response, elapsed } => {
            assert_eq!(response, Some(answer()[14..].to_vec()));
            assert_eq!(tcp_scan_status(TcpTechnique::Syn, &response), TargetScanStatus::Open);
            let rtt = round_trip(&response, elapsed);
            assert_eq!(rtt, Some(2500));
            assert!(rtt.unwrap() > 0);
        }
        other => panic!("{:?}", other),
    }
}

#[test]
fn syn_scan_of_a_filtered_port_end_to_end() {
    let matchers = build_probe_matchers(flow());
    let mut exchange = Exchange::new();
    exchange.on_event(Event::SendDone, &matchers, TIMEOUT);
    let action = exchange.on_event(Event::Silence { elapsed: SECOND }, &matchers, TIMEOUT);
    assert_eq!(action, Action::Receive { wait: 2 * SECOND });
    let action = exchange.on_event(Event::Silence { elapsed: TIMEOUT }, &matchers, TIMEOUT);
    assert_eq!(exchange.state, ProbeState::TimedOut);
    assert_eq!(action, Action::Return { response: None, elapsed: TIMEOUT });
    assert_eq!(tcp_scan_status(TcpTechnique::Syn, &None), TargetScanStatus::Filtered);
    assert_eq!(round_trip(&None, TIMEOUT), None);
}

#[test]
fn the_first_response_wins() {
    let matchers = build_probe_matchers(flow());
    let mut exchange = Exchange::new();
    exchange.on_event(Event::SendDone, &matchers, TIMEOUT);
    let first = frame(flow().destination, flow().source, 80, 47890, 0x04);
    let action = exchange.on_event(Event::Frame { bytes: first.clone(), elapsed: 5 }, &matchers, TIMEOUT);
    assert_eq!(action, Action::Return { response: Some(first[14..].to_vec()), elapsed: 5 });
    let action = exchange.on_event(Event::Frame { bytes: answer(), elapsed: 6 }, &matchers, TIMEOUT);
    assert_eq!(action, Action::Ignore);
    assert_eq!(exchange.state, ProbeState::Matched);
}

#[test]
fn a_late_frame_is_no_response() {
    let matchers = build_probe_matchers(flow());
    let mut exchange = Exchange::new();
    exchange.on_event(Event::SendDone, &matchers, TIMEOUT);
    let action = exchange.on_event(Event::Frame { bytes: answer(), elapsed: TIMEOUT }, &matchers, TIMEOUT);
    assert_eq!(action, Action::Return { response: None, elapsed: TIMEOUT });
    assert_eq!(exchange.state, ProbeState::TimedOut);
    let mut exchange = Exchange::new();
    exchange.on_event(Event::SendDone, &matchers, TIMEOUT);
    let action = exchange.on_event(Event::Frame { bytes: answer(), elapsed: TIMEOUT - 1 }, &matchers, TIMEOUT);
    assert!(matches!(action, Action::Return { response: Some(_), .. }));
}

#[test]
fn a_refused_probe_is_sent_again_up_to_the_limit() {
    let matchers = build_probe_matchers(flow());
    let mut exchange = Exchange::new();
    let mut sends = 1;
    loop {
        match exchange.on_event(Event::SendFailed, &matchers, TIMEOUT) {
            Action::Send => sends += 1,
            Action::Fail => break,
            other => panic!("{:?}", other),
        }
    }
    assert_eq!(sends, DEFAULT_MAXLOOP);
    assert_eq!(exchange.state, ProbeState::Failed);
    assert_eq!(exchange.on_event(Event::SendDone, &matchers, TIMEOUT), Action::Ignore);
    assert_eq!(exchange.on_event(Event::SendFailed, &matchers, TIMEOUT), Action::Ignore);

    let mut exchange = Exchange::new();
    assert_eq!(exchange.on_event(Event::SendFailed, &matchers, TIMEOUT), Action::Send);
    assert_eq!(exchange.on_event(Event::SendFailed, &matchers, TIMEOUT), Action::Send);
    assert_eq!(exchange.on_event(Event::SendDone, &matchers, TIMEOUT), Action::Receive { wait: TIMEOUT });
    assert_eq!(exchange, Exchange { state: ProbeState::Sent, failures: 2 });
    assert_eq!(exchange.on_event(Event::SendFailed, &matchers, TIMEOUT), Action::Ignore);
    assert_eq!(exchange.on_event(Event::SendDone, &matchers, TIMEOUT), Action::Ignore);
}

#[test]
fn reports_out_of_place_are_ignored() {
    let matchers = build_probe_matchers(flow());
    let mut exchange = Exchange::new();
    let action = exchange.on_event(Event::Frame { bytes: answer(), elapsed: 1 }, &matchers, TIMEOUT);
    assert_eq!(action, Action::Ignore);
    assert_eq!(exchange.on_event(Event::Silence { elapsed: TIMEOUT }, &matchers, TIMEOUT), Action::Ignore);
    assert_eq!(exchange, Exchange::new());
}

#[test]
fn connect_scan_verdicts() {
    assert_eq!(connect_scan_status(ConnectOutcome::Connected), TargetScanStatus::Open);
    assert_eq!(connect_scan_status(ConnectOutcome::Refused), TargetScanStatus::Closed);
    assert_eq!(connect_scan_status(ConnectOutcome::TimedOut), TargetScanStatus::Filtered);
    assert_eq!(connect_scan_status(ConnectOutcome::Failed), TargetScanStatus::Filtered);
}

#[test]
fn a_failed_probe_is_recorded_as_unreachable() {
    let addr = IpAddr::V4(Ipv4Addr::new(10, 0, 0, 1));
    let mut results = TcpUdpScanResults::new(addr, None);
    results.record(80, Some(TargetScanStatus::Open));
    results.record(81, None);
    results.record(82, Some(TargetScanStatus::Closed));
    results.record(82, None);
    assert_eq!(results.results.len(), 3);
    assert_eq!(results.to_string(), "10.0.0.1 80 open\n10.0.0.1 81 unreachable\n10.0.0.1 82 unreachable\n");
    let mut protocols = IpScanResults::new(addr, None);
    protocols.record(6, None);
    protocols.record(17, Some(TargetScanStatus::OpenOrFiltered));
    assert_eq!(protocols.to_string(), "10.0.0.1 Tcp unreachable\n10.0.0.1 Udp open|filtered\n");
}
