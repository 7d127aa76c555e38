use netscan::scan::{ports_in_range, ProbeSchedule, TcpOutcome, TcpScanResult, UdpOutcome, UdpScanResult, PROBE_CAPACITY, TCP_CAPACITY};
use netscan::target::{expand_target, Ipv4};

#[test]
fn tcp_connect_outcomes() {
    let hosts = expand_target("192.168.1.0/30").unwrap();
    let live = Ipv4::new(192, 168, 1, 1);
    assert!(hosts.contains(&live));
    let mut r = TcpScanResult::new();
    r.record(live, 22, TcpOutcome::Connected);
    r.record(live, 80, TcpOutcome::Refused);
    r.record(Ipv4::new(192, 168, 1, 2), 22, TcpOutcome::Unreachable);
    r.record(Ipv4::new(192, 168, 1, 2), 80, TcpOutcome::Reset);
    assert_eq!(r.get_open_ports(), &vec![(live, 22)]);
    assert!(r.get_errors().is_empty());
}

#[test]
fn unreachable_host_has_no_open_ports() {
    let ip = Ipv4::new(192, 0, 2, 1);
    let mut r = TcpScanResult::new();
    for port in 1..10 {
        r.record(ip, port, TcpOutcome::TimedOut);
    }
    assert!(r.get_open_ports().is_empty());
    assert!(r.get_errors().is_empty());
}

#[test]
fn other_tcp_failures_are_errors() {
    let ip = Ipv4::new(10, 0, 0, 5);
    let mut r = TcpScanResult::new();
    r.record(ip, 443, TcpOutcome::Failed("too many open files".to_string()));
    assert_eq!(
        r.get_errors(),
        &vec![(ip, "Error connecting to 10.0.0.5:443 - too many open files".to_string())]
    );
    assert_eq!(r.summary(), "TCP scan completed.\nTotal open ports: 0\nTotal errors: 1");
}

#[test]
fn udp_outcomes() {
    let ip = Ipv4::new(10, 0, 0, 5);
    let mut r = UdpScanResult::new();
    r.record(ip, 53, UdpOutcome::Answered);
    r.record(ip, 1234, UdpOutcome::Silent);
    r.record(ip, 1235, UdpOutcome::SendFailed);
    assert_eq!(r.get_open_ports(), &vec![(ip, 53)]);
    assert!(r.get_errors().is_empty());
    r.record(ip, 9, UdpOutcome::Failed("bind failed".to_string()));
    assert_eq!(r.get_errors()[0].1, "Error on 10.0.0.5:9 - bind failed");
    assert_eq!(r.summary(), "UDP scan completed.\nTotal open ports: 1\nTotal errors: 1");
}

#[test]
fn add_methods_append() {
    let ip = Ipv4::new(127, 0, 0, 1);
    let mut r = UdpScanResult::new();
    r.add_open_port(ip, 7);
    r.add_error(ip, "x".to_string());
    assert_eq!(r.get_open_ports().len(), 1);
    assert_eq!(r.get_errors().len(), 1);
}

#[test]
fn empty_port_range_schedules_nothing() {
    let ports = ports_in_range(0, 0);
    assert!(ports.is_empty());
    let mut s = ProbeSchedule::new(&vec![Ipv4::new(127, 0, 0, 1)], &ports, TCP_CAPACITY);
    assert!(s.is_done());
    assert_eq!(s.start_next(), None);
    assert_eq!(ports_in_range(53, 55), vec![53, 54]);
}

#[test]
fn schedule_never_exceeds_capacity() {
    let hosts = vec![Ipv4::new(10, 0, 0, 1), Ipv4::new(10, 0, 0, 2)];
    let ports = vec![22, 80, 443];
    let mut s = ProbeSchedule::new(&hosts, &ports, 2);
    assert_eq!(s.start_next(), Some((hosts[0], 22)));
    assert_eq!(s.start_next(), Some((hosts[0], 80)));
    assert_eq!(s.start_next(), None);
    assert_eq!(s.in_flight(), 2);
    s.finish();
    assert_eq!(s.start_next(), Some((hosts[0], 443)));
    s.finish();
    s.finish();
    assert_eq!(s.start_next(), Some((hosts[1], 22)));
    assert_eq!(s.start_next(), Some((hosts[1], 80)));
    assert_eq!(s.start_next(), None);
    s.finish();
    assert_eq!(s.start_next(), Some((hosts[1], 443)));
    assert_eq!(s.start_next(), None);
    s.finish();
    s.finish();
    assert!(s.is_done());
    assert_eq!(PROBE_CAPACITY, 64);
}
