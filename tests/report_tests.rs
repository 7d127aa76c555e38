use netscan::pipeline::{cache_is_fresh, check_request, exclude_address, ConfigError, StageRequest};
use netscan::report::{csv_header_line, csv_row, summarize_failures, FailureRow};
use netscan::service::ServiceDetectionResult;
use netscan::target::Ipv4;

fn result(port: u16, failures: &[&str]) -> ServiceDetectionResult {
    ServiceDetectionResult::new(
        port,
        Some("Unknown Service".to_string()),
        Some("x".to_string()),
        failures.iter().map(|s| s.to_string()).collect(),
    )
}

#[test]
fn failures_group_by_protocol() {
    let results = vec![result(22, &["SSH", "HTTP"]), result(80, &["HTTP"]), result(25, &[]), result(21, &["SSH"])];
    let rows = summarize_failures(&results);
    assert_eq!(rows.len(), 2);
    assert_eq!(rows[0].protocol, "SSH");
    assert_eq!(rows[0].ports, vec![22, 21]);
    assert_eq!(rows[1].protocol, "HTTP");
    assert_eq!(rows[1].ports, vec![22, 80]);
    assert!(summarize_failures(&[]).is_empty());
}

#[test]
fn csv_rows_are_quoted() {
    let row = FailureRow { protocol: "HTTP".to_string(), ports: vec![22, 80] };
    assert_eq!(
        csv_row("2024-01-01T00:00:00+00:00", "127.0.0.1", &row),
        "2024-01-01T00:00:00+00:00,127.0.0.1,HTTP,2,\"22,80\""
    );
    assert_eq!(csv_header_line(), "Timestamp,Target,Protocol,FailCount,Ports");
}

#[test]
fn stages_need_their_inputs() {
    let none = StageRequest { tcp_scan: false, udp_scan: false, fingerprint: false, service_detection: false };
    assert_eq!(check_request(&none, false, false), Ok(()));
    let tcp = StageRequest { tcp_scan: true, ..none };
    assert_eq!(check_request(&tcp, false, false), Err(ConfigError::MissingPorts));
    assert_eq!(check_request(&tcp, true, false), Ok(()));
    let svc = StageRequest { service_detection: true, ..none };
    assert_eq!(check_request(&svc, true, false), Err(ConfigError::MissingProtocols));
    assert_eq!(check_request(&svc, false, false), Err(ConfigError::MissingPorts));
    assert_eq!(check_request(&svc, true, true), Ok(()));
    assert_eq!(ConfigError::MissingProtocols.message(), "You must specify --protocols for service detection.");
    assert_eq!(
        ConfigError::MissingPorts.message(),
        "You must specify --ports for scanning, fingerprinting, or service detection."
    );
}

#[test]
fn own_address_is_not_scanned() {
    let a = Ipv4::new(10, 0, 0, 1);
    let b = Ipv4::new(10, 0, 0, 2);
    assert_eq!(exclude_address(&vec![a, b], Some(a)), vec![b]);
    assert_eq!(exclude_address(&vec![a, b], None), vec![a, b]);
}

#[test]
fn cache_freshness() {
    assert!(cache_is_fresh(Some(10), 1));
    assert!(!cache_is_fresh(Some(86400), 1));
    assert!(!cache_is_fresh(None, 7));
    assert!(!cache_is_fresh(Some(0), 0));
}
