use netscan::arp::{build_arp_request, arp_reply_sender, select_interface, InterfaceInfo, MacAddress, MacFingerprint};
use netscan::fingerprint::{fingerprint_host, HostFingerprintResult, PortFinding};
use netscan::ping::{build_echo_request, checksum, guess_os_from_ttl, is_echo_reply_from, LiveHost, PingOutcome, PingSweepResult};
use netscan::probes::Protocol;
use netscan::target::{parse_subnet, Ipv4};

#[test]
fn ttl_table() {
    assert_eq!(guess_os_from_ttl(64), "Linux/Unix");
    assert_eq!(guess_os_from_ttl(60), "Linux/Unix");
    assert_eq!(guess_os_from_ttl(70), "Linux/Unix");
    assert_eq!(guess_os_from_ttl(71), "Unknown");
    assert_eq!(guess_os_from_ttl(128), "Windows");
    assert_eq!(guess_os_from_ttl(255), "Network Device/Router");
    assert_eq!(guess_os_from_ttl(240), "Network Device/Router");
    assert_eq!(guess_os_from_ttl(0), "Unknown");
}

#[test]
fn echo_request_has_correct_checksum() {
    let req = build_echo_request(1, 1);
    assert_eq!(req, vec![8, 0, 0xF7, 0xFD, 0, 1, 0, 1]);
    assert_eq!(checksum(&req), 0);
    assert_eq!(checksum(&[0x45, 0x00, 0x00, 0x73, 0x00, 0x00, 0x40, 0x00, 0x40, 0x11, 0x00, 0x00, 0xc0, 0xa8, 0x00, 0x01, 0xc0, 0xa8, 0x00, 0xc7]), 0xb861);
    assert_eq!(checksum(&[0xff]), 0x00ff);
}

#[test]
fn echo_reply_acceptance() {
    let t = Ipv4::new(10, 0, 0, 1);
    assert!(is_echo_reply_from(t, &[0, 0, 1, 2], t));
    assert!(!is_echo_reply_from(Ipv4::new(10, 0, 0, 2), &[0, 0], t));
    assert!(!is_echo_reply_from(t, &[8, 0], t));
    assert!(!is_echo_reply_from(t, &[], t));
}

#[test]
fn sweep_partitions_targets() {
    let targets = parse_subnet("192.168.1.0/30").unwrap();
    let outcomes = vec![
        PingOutcome::TimedOut,
        PingOutcome::Replied(64),
        PingOutcome::Failed("Operation not permitted".to_string()),
        PingOutcome::TimedOut,
    ];
    let r = PingSweepResult::from_outcomes(&targets, &outcomes);
    assert_eq!(r.live, vec![LiveHost { ip: targets[1], ttl: Some(64) }]);
    assert_eq!(r.not_alive, vec![targets[0], targets[3]]);
    assert_eq!(r.errors, vec![(targets[2], "Operation not permitted".to_string())]);
    assert_eq!(r.get_live_hosts(), vec![Ipv4::new(192, 168, 1, 1)]);
    assert!(r.get_live_hosts().len() <= 4);
}

#[test]
fn mac_text_is_lowercase_hex() {
    let m = MacAddress(0x00, 0x1A, 0x2b, 0xff, 0x09, 0x10);
    assert_eq!(m.to_text(), "00:1a:2b:ff:09:10");
    assert_eq!(MacAddress::broadcast().to_text(), "ff:ff:ff:ff:ff:ff");
}

#[test]
fn arp_request_and_reply() {
    let me = MacAddress(2, 0, 0, 0, 0, 1);
    let frame = build_arp_request(me, Ipv4::new(192, 168, 1, 10), Ipv4::new(192, 168, 1, 1));
    assert_eq!(frame.len(), 42);
    assert_eq!(&frame[0..6], &[255; 6]);
    assert_eq!(&frame[6..12], &[2, 0, 0, 0, 0, 1]);
    assert_eq!(&frame[12..22], &[8, 6, 0, 1, 8, 0, 6, 4, 0, 1]);
    assert_eq!(&frame[28..32], &[192, 168, 1, 10]);
    assert_eq!(&frame[32..38], &[0; 6]);
    assert_eq!(&frame[38..42], &[192, 168, 1, 1]);

    let mut reply = frame.clone();
    reply[21] = 2;
    reply[22..28].copy_from_slice(&[0xaa, 0xbb, 0xcc, 0xdd, 0xee, 0xff]);
    reply[28..32].copy_from_slice(&[192, 168, 1, 1]);
    assert_eq!(
        arp_reply_sender(&reply, Ipv4::new(192, 168, 1, 1)),
        Some(MacAddress(0xaa, 0xbb, 0xcc, 0xdd, 0xee, 0xff))
    );
    assert_eq!(arp_reply_sender(&reply, Ipv4::new(192, 168, 1, 2)), None);
    assert_eq!(arp_reply_sender(&frame, Ipv4::new(192, 168, 1, 10)), None);
    assert_eq!(arp_reply_sender(&reply[..41], Ipv4::new(192, 168, 1, 1)), None);
}

#[test]
fn interface_choice() {
    let lo = InterfaceInfo { is_up: true, is_loopback: true, mac: Some(MacAddress(0, 0, 0, 0, 0, 0)), ipv4: vec![Ipv4::new(127, 0, 0, 1)] };
    let down = InterfaceInfo { is_up: false, is_loopback: false, mac: Some(MacAddress(2, 0, 0, 0, 0, 2)), ipv4: vec![Ipv4::new(10, 0, 0, 2)] };
    let v6only = InterfaceInfo { is_up: true, is_loopback: false, mac: Some(MacAddress(2, 0, 0, 0, 0, 3)), ipv4: vec![] };
    let eth = InterfaceInfo { is_up: true, is_loopback: false, mac: Some(MacAddress(2, 0, 0, 0, 0, 4)), ipv4: vec![Ipv4::new(10, 0, 0, 4)] };
    assert_eq!(select_interface(&vec![lo.clone(), down.clone(), v6only.clone(), eth]), Some(3));
    assert_eq!(select_interface(&vec![lo, down, v6only]), None);
}

#[test]
fn fingerprint_combines_ttl_mac_and_banners() {
    let host = LiveHost { ip: Ipv4::new(192, 168, 1, 3), ttl: Some(64) };
    let mac = MacFingerprint::found(MacAddress(0xaa, 0xbb, 0xcc, 0, 1, 2));
    let findings = vec![
        PortFinding { protocol: Protocol::Ssh, port: 22, detected: true, banner: Some("SSH-2.0-OpenSSH_7.6p1".to_string()) },
        PortFinding { protocol: Protocol::Dns, port: 22, detected: false, banner: None },
        PortFinding { protocol: Protocol::Dns, port: 53, detected: true, banner: None },
    ];
    let fp = fingerprint_host(&host, &mac, &findings);
    assert_eq!(fp.ip, host.ip);
    assert_eq!(fp.os.as_deref(), Some("Linux/Unix"));
    assert_eq!(fp.mac.as_deref(), Some("aa:bb:cc:00:01:02"));
    assert_eq!(fp.vendor, None);
    let details = fp.details.unwrap();
    assert!(details.contains("SSH detected on port 22: SSH-2.0-OpenSSH_7.6p1"));
    assert_eq!(
        details,
        "\nOS guess from TTL 64: Linux/Unix\nMAC: aa:bb:cc:00:01:02\nSSH detected on port 22: SSH-2.0-OpenSSH_7.6p1\nDNS detected on port 53"
    );
}

#[test]
fn fingerprint_with_nothing_learned_has_no_details() {
    let host = LiveHost { ip: Ipv4::new(10, 0, 0, 9), ttl: None };
    let mac = MacFingerprint { mac: None, vendor: None, error: None };
    let fp = fingerprint_host(&host, &mac, &vec![]);
    assert!(fp.details.is_none());
    assert!(fp.os.is_none());
    let failed = fingerprint_host(&host, &MacFingerprint::no_reply(), &vec![]);
    assert_eq!(failed.details.as_deref(), Some("\nMAC error: No ARP reply received"));
    let blank = HostFingerprintResult::new(host.ip);
    assert!(blank.serial.is_none());
    assert_eq!(
        MacFingerprint::no_interface().error.as_deref(),
        Some("No suitable network interface found")
    );
}
