use netscan::probes::{
    dns_tcp_query, dns_udp_query, dns_udp_reply_matches_query, judge_exchange, probe_request,
    reply_identifies_protocol, udp_probe_payload, DnsDetection, Exchange, FtpDetection,
    HttpDetection, Protocol, SmtpDetection, SshDetection, SshStep,
};
use netscan::service::{DetectorStep, ServiceDetectionResult, ServiceDetector};

fn reply(text: &str) -> Exchange {
    Exchange::Reply(text.as_bytes().to_vec())
}

/// Runs a detector the way the driver does, with each probe's verdict and
/// the banner read given up front.
fn run(port: u16, protocols: Vec<Protocol>, verdicts: Vec<(bool, Option<String>)>, banner: Option<&str>) -> ServiceDetectionResult {
    let mut d = ServiceDetector::new(port, protocols);
    let mut k = 0;
    loop {
        match d.next_step() {
            DetectorStep::Probe(_) => {
                let (detected, error) = verdicts[k].clone();
                k += 1;
                if let Some(r) = d.record_probe(detected, error) {
                    return r;
                }
            }
            DetectorStep::ReadBanner => {
                return d.conclude(banner.map(|b| b.as_bytes().to_vec()));
            }
        }
    }
}

#[test]
fn ssh_banner_identifies_ssh() {
    let first = SshDetection::after_first_read(&reply("SSH-2.0-OpenSSH_8.2\r\n"));
    let det = match first {
        SshStep::Finished(d) => d,
        SshStep::SendNewlineAndRead => panic!("a banner decides at once"),
    };
    assert!(det.detected);
    assert_eq!(det.banner.as_deref(), Some("SSH-2.0-OpenSSH_8.2\r\n"));
    let r = run(22, vec![Protocol::Ssh], vec![(det.detected, det.error)], None);
    assert_eq!(r.port, 22);
    assert_eq!(r.service.as_deref(), Some("SSH"));
    assert_eq!(r.error, None);
    assert!(r.protocol_failures.is_empty());
}

#[test]
fn other_banner_becomes_banner_label() {
    let first = SshDetection::after_first_read(&reply("hello world\n"));
    let det = match first {
        SshStep::Finished(d) => d,
        SshStep::SendNewlineAndRead => panic!("text that came decides"),
    };
    assert!(!det.detected);
    assert_eq!(det.error.as_deref(), Some("No SSH banner found"));
    let r = run(22, vec![Protocol::Ssh], vec![(det.detected, det.error)], Some("hello world\n"));
    assert_eq!(r.service.as_deref(), Some("Banner: hello world"));
    assert_eq!(r.protocol_failures, vec!["SSH".to_string()]);
    assert_eq!(r.error.as_deref(), Some("No SSH banner found"));
}

#[test]
fn nothing_listening_is_unknown_service() {
    let ssh = SshDetection::after_first_read(&Exchange::ConnectFailed);
    let ssh = match ssh {
        SshStep::Finished(d) => d,
        SshStep::SendNewlineAndRead => panic!("no connection, no retry"),
    };
    let http = HttpDetection::from_exchange(&Exchange::ConnectFailed);
    let r = run(
        9999,
        vec![Protocol::Ssh, Protocol::Http],
        vec![(ssh.detected, ssh.error), (http.detected, http.error)],
        None,
    );
    assert_eq!(r.service.as_deref(), Some("Unknown Service"));
    assert_eq!(r.error.as_deref(), Some("Connection failed | Connection failed"));
    assert_eq!(r.protocol_failures, vec!["SSH".to_string(), "HTTP".to_string()]);
}

#[test]
fn later_probe_wins_and_earlier_failures_stay_listed() {
    let r = run(
        30778,
        vec![Protocol::Http, Protocol::Ssh],
        vec![(false, None), (true, None)],
        None,
    );
    assert_eq!(r.service.as_deref(), Some("SSH"));
    assert_eq!(r.error, None);
    assert_eq!(r.protocol_failures, vec!["HTTP".to_string()]);
}

#[test]
fn missing_reason_gets_a_default() {
    let r = run(21, vec![Protocol::Ftp], vec![(false, None)], Some("   \r\n"));
    assert_eq!(r.service.as_deref(), Some("Unknown Service"));
    assert_eq!(r.error.as_deref(), Some("FTP detection failed"));
}

#[test]
fn no_protocols_goes_straight_to_banner() {
    let d = ServiceDetector::new(80, vec![]);
    assert_eq!(d.next_step(), DetectorStep::ReadBanner);
    let r = d.conclude(Some(b"  220 ready \n".to_vec()));
    assert_eq!(r.service.as_deref(), Some("Banner: 220 ready"));
    assert_eq!(r.error, None);
    assert!(r.protocol_failures.is_empty());
}

#[test]
fn detection_is_repeatable() {
    let a = run(22, vec![Protocol::Http, Protocol::Ssh], vec![(false, None), (true, None)], Some("x"));
    let b = run(22, vec![Protocol::Http, Protocol::Ssh], vec![(false, None), (true, None)], Some("y"));
    assert_eq!(a.service, b.service);
}

#[test]
fn silent_ssh_server_gets_a_newline() {
    assert!(matches!(SshDetection::after_first_read(&Exchange::NoReply), SshStep::SendNewlineAndRead));
    assert!(matches!(SshDetection::after_first_read(&reply("")), SshStep::SendNewlineAndRead));
    let second = SshDetection::from_exchange(&reply("SSH-1.99-x"));
    assert!(second.detected);
}

#[test]
fn banners_are_judged_per_protocol() {
    assert!(reply_identifies_protocol(Protocol::Ftp, b"220 ProFTPD Server"));
    assert!(reply_identifies_protocol(Protocol::Smtp, b"220 mail ESMTP Postfix"));
    assert!(reply_identifies_protocol(Protocol::Pop3, b"+OK POP3 ready"));
    assert!(!reply_identifies_protocol(Protocol::Pop3, b" +OK"));
    assert!(reply_identifies_protocol(Protocol::Imap, b"* OK IMAP4rev1"));
    assert!(reply_identifies_protocol(Protocol::Telnet, b"Ubuntu login: "));
    assert!(!reply_identifies_protocol(Protocol::Telnet, b"welcome"));
    assert!(reply_identifies_protocol(Protocol::Http, b"HTTP/1.1 200 OK\r\n"));
    assert!(!reply_identifies_protocol(Protocol::Http, b"HTTP/2 200"));
    assert!(reply_identifies_protocol(Protocol::Ssh, b"SSH-2.0-x"));
    assert!(!reply_identifies_protocol(Protocol::Ssh, b"xSSH-2.0"));
    assert!(reply_identifies_protocol(Protocol::Dns, &[0, 30, 0x12, 0x34, 0x81]));
    assert!(!reply_identifies_protocol(Protocol::Dns, &[0, 30, 0x12]));
}

#[test]
fn verdicts_carry_banner_or_reason() {
    let ftp = FtpDetection::from_exchange(&reply("220 FTP ready"));
    assert_eq!(ftp, FtpDetection { detected: true, banner: Some("220 FTP ready".to_string()), error: None });
    let smtp = SmtpDetection::from_exchange(&Exchange::NoReply);
    assert_eq!(smtp.error.as_deref(), Some("No SMTP banner"));
    let dns = DnsDetection::from_exchange(&Exchange::ConnectFailed);
    assert_eq!(dns, DnsDetection { detected: false, error: Some("Connection failed".to_string()) });
    let tls = judge_exchange(Protocol::Https, &Exchange::NoReply);
    assert_eq!(tls.error.as_deref(), Some("TLS handshake failed"));
    assert!(judge_exchange(Protocol::Https, &reply("")).detected);
}

#[test]
fn probe_requests_are_exact() {
    assert_eq!(probe_request(Protocol::Http), b"HEAD / HTTP/1.0\r\n\r\n".to_vec());
    assert_eq!(probe_request(Protocol::Ssh), Vec::<u8>::new());
    assert_eq!(
        dns_tcp_query(),
        vec![0, 17, 0x12, 0x34, 1, 0, 0, 1, 0, 0, 0, 0, 0, 0, 0, 0, 1, 0, 1]
    );
    assert_eq!(probe_request(Protocol::Dns), dns_tcp_query());
}

#[test]
fn udp_payloads_are_exact() {
    let expected = vec![
        0x12, 0x34, 0x01, 0x00, 0x00, 0x01, 0x00, 0x00, 0x00, 0x00, 0x00, 0x00, 0x03, b'w', b'w',
        b'w', 0x07, b'e', b'x', b'a', b'm', b'p', b'l', b'e', 0x03, b'c', b'o', b'm', 0x00, 0x00,
        0x01, 0x00, 0x01,
    ];
    assert_eq!(dns_udp_query(), expected);
    assert_eq!(udp_probe_payload(53), expected);
    assert_eq!(udp_probe_payload(1234), vec![0]);
    assert!(dns_udp_reply_matches_query(&[0x12, 0x34, 0x81, 0x80]));
    assert!(!dns_udp_reply_matches_query(&[0x12]));
}

#[test]
fn probe_timeouts() {
    assert_eq!(Protocol::Ssh.connect_timeout_secs(), 9);
    assert_eq!(Protocol::Ssh.read_timeout_secs(), 8);
    assert_eq!(Protocol::Ftp.connect_timeout_secs(), 5);
    assert_eq!(Protocol::Ftp.read_timeout_secs(), 2);
    assert_eq!(Protocol::Https.read_timeout_secs(), 3);
    assert_eq!(Protocol::Telnet.name(), "TELNET");
}

#[test]
fn result_constructor_keeps_fields() {
    let r = ServiceDetectionResult::new(53, Some("DNS".to_string()), None, vec![]);
    assert_eq!(r.port, 53);
    assert_eq!(r.service.as_deref(), Some("DNS"));
}
