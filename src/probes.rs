//! Protocol probes: what each probe sends, how a reply is judged, and the
//! verdict a probe reports. The socket work is done by the caller, which
//! hands over what the exchange yielded.
use vstd::prelude::*;
use crate::text::{lossy_text, text_from_bytes};
use vstd::slice::slice_to_vec;

verus! {

/// The protocols a service probe can identify.
#[derive(Clone, Copy, Debug, PartialEq, Eq, Structural, Hash)]
pub enum Protocol {
    Ssh,
    Ftp,
    Smtp,
    Http,
    Https,
    Dns,
    Pop3,
    Imap,
    Telnet,
}

pub open spec fn protocol_name(p: Protocol) -> Seq<char> {
    match p {
        Protocol::Ssh => "SSH"@,
        Protocol::Ftp => "FTP"@,
        Protocol::Smtp => "SMTP"@,
        Protocol::Http => "HTTP"@,
        Protocol::Https => "HTTPS"@,
        Protocol::Dns => "DNS"@,
        Protocol::Pop3 => "POP3"@,
        Protocol::Imap => "IMAP"@,
        Protocol::Telnet => "TELNET"@,
    }
}

impl Protocol {
    /// The protocol's display name, also the service name it reports.
    pub fn name(&self) -> (r: &'static str)
        ensures
            r@ == protocol_name(*self),
    {
        match self {
            Protocol::Ssh => "SSH",
            Protocol::Ftp => "FTP",
            Protocol::Smtp => "SMTP",
            Protocol::Http => "HTTP",
            Protocol::Https => "HTTPS",
            Protocol::Dns => "DNS",
            Protocol::Pop3 => "POP3",
            Protocol::Imap => "IMAP",
            Protocol::Telnet => "TELNET",
        }
    }

    /// Seconds allowed for the connect; slow SSH daemons get longer.
    pub fn connect_timeout_secs(&self) -> (r: u64)
        ensures
            r == (if *self == Protocol::Ssh { 9u64 } else { 5u64 }),
    {
        match self {
            Protocol::Ssh => 9,
            _ => 5,
        }
    }

    /// Seconds allowed for each read (for HTTPS: for the handshake).
    pub fn read_timeout_secs(&self) -> (r: u64)
        ensures
            r == (match *self {
                Protocol::Ssh => 8u64,
                Protocol::Https => 3u64,
                _ => 2u64,
            }),
    {
        match self {
            Protocol::Ssh => 8,
            Protocol::Https => 3,
            _ => 2,
        }
    }
}

pub open spec fn starts_with(s: Seq<u8>, p: Seq<u8>) -> bool {
    p.len() <= s.len() && s.take(p.len() as int) == p
}

pub open spec fn contains(s: Seq<u8>, p: Seq<u8>) -> bool {
    exists|i: int| 0 <= i && i + p.len() <= s.len() && #[trigger] s.subrange(i, i + p.len()) == p
}

/// Whether `p` occurs in `s` at offset `at`.
fn matches_at(s: &[u8], at: usize, p: &[u8]) -> (r: bool)
    requires
        at + p@.len() <= s@.len(),
    ensures
        r == (s@.subrange(at as int, at + p@.len()) == p@),
{
    let n = s.len();
    let mut k: usize = 0;
    while k < p.len()
        invariant
            n == s@.len(),
            k <= p@.len(),
            at + p@.len() <= s@.len(),
            s@.subrange(at as int, at + k) == p@.take(k as int),
        decreases p@.len() - k,
    {
        if s[at + k] != p[k] {
            assert(s@.subrange(at as int, at + p@.len())[k as int] != p@[k as int]);
            return false;
        }
        k = k + 1;
        assert(s@.subrange(at as int, at + k) =~= p@.take(k as int));
    }
    assert(p@.take(p@.len() as int) =~= p@);
    true
}

/// Whether `s` begins with `p`.
pub fn bytes_start_with(s: &[u8], p: &[u8]) -> (r: bool)
    ensures
        r == starts_with(s@, p@),
{
    if p.len() > s.len() {
        return false;
    }
    let r = matches_at(s, 0, p);
    assert(s@.subrange(0, p@.len() as int) =~= s@.take(p@.len() as int));
    r
}

/// Whether `p` occurs anywhere in `s`.
pub fn bytes_contain(s: &[u8], p: &[u8]) -> (r: bool)
    ensures
        r == contains(s@, p@),
{
    if p.len() > s.len() {
        return false;
    }
    let last = s.len() - p.len();
    let mut i: usize = 0;
    loop
        invariant
            i <= last,
            last + p@.len() == s@.len(),
            forall|j: int| 0 <= j < i ==> #[trigger] s@.subrange(j, j + p@.len()) != p@,
        decreases last - i,
    {
        if matches_at(s, i, p) {
            return true;
        }
        if i == last {
            return false;
        }
        i = i + 1;
    }
}

/// The ASCII bytes of `SSH-`.
pub open spec fn ssh_marker() -> Seq<u8> {
    seq![83u8, 83, 72, 45]
}

/// The ASCII bytes of `FTP`.
pub open spec fn ftp_marker() -> Seq<u8> {
    seq![70u8, 84, 80]
}

/// The ASCII bytes of `SMTP`.
pub open spec fn smtp_marker() -> Seq<u8> {
    seq![83u8, 77, 84, 80]
}

/// The ASCII bytes of `ESMTP`.
pub open spec fn esmtp_marker() -> Seq<u8> {
    seq![69u8, 83, 77, 84, 80]
}

/// The ASCII bytes of `+OK`.
pub open spec fn pop3_marker() -> Seq<u8> {
    seq![43u8, 79, 75]
}

/// The ASCII bytes of `* OK`.
pub open spec fn imap_marker() -> Seq<u8> {
    seq![42u8, 32, 79, 75]
}

/// The ASCII bytes of `login`.
pub open spec fn login_marker() -> Seq<u8> {
    seq![108u8, 111, 103, 105, 110]
}

/// The ASCII bytes of `Welcome`.
pub open spec fn welcome_marker() -> Seq<u8> {
    seq![87u8, 101, 108, 99, 111, 109, 101]
}

/// The ASCII bytes of `HTTP/1.0`.
pub open spec fn http10_marker() -> Seq<u8> {
    seq![72u8, 84, 84, 80, 47, 49, 46, 48]
}

/// The ASCII bytes of `HTTP/1.1`.
pub open spec fn http11_marker() -> Seq<u8> {
    seq![72u8, 84, 84, 80, 47, 49, 46, 49]
}

/// The transaction id every probe query carries.
pub const QUERY_ID: u16 = 0x1234;

/// A DNS-over-TCP reply: at least four bytes, and after the two-byte length
/// the query's transaction id.
pub open spec fn dns_tcp_reply_matches(b: Seq<u8>) -> bool {
    b.len() >= 4 && b[2] == 0x12 && b[3] == 0x34
}

/// A DNS datagram answering the probe query: it starts with its id.
pub open spec fn dns_udp_reply_matches(b: Seq<u8>) -> bool {
    b.len() >= 2 && b[0] == 0x12 && b[1] == 0x34
}

/// Whether a reply identifies the protocol. For HTTPS the probe's reply is
/// a completed TLS handshake, which identifies it by itself.
pub open spec fn reply_identifies(p: Protocol, b: Seq<u8>) -> bool {
    match p {
        Protocol::Ssh => starts_with(b, ssh_marker()),
        Protocol::Ftp => contains(b, ftp_marker()),
        Protocol::Smtp => contains(b, smtp_marker()) || contains(b, esmtp_marker()),
        Protocol::Pop3 => starts_with(b, pop3_marker()),
        Protocol::Imap => starts_with(b, imap_marker()),
        Protocol::Telnet => contains(b, login_marker()) || contains(b, welcome_marker()),
        Protocol::Http => contains(b, http10_marker()) || contains(b, http11_marker()),
        Protocol::Https => true,
        Protocol::Dns => dns_tcp_reply_matches(b),
    }
}

/// Judges a reply for a protocol.
pub fn reply_identifies_protocol(p: Protocol, b: &[u8]) -> (r: bool)
    ensures
        r == reply_identifies(p, b@),
{
    match p {
        Protocol::Ssh => {
            let m: [u8; 4] = [83, 83, 72, 45];
            assert(m@ =~= ssh_marker());
            bytes_start_with(b, m.as_slice())
        },
        Protocol::Ftp => {
            let m: [u8; 3] = [70, 84, 80];
            assert(m@ =~= ftp_marker());
            bytes_contain(b, m.as_slice())
        },
        Protocol::Smtp => {
            let m: [u8; 4] = [83, 77, 84, 80];
            let e: [u8; 5] = [69, 83, 77, 84, 80];
            assert(m@ =~= smtp_marker());
            assert(e@ =~= esmtp_marker());
            bytes_contain(b, m.as_slice()) || bytes_contain(b, e.as_slice())
        },
        Protocol::Pop3 => {
            let m: [u8; 3] = [43, 79, 75];
            assert(m@ =~= pop3_marker());
            bytes_start_with(b, m.as_slice())
        },
        Protocol::Imap => {
            let m: [u8; 4] = [42, 32, 79, 75];
            assert(m@ =~= imap_marker());
            bytes_start_with(b, m.as_slice())
        },
        Protocol::Telnet => {
            let m: [u8; 5] = [108, 111, 103, 105, 110];
            let w: [u8; 7] = [87, 101, 108, 99, 111, 109, 101];
            assert(m@ =~= login_marker());
            assert(w@ =~= welcome_marker());
            bytes_contain(b, m.as_slice()) || bytes_contain(b, w.as_slice())
        },
        Protocol::Http => {
            let m: [u8; 8] = [72, 84, 84, 80, 47, 49, 46, 48];
            let n: [u8; 8] = [72, 84, 84, 80, 47, 49, 46, 49];
            assert(m@ =~= http10_marker());
            assert(n@ =~= http11_marker());
            bytes_contain(b, m.as_slice()) || bytes_contain(b, n.as_slice())
        },
        Protocol::Https => true,
        Protocol::Dns => b.len() >= 4 && b[2] == 0x12 && b[3] == 0x34,
    }
}

/// What a probe's socket yielded: no connection, no data in time, or the
/// bytes of the first read (for HTTPS: any reply means the TLS handshake
/// completed).
#[derive(Clone, Debug, PartialEq, Eq)]
pub enum Exchange {
    ConnectFailed,
    NoReply,
    Reply(Vec<u8>),
}

/// Whether the exchange identifies the protocol.
pub open spec fn exchange_detects(p: Protocol, x: Exchange) -> bool {
    x matches Exchange::Reply(b) && reply_identifies(p, b@)
}

/// The reason a probe that connected gives when its reply did not match.
pub open spec fn no_match_text(p: Protocol) -> Seq<char> {
    match p {
        Protocol::Ssh => "No SSH banner found"@,
        Protocol::Ftp => "No FTP banner"@,
        Protocol::Smtp => "No SMTP banner"@,
        Protocol::Http => "No HTTP banner"@,
        Protocol::Https => "TLS handshake failed"@,
        Protocol::Dns => "No DNS response"@,
        Protocol::Pop3 => "No POP3 banner"@,
        Protocol::Imap => "No IMAP banner"@,
        Protocol::Telnet => "No TELNET banner"@,
    }
}

/// The reason a probe gives when it did not identify its protocol.
pub open spec fn failure_text(p: Protocol, x: Exchange) -> Seq<char> {
    if x is ConnectFailed {
        "Connection failed"@
    } else {
        no_match_text(p)
    }
}

fn no_match_message(p: Protocol) -> (r: &'static str)
    ensures
        r@ == no_match_text(p),
{
    match p {
        Protocol::Ssh => "No SSH banner found",
        Protocol::Ftp => "No FTP banner",
        Protocol::Smtp => "No SMTP banner",
        Protocol::Http => "No HTTP banner",
        Protocol::Https => "TLS handshake failed",
        Protocol::Dns => "No DNS response",
        Protocol::Pop3 => "No POP3 banner",
        Protocol::Imap => "No IMAP banner",
        Protocol::Telnet => "No TELNET banner",
    }
}

/// The outcome of one probe: whether it identified its protocol, the
/// banner that did, or the reason it did not.
#[derive(Clone, Debug)]
pub struct ProbeVerdict {
    pub detected: bool,
    pub banner: Option<String>,
    pub error: Option<String>,
}

/// A verdict that follows from the exchange: identified with the reply as
/// banner, or not identified with the reason.
pub open spec fn verdict_of(
    p: Protocol,
    x: Exchange,
    detected: bool,
    banner: Option<String>,
    error: Option<String>,
) -> bool {
    &&& detected == exchange_detects(p, x)
    &&& detected ==> (error is None && banner is Some && x is Reply && banner->0@ == lossy_text(
        x->Reply_0@,
    ))
    &&& !detected ==> (banner is None && error is Some && error->0@ == failure_text(p, x))
}

/// Judges what a probe's exchange yielded.
pub fn judge_exchange(p: Protocol, x: &Exchange) -> (r: ProbeVerdict)
    ensures
        verdict_of(p, *x, r.detected, r.banner, r.error),
{
    match x {
        Exchange::ConnectFailed => ProbeVerdict {
            detected: false,
            banner: None,
            error: Some("Connection failed".to_string()),
        },
        Exchange::NoReply => ProbeVerdict {
            detected: false,
            banner: None,
            error: Some(no_match_message(p).to_string()),
        },
        Exchange::Reply(b) => {
            if reply_identifies_protocol(p, b.as_slice()) {
                ProbeVerdict { detected: true, banner: Some(text_from_bytes(b.as_slice())), error: None }
            } else {
                ProbeVerdict { detected: false, banner: None, error: Some(no_match_message(p).to_string()) }
            }
        },
    }
}

/// The SSH probe's verdict.
#[derive(Debug, Clone, PartialEq, Eq)]
pub struct SshDetection {
    pub banner: Option<String>,
    pub detected: bool,
    pub error: Option<String>,
}

/// The FTP probe's verdict.
#[derive(Debug, Clone, PartialEq, Eq)]
pub struct FtpDetection {
    pub detected: bool,
    pub banner: Option<String>,
    pub error: Option<String>,
}

/// The SMTP probe's verdict.
#[derive(Debug, Clone, PartialEq, Eq)]
pub struct SmtpDetection {
    pub detected: bool,
    pub banner: Option<String>,
    pub error: Option<String>,
}

/// The HTTP probe's verdict.
#[derive(Debug, Clone, PartialEq, Eq)]
pub struct HttpDetection {
    pub detected: bool,
    pub banner: Option<String>,
    pub error: Option<String>,
}

/// The DNS probe's verdict.
#[derive(Debug, Clone, PartialEq, Eq)]
pub struct DnsDetection {
    pub detected: bool,
    pub error: Option<String>,
}

impl FtpDetection {
    pub fn from_exchange(x: &Exchange) -> (r: FtpDetection)
        ensures
            verdict_of(Protocol::Ftp, *x, r.detected, r.banner, r.error),
    {
        let v = judge_exchange(Protocol::Ftp, x);
        FtpDetection { detected: v.detected, banner: v.banner, error: v.error }
    }
}

impl SmtpDetection {
    pub fn from_exchange(x: &Exchange) -> (r: SmtpDetection)
        ensures
            verdict_of(Protocol::Smtp, *x, r.detected, r.banner, r.error),
    {
        let v = judge_exchange(Protocol::Smtp, x);
        SmtpDetection { detected: v.detected, banner: v.banner, error: v.error }
    }
}

impl HttpDetection {
    pub fn from_exchange(x: &Exchange) -> (r: HttpDetection)
        ensures
            verdict_of(Protocol::Http, *x, r.detected, r.banner, r.error),
    {
        let v = judge_exchange(Protocol::Http, x);
        HttpDetection { detected: v.detected, banner: v.banner, error: v.error }
    }
}

impl DnsDetection {
    pub fn from_exchange(x: &Exchange) -> (r: DnsDetection)
        ensures
            r.detected == exchange_detects(Protocol::Dns, *x),
            r.detected ==> r.error is None,
            !r.detected ==> (r.error is Some && r.error->0@ == failure_text(Protocol::Dns, *x)),
    {
        let v = judge_exchange(Protocol::Dns, x);
        DnsDetection { detected: v.detected, error: v.error }
    }
}

/// What the SSH probe does after its first read.
#[derive(Debug, Clone)]
pub enum SshStep {
    /// Nothing came: send one newline and read once more.
    SendNewlineAndRead,
    /// The probe is over.
    Finished(SshDetection),
}

/// Whether the first read came back empty or not at all.
pub open spec fn silent(x: Exchange) -> bool {
    x is NoReply || (x matches Exchange::Reply(b) && b@.len() == 0)
}

impl SshDetection {
    pub fn from_exchange(x: &Exchange) -> (r: SshDetection)
        ensures
            verdict_of(Protocol::Ssh, *x, r.detected, r.banner, r.error),
    {
        let v = judge_exchange(Protocol::Ssh, x);
        SshDetection { banner: v.banner, detected: v.detected, error: v.error }
    }

    /// The step after the first read: a silent server is nudged once, any
    /// other exchange decides.
    pub fn after_first_read(x: &Exchange) -> (r: SshStep)
        ensures
            silent(*x) ==> r is SendNewlineAndRead,
            !silent(*x) ==> (r matches SshStep::Finished(d) && verdict_of(
                Protocol::Ssh,
                *x,
                d.detected,
                d.banner,
                d.error,
            )),
    {
        let silent = match x {
            Exchange::NoReply => true,
            Exchange::Reply(b) => b.len() == 0,
            Exchange::ConnectFailed => false,
        };
        if silent {
            SshStep::SendNewlineAndRead
        } else {
            SshStep::Finished(SshDetection::from_exchange(x))
        }
    }
}

/// The ASCII bytes of `HEAD / HTTP/1.0\r\n\r\n`.
pub open spec fn http_request() -> Seq<u8> {
    seq![72u8, 69, 65, 68, 32, 47, 32, 72, 84, 84, 80, 47, 49, 46, 48, 13, 10, 13, 10]
}

/// A DNS header: the id, the recursion-desired flag, one question.
pub open spec fn dns_header(id: u16) -> Seq<u8> {
    seq![(id / 256) as u8, (id % 256) as u8, 1u8, 0, 0, 1, 0, 0, 0, 0, 0, 0]
}

/// Length-prefixed labels, without the terminating zero.
pub open spec fn encoded_labels(labels: Seq<Seq<u8>>) -> Seq<u8>
    decreases labels.len(),
{
    if labels.len() == 0 {
        Seq::empty()
    } else {
        encoded_labels(labels.drop_last()) + seq![labels.last().len() as u8] + labels.last()
    }
}

/// The name's terminating zero, then QTYPE A and QCLASS IN.
pub open spec fn question_tail() -> Seq<u8> {
    seq![0u8, 0, 1, 0, 1]
}

/// A query for the A record of the name made of `labels`.
pub open spec fn dns_a_query(id: u16, labels: Seq<Seq<u8>>) -> Seq<u8> {
    dns_header(id) + encoded_labels(labels) + question_tail()
}

/// A message framed for DNS over TCP: its length as two big-endian bytes.
pub open spec fn tcp_framed(m: Seq<u8>) -> Seq<u8> {
    seq![(m.len() / 256) as u8, (m.len() % 256) as u8] + m
}

/// The labels of `www.example.com`.
pub open spec fn example_name() -> Seq<Seq<u8>> {
    seq![seq![119u8, 119, 119], seq![101u8, 120, 97, 109, 112, 108, 101], seq![99u8, 111, 109]]
}

/// Builds a query for the A record of the name made of `labels`.
pub fn build_dns_query(id: u16, labels: &Vec<Vec<u8>>) -> (r: Vec<u8>)
    requires
        forall|i: int| 0 <= i < labels.len() ==> 1 <= (#[trigger] labels[i])@.len() <= 63,
    ensures
        r@ == dns_a_query(id, labels@.map_values(|l: Vec<u8>| l@)),
{
    let ghost ls = labels@.map_values(|l: Vec<u8>| l@);
    let mut r: Vec<u8> = Vec::new();
    r.push((id / 256) as u8);
    r.push((id % 256) as u8);
    let flags: [u8; 10] = [1, 0, 0, 1, 0, 0, 0, 0, 0, 0];
    let mut f = slice_to_vec(flags.as_slice());
    r.append(&mut f);
    assert(r@ =~= dns_header(id) + encoded_labels(ls.take(0)));
    let mut k: usize = 0;
    while k < labels.len()
        invariant
            k <= labels.len(),
            ls == labels@.map_values(|l: Vec<u8>| l@),
            forall|i: int| 0 <= i < labels.len() ==> 1 <= (#[trigger] labels[i])@.len() <= 63,
            r@ == dns_header(id) + encoded_labels(ls.take(k as int)),
        decreases labels.len() - k,
    {
        assert(ls.take(k + 1).drop_last() =~= ls.take(k as int));
        let label = &labels[k];
        r.push(label.len() as u8);
        let mut copy = slice_to_vec(label.as_slice());
        r.append(&mut copy);
        k = k + 1;
        assert(r@ =~= dns_header(id) + encoded_labels(ls.take(k as int)));
    }
    assert(ls.take(labels.len() as int) =~= ls);
    let tail: [u8; 5] = [0, 0, 1, 0, 1];
    let mut t = slice_to_vec(tail.as_slice());
    r.append(&mut t);
    assert(r@ =~= dns_a_query(id, ls));
    r
}

/// The query sent to UDP port 53: the A record of `www.example.com`.
pub fn dns_udp_query() -> (r: Vec<u8>)
    ensures
        r@ == dns_a_query(QUERY_ID, example_name()),
{
    let www: [u8; 3] = [119, 119, 119];
    let example: [u8; 7] = [101, 120, 97, 109, 112, 108, 101];
    let com: [u8; 3] = [99, 111, 109];
    let mut labels: Vec<Vec<u8>> = Vec::new();
    labels.push(slice_to_vec(www.as_slice()));
    labels.push(slice_to_vec(example.as_slice()));
    labels.push(slice_to_vec(com.as_slice()));
    assert(labels@.map_values(|l: Vec<u8>| l@) =~= example_name());
    build_dns_query(QUERY_ID, &labels)
}

/// The DNS probe's query over TCP: the root's A record, length-prefixed.
pub fn dns_tcp_query() -> (r: Vec<u8>)
    ensures
        r@ == tcp_framed(dns_a_query(QUERY_ID, Seq::empty())),
{
    let labels: Vec<Vec<u8>> = Vec::new();
    assert(labels@.map_values(|l: Vec<u8>| l@) =~= Seq::<Seq<u8>>::empty());
    let q = build_dns_query(QUERY_ID, &labels);
    let mut r: Vec<u8> = Vec::new();
    r.push((q.len() / 256) as u8);
    r.push((q.len() % 256) as u8);
    let mut body = q;
    r.append(&mut body);
    r
}

/// What a probe sends once connected, before its first read.
pub open spec fn request_of(p: Protocol) -> Seq<u8> {
    match p {
        Protocol::Http => http_request(),
        Protocol::Dns => tcp_framed(dns_a_query(QUERY_ID, Seq::empty())),
        _ => Seq::empty(),
    }
}

/// The bytes a probe sends once connected (empty: it only listens).
pub fn probe_request(p: Protocol) -> (r: Vec<u8>)
    ensures
        r@ == request_of(p),
{
    match p {
        Protocol::Http => {
            let h: [u8; 19] = [72, 69, 65, 68, 32, 47, 32, 72, 84, 84, 80, 47, 49, 46, 48, 13, 10, 13, 10];
            assert(h@ =~= http_request());
            slice_to_vec(h.as_slice())
        },
        Protocol::Dns => dns_tcp_query(),
        _ => Vec::new(),
    }
}

/// What the UDP scan sends to a port: a DNS query to port 53, else one zero byte.
pub open spec fn udp_payload_of(port: u16) -> Seq<u8> {
    if port == 53 {
        dns_a_query(QUERY_ID, example_name())
    } else {
        seq![0u8]
    }
}

/// The datagram the UDP scan sends to a port.
pub fn udp_probe_payload(port: u16) -> (r: Vec<u8>)
    ensures
        r@ == udp_payload_of(port),
{
    if port == 53 {
        dns_udp_query()
    } else {
        let mut r: Vec<u8> = Vec::new();
        r.push(0);
        r
    }
}

/// Whether a datagram answers the DNS probe query.
pub fn dns_udp_reply_matches_query(b: &[u8]) -> (r: bool)
    ensures
        r == dns_udp_reply_matches(b@),
{
    b.len() >= 2 && b[0] == 0x12 && b[1] == 0x34
}

} // verus!
