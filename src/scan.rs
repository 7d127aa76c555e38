//! TCP and UDP port scans: how each probe's outcome is recorded, and the
//! schedule that hands out (host, port) probes without ever exceeding the
//! concurrency bound.
use vstd::prelude::*;
use crate::target::{Ipv4, ipv4_text};
use crate::ports::{decimal_text, decimal_chars};
use crate::text::{chars_of, push_str_chars, string_from_chars};

verus! {

/// How many TCP connects may be in flight at once.
pub const TCP_CAPACITY: usize = 100;

/// How many UDP and service probes may be in flight at once.
pub const PROBE_CAPACITY: usize = 64;

/// Seconds a TCP connect may take.
pub const TCP_CONNECT_TIMEOUT_SECS: u64 = 3;

/// Seconds the UDP scan waits for a datagram.
pub const UDP_RESPONSE_TIMEOUT_SECS: u64 = 4;

/// How a TCP connect attempt ended.
#[derive(Clone, Debug, PartialEq, Eq)]
pub enum TcpOutcome {
    Connected,
    Refused,
    Reset,
    Unreachable,
    TimedOut,
    /// Any other failure, such as local resource exhaustion.
    Failed(String),
}

/// How a UDP probe ended.
#[derive(Clone, Debug, PartialEq, Eq)]
pub enum UdpOutcome {
    /// A datagram came back.
    Answered,
    /// Nothing came back in time, or receiving failed.
    Silent,
    /// The datagram could not be sent.
    SendFailed,
    /// A local socket failure (bind, connect).
    Failed(String),
}

/// `<prefix><ip>:<port> - <reason>`.
pub open spec fn probe_error_text(prefix: Seq<char>, ip: Ipv4, port: u16, reason: Seq<char>) -> Seq<char> {
    prefix + ipv4_text(ip.bits) + seq![':'] + decimal_text(port as nat) + " - "@ + reason
}

fn probe_error(prefix: &str, ip: Ipv4, port: u16, reason: &str) -> (r: String)
    ensures
        r@ == probe_error_text(prefix@, ip, port, reason@),
{
    let mut t = chars_of(prefix);
    let ip_text = ip.to_text();
    push_str_chars(&mut t, ip_text.as_str());
    t.push(':');
    let mut p = decimal_chars(port as u64);
    t.append(&mut p);
    push_str_chars(&mut t, " - ");
    push_str_chars(&mut t, reason);
    string_from_chars(&t)
}

/// `<title>\nTotal open ports: <n>\nTotal errors: <m>`.
pub open spec fn summary_text(title: Seq<char>, open: nat, errors: nat) -> Seq<char> {
    title + "\nTotal open ports: "@ + decimal_text(open) + "\nTotal errors: "@ + decimal_text(errors)
}

fn summary_string(title: &str, open: usize, errors: usize) -> (r: String)
    ensures
        r@ == summary_text(title@, open as nat, errors as nat),
{
    let mut t = chars_of(title);
    push_str_chars(&mut t, "\nTotal open ports: ");
    let mut a = decimal_chars(open as u64);
    t.append(&mut a);
    push_str_chars(&mut t, "\nTotal errors: ");
    let mut b = decimal_chars(errors as u64);
    t.append(&mut b);
    string_from_chars(&t)
}

/// The open ports and the errors of a TCP scan.
pub struct TcpScanResult {
    open_ports: Vec<(Ipv4, u16)>,
    errors: Vec<(Ipv4, String)>,
}

impl TcpScanResult {
    pub closed spec fn open_view(&self) -> Seq<(Ipv4, u16)> {
        self.open_ports@
    }

    pub closed spec fn error_view(&self) -> Seq<(Ipv4, String)> {
        self.errors@
    }

    pub fn new() -> (r: Self)
        ensures
            r.open_view().len() == 0,
            r.error_view().len() == 0,
    {
        Self { open_ports: Vec::new(), errors: Vec::new() }
    }

    pub fn add_open_port(&mut self, ip: Ipv4, port: u16)
        ensures
            final(self).open_view() == old(self).open_view().push((ip, port)),
            final(self).error_view() == old(self).error_view(),
    {
        self.open_ports.push((ip, port));
    }

    pub fn add_error(&mut self, ip: Ipv4, error: String)
        ensures
            final(self).open_view() == old(self).open_view(),
            final(self).error_view() == old(self).error_view().push((ip, error)),
    {
        self.errors.push((ip, error));
    }

    pub fn get_open_ports(&self) -> (r: &Vec<(Ipv4, u16)>)
        ensures
            r@ == self.open_view(),
    {
        &self.open_ports
    }

    pub fn get_errors(&self) -> (r: &Vec<(Ipv4, String)>)
        ensures
            r@ == self.error_view(),
    {
        &self.errors
    }

    /// Records a connect attempt: success means open; refused, reset,
    /// unreachable and timed out are negative results; any other failure is
    /// an error.
    pub fn record(&mut self, ip: Ipv4, port: u16, outcome: TcpOutcome)
        ensures
            outcome is Connected ==> final(self).open_view() == old(self).open_view().push((ip, port)),
            !(outcome is Connected) ==> final(self).open_view() == old(self).open_view(),
            outcome is Failed ==> final(self).error_view().len() == old(self).error_view().len() + 1
                && final(self).error_view().drop_last() == old(self).error_view()
                && final(self).error_view().last().0 == ip
                && final(self).error_view().last().1@ == probe_error_text(
                "Error connecting to "@,
                ip,
                port,
                outcome->Failed_0@,
            ),
            !(outcome is Failed) ==> final(self).error_view() == old(self).error_view(),
    {
        match outcome {
            TcpOutcome::Connected => self.add_open_port(ip, port),
            TcpOutcome::Failed(reason) => {
                let e = probe_error("Error connecting to ", ip, port, reason.as_str());
                self.add_error(ip, e);
                assert(self.errors@.drop_last() =~= old(self).errors@);
            },
            _ => {},
        }
    }

    /// The scan's summary, one line each: completion, open ports, errors.
    pub fn summary(&self) -> (r: String)
        ensures
            r@ == summary_text(
                "TCP scan completed."@,
                self.open_view().len(),
                self.error_view().len(),
            ),
    {
        summary_string("TCP scan completed.", self.open_ports.len(), self.errors.len())
    }
}

/// The open ports and the errors of a UDP scan.
pub struct UdpScanResult {
    open_ports: Vec<(Ipv4, u16)>,
    errors: Vec<(Ipv4, String)>,
}

impl UdpScanResult {
    pub closed spec fn open_view(&self) -> Seq<(Ipv4, u16)> {
        self.open_ports@
    }

    pub closed spec fn error_view(&self) -> Seq<(Ipv4, String)> {
        self.errors@
    }

    pub fn new() -> (r: Self)
        ensures
            r.open_view().len() == 0,
            r.error_view().len() == 0,
    {
        Self { open_ports: Vec::new(), errors: Vec::new() }
    }

    pub fn add_open_port(&mut self, ip: Ipv4, port: u16)
        ensures
            final(self).open_view() == old(self).open_view().push((ip, port)),
            final(self).error_view() == old(self).error_view(),
    {
        self.open_ports.push((ip, port));
    }

    pub fn add_error(&mut self, ip: Ipv4, error: String)
        ensures
            final(self).open_view() == old(self).open_view(),
            final(self).error_view() == old(self).error_view().push((ip, error)),
    {
        self.errors.push((ip, error));
    }

    pub fn get_open_ports(&self) -> (r: &Vec<(Ipv4, u16)>)
        ensures
            r@ == self.open_view(),
    {
        &self.open_ports
    }

    pub fn get_errors(&self) -> (r: &Vec<(Ipv4, String)>)
        ensures
            r@ == self.error_view(),
    {
        &self.errors
    }

    /// Records a UDP probe: any datagram means open; silence and send
    /// failures are negative results; local socket failures are errors.
    pub fn record(&mut self, ip: Ipv4, port: u16, outcome: UdpOutcome)
        ensures
            outcome is Answered ==> final(self).open_view() == old(self).open_view().push((ip, port)),
            !(outcome is Answered) ==> final(self).open_view() == old(self).open_view(),
            outcome is Failed ==> final(self).error_view().len() == old(self).error_view().len() + 1
                && final(self).error_view().drop_last() == old(self).error_view()
                && final(self).error_view().last().0 == ip
                && final(self).error_view().last().1@ == probe_error_text(
                "Error on "@,
                ip,
                port,
                outcome->Failed_0@,
            ),
            !(outcome is Failed) ==> final(self).error_view() == old(self).error_view(),
    {
        match outcome {
            UdpOutcome::Answered => self.add_open_port(ip, port),
            UdpOutcome::Failed(reason) => {
                let e = probe_error("Error on ", ip, port, reason.as_str());
                self.add_error(ip, e);
                assert(self.errors@.drop_last() =~= old(self).errors@);
            },
            _ => {},
        }
    }

    /// The scan's summary, one line each: completion, open ports, errors.
    pub fn summary(&self) -> (r: String)
        ensures
            r@ == summary_text(
                "UDP scan completed."@,
                self.open_view().len(),
                self.error_view().len(),
            ),
    {
        summary_string("UDP scan completed.", self.open_ports.len(), self.errors.len())
    }
}

/// The ports of `start..end`, ascending (none when `end <= start`).
pub open spec fn range_ports(start: u16, end: u16) -> Seq<u16> {
    Seq::new(
        if start < end {
            (end - start) as nat
        } else {
            0
        },
        |i: int| (start + i) as u16,
    )
}

/// Lists the ports of `start..end`.
pub fn ports_in_range(start: u16, end: u16) -> (r: Vec<u16>)
    ensures
        r@ == range_ports(start, end),
{
    let mut r: Vec<u16> = Vec::new();
    if start < end {
        let mut p: u16 = start;
        while p < end
            invariant
                start <= p <= end,
                r@ == range_ports(start, p),
            decreases end - p,
        {
            r.push(p);
            p = p + 1;
            assert(r@ =~= range_ports(start, p));
        }
    } else {
        assert(r@ =~= range_ports(start, end));
    }
    r
}

/// The probes for one host: each of the ports, in order.
pub open spec fn host_pairs(h: Ipv4, ports: Seq<u16>) -> Seq<(Ipv4, u16)> {
    ports.map_values(|p: u16| (h, p))
}

/// The probes of a scan: every host in order, each with every port.
pub open spec fn scan_pairs(hosts: Seq<Ipv4>, ports: Seq<u16>) -> Seq<(Ipv4, u16)>
    decreases hosts.len(),
{
    if hosts.len() == 0 {
        Seq::empty()
    } else {
        scan_pairs(hosts.drop_last(), ports) + host_pairs(hosts.last(), ports)
    }
}

/// An empty port range asks for no probe, whatever the hosts.
pub proof fn lemma_empty_range_no_probes(hosts: Seq<Ipv4>, start: u16, end: u16)
    requires
        end <= start,
    ensures
        scan_pairs(hosts, range_ports(start, end)).len() == 0,
    decreases hosts.len(),
{
    if hosts.len() > 0 {
        lemma_empty_range_no_probes(hosts.drop_last(), start, end);
    }
}

/// The probes of a scan, handed out in order, with at most `capacity` of
/// them in flight at any time.
pub struct ProbeSchedule {
    jobs: Vec<(Ipv4, u16)>,
    next: usize,
    in_flight: usize,
    capacity: usize,
}

impl ProbeSchedule {
    pub closed spec fn jobs(&self) -> Seq<(Ipv4, u16)> {
        self.jobs@
    }

    /// How many probes have been handed out.
    pub closed spec fn started(&self) -> nat {
        self.next as nat
    }

    pub closed spec fn running(&self) -> nat {
        self.in_flight as nat
    }

    pub closed spec fn bound(&self) -> nat {
        self.capacity as nat
    }

    pub closed spec fn wf(&self) -> bool {
        &&& self.next <= self.jobs.len()
        &&& self.in_flight <= self.next
        &&& self.in_flight <= self.capacity
    }

    /// A schedule for every port on every host, host by host.
    pub fn new(hosts: &Vec<Ipv4>, ports: &Vec<u16>, capacity: usize) -> (r: Self)
        requires
            hosts.len() * ports.len() <= usize::MAX,
        ensures
            r.wf(),
            r.jobs() == scan_pairs(hosts@, ports@),
            r.started() == 0,
            r.running() == 0,
            r.bound() == capacity,
    {
        let mut jobs: Vec<(Ipv4, u16)> = Vec::new();
        let mut k: usize = 0;
        while k < hosts.len()
            invariant
                k <= hosts.len(),
                hosts.len() * ports.len() <= usize::MAX,
                jobs@ == scan_pairs(hosts@.take(k as int), ports@),
                jobs.len() == k * ports.len(),
            decreases hosts.len() - k,
        {
            assert(hosts@.take(k + 1).drop_last() =~= hosts@.take(k as int));
            let h = hosts[k];
            let ghost before = jobs@;
            assert(jobs.len() + ports.len() <= usize::MAX) by (nonlinear_arith)
                requires
                    jobs.len() == k * ports.len(),
                    k < hosts.len(),
                    hosts.len() * ports.len() <= usize::MAX,
            ;
            let mut j: usize = 0;
            while j < ports.len()
                invariant
                    j <= ports.len(),
                    jobs@ == before + host_pairs(h, ports@.take(j as int)),
                    jobs.len() == before.len() + j,
                decreases ports.len() - j,
            {
                jobs.push((h, ports[j]));
                j = j + 1;
                assert(jobs@ =~= before + host_pairs(h, ports@.take(j as int)));
            }
            assert(ports@.take(ports.len() as int) =~= ports@);
            assert(hosts@.take(k + 1).last() == h);
            assert(jobs.len() == (k + 1) * ports.len()) by (nonlinear_arith)
                requires
                    jobs.len() == before.len() + ports.len(),
                    before.len() == k * ports.len(),
            ;
            k = k + 1;
        }
        assert(hosts@.take(hosts.len() as int) =~= hosts@);
        ProbeSchedule { jobs, next: 0, in_flight: 0, capacity }
    }

    /// Hands out the next probe if one is left and a slot is free.
    pub fn start_next(&mut self) -> (r: Option<(Ipv4, u16)>)
        requires
            old(self).wf(),
        ensures
            final(self).wf(),
            final(self).running() <= final(self).bound(),
            final(self).jobs() == old(self).jobs(),
            final(self).bound() == old(self).bound(),
            (old(self).running() < old(self).bound() && old(self).started() < old(self).jobs().len())
                ==> (r == Some(old(self).jobs()[old(self).started() as int])
                && final(self).started() == old(self).started() + 1
                && final(self).running() == old(self).running() + 1),
            !(old(self).running() < old(self).bound() && old(self).started() < old(self).jobs().len())
                ==> (r is None && final(self).started() == old(self).started()
                && final(self).running() == old(self).running()),
    {
        if self.in_flight < self.capacity && self.next < self.jobs.len() {
            let job = self.jobs[self.next];
            self.next = self.next + 1;
            self.in_flight = self.in_flight + 1;
            Some(job)
        } else {
            None
        }
    }

    /// Marks one running probe as finished, freeing its slot.
    pub fn finish(&mut self)
        requires
            old(self).wf(),
            old(self).running() > 0,
        ensures
            final(self).wf(),
            final(self).running() <= final(self).bound(),
            final(self).jobs() == old(self).jobs(),
            final(self).bound() == old(self).bound(),
            final(self).started() == old(self).started(),
            final(self).running() == old(self).running() - 1,
    {
        self.in_flight = self.in_flight - 1;
    }

    /// How many probes are running.
    pub fn in_flight(&self) -> (r: usize)
        ensures
            r == self.running(),
    {
        self.in_flight
    }

    /// Whether every probe was handed out and has finished.
    pub fn is_done(&self) -> (r: bool)
        ensures
            r == (self.started() == self.jobs().len() && self.running() == 0),
    {
        self.next == self.jobs.len() && self.in_flight == 0
    }
}

} // verus!
