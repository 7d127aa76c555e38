//! Host fingerprints: the TTL-based operating system guess, the hardware
//! address from ARP, and the banners of the probes that identified a
//! service, gathered into one record.
use vstd::prelude::*;
use crate::arp::{MacFingerprint, mac_text};
use crate::ping::{LiveHost, os_guess_of, guess_os_from_ttl};
use crate::ports::{decimal_text, decimal_chars};
use crate::probes::{Protocol, protocol_name};
use crate::target::Ipv4;
use crate::text::{push_str_chars, string_from_chars};

verus! {

/// What fingerprinting learned of one host.
#[derive(Debug, Clone)]
pub struct HostFingerprintResult {
    pub ip: Ipv4,
    pub details: Option<String>,
    pub os: Option<String>,
    pub vendor: Option<String>,
    pub serial: Option<String>,
    pub mac: Option<String>,
}

impl HostFingerprintResult {
    /// A record for `ip` with nothing learned yet.
    pub fn new(ip: Ipv4) -> (r: Self)
        ensures
            r.ip == ip,
            r.details is None,
            r.os is None,
            r.vendor is None,
            r.serial is None,
            r.mac is None,
    {
        Self { ip, details: None, os: None, vendor: None, serial: None, mac: None }
    }
}

/// A probe run during fingerprinting, on one port.
#[derive(Debug, Clone)]
pub struct PortFinding {
    pub protocol: Protocol,
    pub port: u16,
    pub detected: bool,
    pub banner: Option<String>,
}

pub open spec fn opt_text(s: Option<String>) -> Seq<char> {
    match s {
        Some(t) => t@,
        None => Seq::empty(),
    }
}

/// The detail line for a TTL.
pub open spec fn os_line(ttl: u8) -> Seq<char> {
    "\nOS guess from TTL "@ + decimal_text(ttl as nat) + ": "@ + os_guess_of(ttl)
}

/// What ARP contributes: the address, the vendor, the error, each if known.
pub open spec fn mac_lines(m: MacFingerprint) -> Seq<char> {
    (if m.mac is Some {
        "\nMAC: "@ + mac_text(m.mac->0.octets())
    } else {
        Seq::empty()
    }) + (if m.vendor is Some {
        " (Vendor: "@ + m.vendor->0@ + ")"@
    } else {
        Seq::empty()
    }) + (if m.error is Some {
        "\nMAC error: "@ + m.error->0@
    } else {
        Seq::empty()
    })
}

/// The detail line of a probe that identified its protocol; DNS gives no
/// banner.
pub open spec fn finding_line(f: PortFinding) -> Seq<char> {
    if !f.detected {
        Seq::empty()
    } else if f.protocol == Protocol::Dns {
        "\n"@ + protocol_name(f.protocol) + " detected on port "@ + decimal_text(f.port as nat)
    } else {
        "\n"@ + protocol_name(f.protocol) + " detected on port "@ + decimal_text(f.port as nat)
            + ": "@ + opt_text(f.banner)
    }
}

/// The lines of the findings, in order.
pub open spec fn finding_lines(fs: Seq<PortFinding>) -> Seq<char>
    decreases fs.len(),
{
    if fs.len() == 0 {
        Seq::empty()
    } else {
        finding_lines(fs.drop_last()) + finding_line(fs.last())
    }
}

/// The fingerprint's details: the OS guess, the ARP result, then the
/// probe banners.
pub open spec fn fingerprint_details(host: LiveHost, m: MacFingerprint, fs: Seq<PortFinding>) -> Seq<char> {
    (if host.ttl is Some {
        os_line(host.ttl->0)
    } else {
        Seq::empty()
    }) + mac_lines(m) + finding_lines(fs)
}

fn push_finding(t: &mut Vec<char>, f: &PortFinding)
    ensures
        final(t)@ == old(t)@ + finding_line(*f),
{
    if f.detected {
        proof {
            reveal_strlit("\n");
        }
        t.push('\n');
        push_str_chars(t, f.protocol.name());
        push_str_chars(t, " detected on port ");
        let mut d = decimal_chars(f.port as u64);
        t.append(&mut d);
        if f.protocol != Protocol::Dns {
            push_str_chars(t, ": ");
            match &f.banner {
                Some(b) => push_str_chars(t, b.as_str()),
                None => {},
            }
        }
        assert(t@ =~= old(t)@ + finding_line(*f));
    } else {
        assert(t@ =~= old(t)@ + finding_line(*f));
    }
}

fn push_os_line(t: &mut Vec<char>, ttl: u8) -> (guess: &'static str)
    ensures
        final(t)@ == old(t)@ + os_line(ttl),
        guess@ == os_guess_of(ttl),
{
    let guess = guess_os_from_ttl(ttl);
    push_str_chars(t, "\nOS guess from TTL ");
    let mut d = decimal_chars(ttl as u64);
    t.append(&mut d);
    push_str_chars(t, ": ");
    push_str_chars(t, guess);
    assert(t@ =~= old(t)@ + os_line(ttl));
    guess
}

fn push_mac_lines(t: &mut Vec<char>, mac: &MacFingerprint) -> (text: Option<String>)
    ensures
        final(t)@ == old(t)@ + mac_lines(*mac),
        mac.mac is Some ==> (text is Some && text->0@ == mac_text(mac.mac->0.octets())),
        mac.mac is None ==> text is None,
{
    let text = match mac.mac {
        Some(m) => {
            let text = m.to_text();
            push_str_chars(t, "\nMAC: ");
            push_str_chars(t, text.as_str());
            Some(text)
        },
        None => None,
    };
    let ghost after_mac = t@;
    match &mac.vendor {
        Some(v) => {
            push_str_chars(t, " (Vendor: ");
            push_str_chars(t, v.as_str());
            push_str_chars(t, ")");
        },
        None => {},
    }
    let ghost after_vendor = t@;
    match &mac.error {
        Some(e) => {
            push_str_chars(t, "\nMAC error: ");
            push_str_chars(t, e.as_str());
        },
        None => {},
    }
    assert(t@ =~= old(t)@ + mac_lines(*mac));
    text
}

fn push_finding_lines(t: &mut Vec<char>, findings: &Vec<PortFinding>)
    ensures
        final(t)@ == old(t)@ + finding_lines(findings@),
{
    let ghost before = t@;
    let mut k: usize = 0;
    while k < findings.len()
        invariant
            k <= findings.len(),
            t@ == before + finding_lines(findings@.take(k as int)),
        decreases findings.len() - k,
    {
        assert(findings@.take(k + 1).drop_last() =~= findings@.take(k as int));
        push_finding(t, &findings[k]);
        k = k + 1;
        assert(t@ =~= before + finding_lines(findings@.take(k as int)));
    }
    assert(findings@.take(findings.len() as int) =~= findings@);
}

/// Gathers what was learned of a live host: the OS guess from its reply
/// TTL, the hardware address (and vendor, or the failure) from ARP, and a
/// line for each probe that identified its protocol, in the order given.
/// Details stay absent when nothing was learned.
pub fn fingerprint_host(host: &LiveHost, mac: &MacFingerprint, findings: &Vec<PortFinding>) -> (r: HostFingerprintResult)
    ensures
        r.ip == host.ip,
        opt_text(r.details) == fingerprint_details(*host, *mac, findings@),
        r.details is None <==> fingerprint_details(*host, *mac, findings@).len() == 0,
        host.ttl is Some ==> (r.os is Some && r.os->0@ == os_guess_of(host.ttl->0)),
        host.ttl is None ==> r.os is None,
        mac.mac is Some ==> (r.mac is Some && r.mac->0@ == mac_text(mac.mac->0.octets())),
        mac.mac is None ==> r.mac is None,
        r.vendor == mac.vendor,
        r.serial is None,
{
    let mut r = HostFingerprintResult::new(host.ip);
    let mut t: Vec<char> = Vec::new();
    match host.ttl {
        Some(ttl) => {
            let guess = push_os_line(&mut t, ttl);
            r.os = Some(guess.to_string());
        },
        None => {},
    }
    let ghost after_os = t@;
    r.mac = push_mac_lines(&mut t, mac);
    r.vendor = mac.vendor.clone();
    push_finding_lines(&mut t, findings);
    assert(t@ =~= fingerprint_details(*host, *mac, findings@));
    if t.len() > 0 {
        r.details = Some(string_from_chars(&t));
    }
    r
}

} // verus!
