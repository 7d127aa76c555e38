//! MAC fingerprinting over ARP: choosing the interface, the request frame
//! (Ethernet II carrying an ARP request) and the reading of replies.
use vstd::prelude::*;
use vstd::slice::slice_to_vec;
use crate::target::{Ipv4, ipv4_octets};
use crate::text::string_from_chars;

verus! {

/// A hardware (Ethernet) address, most significant octet first.
#[derive(Clone, Copy, Debug, PartialEq, Eq, Structural, Hash)]
pub struct MacAddress(pub u8, pub u8, pub u8, pub u8, pub u8, pub u8);

pub open spec fn hex_digit(d: nat) -> char {
    if d < 10 {
        ((48 + d) as u8) as char
    } else {
        ((87 + d) as u8) as char
    }
}

/// Two lowercase hex digits.
pub open spec fn hex_byte(b: u8) -> Seq<char> {
    seq![hex_digit(b as nat / 16), hex_digit(b as nat % 16)]
}

/// `aa:bb:cc:dd:ee:ff`, lowercase.
pub open spec fn mac_text(o: Seq<u8>) -> Seq<char> {
    hex_byte(o[0]) + seq![':'] + hex_byte(o[1]) + seq![':'] + hex_byte(o[2]) + seq![':']
        + hex_byte(o[3]) + seq![':'] + hex_byte(o[4]) + seq![':'] + hex_byte(o[5])
}

fn hex_digit_of(d: u8) -> (r: char)
    requires
        d < 16,
    ensures
        r == hex_digit(d as nat),
{
    if d < 10 {
        ((48 + d) as u8) as char
    } else {
        ((87 + d) as u8) as char
    }
}

impl MacAddress {
    pub open spec fn octets(&self) -> Seq<u8> {
        seq![self.0, self.1, self.2, self.3, self.4, self.5]
    }

    /// The address as six colon-separated pairs of lowercase hex digits.
    pub fn to_text(&self) -> (r: String)
        ensures
            r@ == mac_text(self.octets()),
    {
        let mut t: Vec<char> = Vec::new();
        push_hex_byte(&mut t, self.0);
        t.push(':');
        push_hex_byte(&mut t, self.1);
        t.push(':');
        push_hex_byte(&mut t, self.2);
        t.push(':');
        push_hex_byte(&mut t, self.3);
        t.push(':');
        push_hex_byte(&mut t, self.4);
        t.push(':');
        push_hex_byte(&mut t, self.5);
        assert(t@ =~= mac_text(self.octets()));
        string_from_chars(&t)
    }

    /// The all-ones broadcast address.
    pub fn broadcast() -> (r: MacAddress)
        ensures
            r.octets() == seq![255u8, 255, 255, 255, 255, 255],
    {
        MacAddress(255, 255, 255, 255, 255, 255)
    }
}

fn push_hex_byte(t: &mut Vec<char>, b: u8)
    ensures
        final(t)@ == old(t)@ + hex_byte(b),
{
    t.push(hex_digit_of(b / 16));
    t.push(hex_digit_of(b % 16));
    assert(t@ =~= old(t)@ + hex_byte(b));
}

/// What the library needs to know of a network interface.
#[derive(Clone, Debug)]
pub struct InterfaceInfo {
    pub is_up: bool,
    pub is_loopback: bool,
    pub mac: Option<MacAddress>,
    pub ipv4: Vec<Ipv4>,
}

/// An interface that can send the ARP request: up, not loopback, with a
/// hardware address and an IPv4 address.
pub open spec fn suitable(i: InterfaceInfo) -> bool {
    i.is_up && !i.is_loopback && i.mac is Some && i.ipv4.len() > 0
}

/// The first suitable interface, if any.
pub fn select_interface(ifaces: &Vec<InterfaceInfo>) -> (r: Option<usize>)
    ensures
        match r {
            Some(k) => k < ifaces.len() && suitable(ifaces[k as int]) && forall|j: int|
                0 <= j < k ==> !suitable(#[trigger] ifaces[j]),
            None => forall|j: int| 0 <= j < ifaces.len() ==> !suitable(#[trigger] ifaces[j]),
        },
{
    let mut k: usize = 0;
    while k < ifaces.len()
        invariant
            k <= ifaces.len(),
            forall|j: int| 0 <= j < k ==> !suitable(#[trigger] ifaces[j]),
        decreases ifaces.len() - k,
    {
        let i = &ifaces[k];
        if i.is_up && !i.is_loopback && i.mac.is_some() && i.ipv4.len() > 0 {
            return Some(k);
        }
        k = k + 1;
    }
    None
}

/// An Ethernet II broadcast frame carrying an ARP request from `src_mac`,
/// `src_ip` asking for `target`'s hardware address.
pub open spec fn arp_request_frame(src_mac: MacAddress, src_ip: Ipv4, target: Ipv4) -> Seq<u8> {
    seq![255u8, 255, 255, 255, 255, 255] + src_mac.octets() + seq![0x08u8, 0x06]
        + seq![0u8, 1, 0x08, 0x00, 6, 4, 0, 1] + src_mac.octets() + ipv4_octets(src_ip.bits)
        + seq![0u8, 0, 0, 0, 0, 0] + ipv4_octets(target.bits)
}

fn push_all(v: &mut Vec<u8>, s: &[u8])
    ensures
        final(v)@ == old(v)@ + s@,
{
    let mut t = slice_to_vec(s);
    v.append(&mut t);
}

/// Builds the 42-byte ARP request frame.
pub fn build_arp_request(src_mac: MacAddress, src_ip: Ipv4, target: Ipv4) -> (r: Vec<u8>)
    ensures
        r@ == arp_request_frame(src_mac, src_ip, target),
        r@.len() == 42,
{
    let bcast: [u8; 6] = [255, 255, 255, 255, 255, 255];
    let mac: [u8; 6] = [src_mac.0, src_mac.1, src_mac.2, src_mac.3, src_mac.4, src_mac.5];
    assert(mac@ =~= src_mac.octets());
    let ethertype: [u8; 2] = [0x08, 0x06];
    let header: [u8; 8] = [0, 1, 0x08, 0x00, 6, 4, 0, 1];
    let zero: [u8; 6] = [0, 0, 0, 0, 0, 0];
    let sip = src_ip.octets();
    let tip = target.octets();
    let mut r: Vec<u8> = Vec::new();
    push_all(&mut r, bcast.as_slice());
    push_all(&mut r, mac.as_slice());
    push_all(&mut r, ethertype.as_slice());
    push_all(&mut r, header.as_slice());
    push_all(&mut r, mac.as_slice());
    push_all(&mut r, sip.as_slice());
    push_all(&mut r, zero.as_slice());
    push_all(&mut r, tip.as_slice());
    assert(bcast@ =~= seq![255u8, 255, 255, 255, 255, 255]);
    assert(ethertype@ =~= seq![0x08u8, 0x06]);
    assert(header@ =~= seq![0u8, 1, 0x08, 0x00, 6, 4, 0, 1]);
    assert(zero@ =~= seq![0u8, 0, 0, 0, 0, 0]);
    assert(r@ =~= arp_request_frame(src_mac, src_ip, target));
    r
}

/// The sender's hardware address if `frame` is an ARP reply (opcode 2)
/// whose sender protocol address is `target`.
pub open spec fn arp_reply_from(frame: Seq<u8>, target: Ipv4) -> Option<MacAddress> {
    if frame.len() >= 42 && frame[12] == 0x08 && frame[13] == 0x06 && frame[20] == 0 && frame[21]
        == 2 && frame.subrange(28, 32) == ipv4_octets(target.bits) {
        Some(MacAddress(frame[22], frame[23], frame[24], frame[25], frame[26], frame[27]))
    } else {
        None
    }
}

/// Reads a received frame: the hardware address of `target` if the frame
/// is its ARP reply.
pub fn arp_reply_sender(frame: &[u8], target: Ipv4) -> (r: Option<MacAddress>)
    ensures
        r == arp_reply_from(frame@, target),
{
    if frame.len() < 42 || frame[12] != 0x08 || frame[13] != 0x06 || frame[20] != 0 || frame[21]
        != 2 {
        return None;
    }
    let t = target.octets();
    if frame[28] != t[0] || frame[29] != t[1] || frame[30] != t[2] || frame[31] != t[3] {
        assert(frame@.subrange(28, 32) != ipv4_octets(target.bits) ) by {
            if frame@.subrange(28, 32) == ipv4_octets(target.bits) {
                assert(frame@.subrange(28, 32)[0] == frame@[28]);
                assert(frame@.subrange(28, 32)[1] == frame@[29]);
                assert(frame@.subrange(28, 32)[2] == frame@[30]);
                assert(frame@.subrange(28, 32)[3] == frame@[31]);
            }
        }
        return None;
    }
    assert(frame@.subrange(28, 32) =~= ipv4_octets(target.bits));
    Some(MacAddress(frame[22], frame[23], frame[24], frame[25], frame[26], frame[27]))
}

/// What MAC fingerprinting learned of a host.
#[derive(Debug, Clone, PartialEq, Eq)]
pub struct MacFingerprint {
    pub mac: Option<MacAddress>,
    pub vendor: Option<String>,
    pub error: Option<String>,
}

impl MacFingerprint {
    /// The host answered with this hardware address; no vendor database is
    /// consulted.
    pub fn found(mac: MacAddress) -> (r: MacFingerprint)
        ensures
            r.mac == Some(mac),
            r.vendor is None,
            r.error is None,
    {
        MacFingerprint { mac: Some(mac), vendor: None, error: None }
    }

    /// Fingerprinting failed for the given reason.
    pub fn failed(reason: String) -> (r: MacFingerprint)
        ensures
            r.mac is None,
            r.vendor is None,
            r.error == Some(reason),
    {
        MacFingerprint { mac: None, vendor: None, error: Some(reason) }
    }

    /// No reply came within the deadline.
    pub fn no_reply() -> (r: MacFingerprint)
        ensures
            r.mac is None,
            r.vendor is None,
            r.error is Some && r.error->0@ == "No ARP reply received"@,
    {
        MacFingerprint::failed("No ARP reply received".to_string())
    }

    /// No interface could send the request.
    pub fn no_interface() -> (r: MacFingerprint)
        ensures
            r.mac is None,
            r.vendor is None,
            r.error is Some && r.error->0@ == "No suitable network interface found"@,
    {
        MacFingerprint::failed("No suitable network interface found".to_string())
    }
}

} // verus!
