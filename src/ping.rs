//! Ping sweep: ICMP echo frames, reply acceptance, and the partition of the
//! targets into live, silent and failed addresses.
use vstd::prelude::*;
use crate::target::{Cidr, Ipv4, lemma_block_ascending};

verus! {

/// The operating system family suggested by the TTL of an echo reply.
pub open spec fn os_guess_of(ttl: u8) -> Seq<char> {
    if 60 <= ttl <= 70 {
        "Linux/Unix"@
    } else if 120 <= ttl <= 130 {
        "Windows"@
    } else if 240 <= ttl {
        "Network Device/Router"@
    } else {
        "Unknown"@
    }
}

/// Guesses the operating system family from a reply's TTL (bounds inclusive).
pub fn guess_os_from_ttl(ttl: u8) -> (r: &'static str)
    ensures
        r@ == os_guess_of(ttl),
{
    if 60 <= ttl && ttl <= 70 {
        "Linux/Unix"
    } else if 120 <= ttl && ttl <= 130 {
        "Windows"
    } else if 240 <= ttl {
        "Network Device/Router"
    } else {
        "Unknown"
    }
}

/// Ones' complement addition of two 16-bit values.
pub open spec fn ones_add(a: nat, b: nat) -> nat {
    if a + b > 65535 {
        (a + b - 65535) as nat
    } else {
        a + b
    }
}

/// The `i`-th big-endian 16-bit word of `b`, an odd last byte padded with zero.
pub open spec fn word_at(b: Seq<u8>, i: int) -> nat {
    b[2 * i] as nat * 256 + (if 2 * i + 1 < b.len() {
        b[2 * i + 1] as nat
    } else {
        0
    })
}

pub open spec fn word_count(b: Seq<u8>) -> nat {
    (b.len() + 1) / 2
}

/// The ones' complement sum of the first `k` words.
pub open spec fn ones_sum(b: Seq<u8>, k: nat) -> nat
    decreases k,
{
    if k == 0 {
        0
    } else {
        ones_add(ones_sum(b, (k - 1) as nat), word_at(b, k - 1))
    }
}

/// The Internet checksum (RFC 1071): the complement of the ones' complement
/// sum of the 16-bit words.
pub open spec fn internet_checksum(b: Seq<u8>) -> nat {
    (65535 - ones_sum(b, word_count(b))) as nat
}

/// Computes the Internet checksum of `b`.
pub fn checksum(b: &[u8]) -> (r: u16)
    ensures
        r == internet_checksum(b@),
{
    let n = b.len();
    let words = n / 2 + n % 2;
    let mut sum: u32 = 0;
    let mut k: usize = 0;
    while k < words
        invariant
            n == b@.len(),
            words == word_count(b@),
            k <= words,
            sum == ones_sum(b@, k as nat),
            sum <= 65535,
        decreases words - k,
    {
        let hi = b[2 * k] as u32;
        let lo: u32 = if 2 * k + 1 < n {
            b[2 * k + 1] as u32
        } else {
            0
        };
        let w = hi * 256 + lo;
        assert(w == word_at(b@, k as int));
        sum = sum + w;
        if sum > 65535 {
            sum = sum - 65535;
        }
        k = k + 1;
    }
    (65535 - sum) as u16
}

/// The identifier and sequence number every echo request carries.
pub const ECHO_ID: u16 = 1;
pub const ECHO_SEQ: u16 = 1;

/// An echo request (type 8, code 0) with a zero checksum field.
pub open spec fn echo_unsummed(id: u16, seq: u16) -> Seq<u8> {
    seq![8u8, 0, 0, 0, (id / 256) as u8, (id % 256) as u8, (seq / 256) as u8, (seq % 256) as u8]
}

/// An echo request with its checksum in place.
pub open spec fn echo_request(id: u16, seq: u16) -> Seq<u8> {
    let c = internet_checksum(echo_unsummed(id, seq));
    echo_unsummed(id, seq).update(2, (c / 256) as u8).update(3, (c % 256) as u8)
}

/// Builds an ICMP echo request.
pub fn build_echo_request(id: u16, seq: u16) -> (r: Vec<u8>)
    ensures
        r@ == echo_request(id, seq),
{
    let mut r: Vec<u8> = Vec::new();
    r.push(8);
    r.push(0);
    r.push(0);
    r.push(0);
    r.push((id / 256) as u8);
    r.push((id % 256) as u8);
    r.push((seq / 256) as u8);
    r.push((seq % 256) as u8);
    assert(r@ =~= echo_unsummed(id, seq));
    let c = checksum(r.as_slice());
    r.set(2, (c / 256) as u8);
    r.set(3, (c % 256) as u8);
    r
}

/// A reply is accepted when it comes from the target and is an Echo Reply
/// (ICMP type 0).
pub open spec fn accepts_reply(source: Ipv4, icmp: Seq<u8>, target: Ipv4) -> bool {
    source == target && icmp.len() >= 1 && icmp[0] == 0
}

/// Whether a received ICMP message is the target's echo reply.
pub fn is_echo_reply_from(source: Ipv4, icmp: &[u8], target: Ipv4) -> (r: bool)
    ensures
        r == accepts_reply(source, icmp@, target),
{
    source.bits == target.bits && icmp.len() >= 1 && icmp[0] == 0
}

/// A host that answered the ping sweep, with the TTL of its reply.
#[derive(Clone, Copy, Debug, PartialEq, Eq, Structural)]
pub struct LiveHost {
    pub ip: Ipv4,
    pub ttl: Option<u8>,
}

/// How the ping of one address ended.
#[derive(Clone, Debug, PartialEq, Eq)]
pub enum PingOutcome {
    /// An echo reply came, with this TTL.
    Replied(u8),
    /// No reply before the deadline.
    TimedOut,
    /// Sending or receiving failed.
    Failed(String),
}

/// The live hosts among the targets, in order.
pub open spec fn live_of(ts: Seq<Ipv4>, os: Seq<PingOutcome>) -> Seq<LiveHost>
    decreases ts.len(),
{
    if ts.len() == 0 || os.len() == 0 {
        Seq::empty()
    } else {
        let init = live_of(ts.drop_last(), os.drop_last());
        match os.last() {
            PingOutcome::Replied(t) => init.push(LiveHost { ip: ts.last(), ttl: Some(t) }),
            _ => init,
        }
    }
}

/// The targets that stayed silent, in order.
pub open spec fn silent_of(ts: Seq<Ipv4>, os: Seq<PingOutcome>) -> Seq<Ipv4>
    decreases ts.len(),
{
    if ts.len() == 0 || os.len() == 0 {
        Seq::empty()
    } else {
        let init = silent_of(ts.drop_last(), os.drop_last());
        match os.last() {
            PingOutcome::TimedOut => init.push(ts.last()),
            _ => init,
        }
    }
}

/// The targets whose ping failed, with the reason, in order.
pub open spec fn failed_of(ts: Seq<Ipv4>, os: Seq<PingOutcome>) -> Seq<(Ipv4, String)>
    decreases ts.len(),
{
    if ts.len() == 0 || os.len() == 0 {
        Seq::empty()
    } else {
        let init = failed_of(ts.drop_last(), os.drop_last());
        match os.last() {
            PingOutcome::Failed(m) => init.push((ts.last(), m)),
            _ => init,
        }
    }
}

/// The ping sweep's partition of its targets.
#[derive(Debug)]
pub struct PingSweepResult {
    pub live: Vec<LiveHost>,
    pub not_alive: Vec<Ipv4>,
    pub errors: Vec<(Ipv4, String)>,
}

impl PingSweepResult {
    /// Sorts each target into live, not alive or failed by how its ping ended.
    pub fn from_outcomes(targets: &Vec<Ipv4>, outcomes: &Vec<PingOutcome>) -> (r: PingSweepResult)
        requires
            targets.len() == outcomes.len(),
        ensures
            r.live@ == live_of(targets@, outcomes@),
            r.not_alive@ == silent_of(targets@, outcomes@),
            r.errors@ == failed_of(targets@, outcomes@),
    {
        let mut r = PingSweepResult { live: Vec::new(), not_alive: Vec::new(), errors: Vec::new() };
        let mut k: usize = 0;
        while k < targets.len()
            invariant
                k <= targets.len(),
                targets.len() == outcomes.len(),
                r.live@ == live_of(targets@.take(k as int), outcomes@.take(k as int)),
                r.not_alive@ == silent_of(targets@.take(k as int), outcomes@.take(k as int)),
                r.errors@ == failed_of(targets@.take(k as int), outcomes@.take(k as int)),
            decreases targets.len() - k,
        {
            assert(targets@.take(k + 1).drop_last() =~= targets@.take(k as int));
            assert(outcomes@.take(k + 1).drop_last() =~= outcomes@.take(k as int));
            let ip = targets[k];
            match &outcomes[k] {
                PingOutcome::Replied(t) => r.live.push(LiveHost { ip, ttl: Some(*t) }),
                PingOutcome::TimedOut => r.not_alive.push(ip),
                PingOutcome::Failed(m) => r.errors.push((ip, m.clone())),
            }
            k = k + 1;
        }
        assert(targets@.take(targets.len() as int) =~= targets@);
        assert(outcomes@.take(outcomes.len() as int) =~= outcomes@);
        r
    }

    /// The addresses that answered.
    pub fn get_live_hosts(&self) -> (r: Vec<Ipv4>)
        ensures
            r@ == self.live@.map_values(|h: LiveHost| h.ip),
    {
        let mut r: Vec<Ipv4> = Vec::new();
        let mut k: usize = 0;
        while k < self.live.len()
            invariant
                k <= self.live.len(),
                r@ == self.live@.take(k as int).map_values(|h: LiveHost| h.ip),
            decreases self.live.len() - k,
        {
            r.push(self.live[k].ip);
            k = k + 1;
            assert(r@ =~= self.live@.take(k as int).map_values(|h: LiveHost| h.ip));
        }
        assert(self.live@.take(self.live.len() as int) =~= self.live@);
        r
    }
}

/// The live list holds an address exactly when one of its pings replied.
proof fn lemma_live_members(ts: Seq<Ipv4>, os: Seq<PingOutcome>, ip: Ipv4)
    requires
        ts.len() == os.len(),
    ensures
        (exists|k: int| 0 <= k < live_of(ts, os).len() && (#[trigger] live_of(ts, os)[k]).ip == ip)
            <==> (exists|j: int| 0 <= j < ts.len() && ts[j] == ip && #[trigger] os[j] is Replied),
    decreases ts.len(),
{
    if ts.len() > 0 {
        let (ti, oi) = (ts.drop_last(), os.drop_last());
        lemma_live_members(ti, oi, ip);
        let l = live_of(ts, os);
        let li = live_of(ti, oi);
        if exists|k: int| 0 <= k < l.len() && (#[trigger] l[k]).ip == ip {
            let k = choose|k: int| 0 <= k < l.len() && (#[trigger] l[k]).ip == ip;
            if k < li.len() {
                assert(l[k] == li[k]);
                let j = choose|j: int| 0 <= j < ti.len() && ti[j] == ip && #[trigger] oi[j] is Replied;
                assert(os[j] is Replied && ts[j] == ip);
            } else {
                assert(os[ts.len() - 1] is Replied);
            }
        }
        if exists|j: int| 0 <= j < ts.len() && ts[j] == ip && #[trigger] os[j] is Replied {
            let j = choose|j: int| 0 <= j < ts.len() && ts[j] == ip && #[trigger] os[j] is Replied;
            if j < ts.len() - 1 {
                assert(oi[j] is Replied && ti[j] == ip);
                let k = choose|k: int| 0 <= k < li.len() && (#[trigger] li[k]).ip == ip;
                assert(l[k] == li[k]);
            } else {
                assert(l[li.len() as int].ip == ip);
            }
        }
    }
}

/// The silent list holds an address exactly when one of its pings timed out.
proof fn lemma_silent_members(ts: Seq<Ipv4>, os: Seq<PingOutcome>, ip: Ipv4)
    requires
        ts.len() == os.len(),
    ensures
        silent_of(ts, os).contains(ip) <==> (exists|j: int|
            0 <= j < ts.len() && ts[j] == ip && #[trigger] os[j] is TimedOut),
    decreases ts.len(),
{
    if ts.len() > 0 {
        let (ti, oi) = (ts.drop_last(), os.drop_last());
        lemma_silent_members(ti, oi, ip);
        let l = silent_of(ts, os);
        let li = silent_of(ti, oi);
        if l.contains(ip) {
            let k = choose|k: int| 0 <= k < l.len() && l[k] == ip;
            if k < li.len() {
                assert(l[k] == li[k]);
                assert(li.contains(ip));
                let j = choose|j: int| 0 <= j < ti.len() && ti[j] == ip && #[trigger] oi[j] is TimedOut;
                assert(os[j] is TimedOut && ts[j] == ip);
            } else {
                assert(os[ts.len() - 1] is TimedOut);
            }
        }
        if exists|j: int| 0 <= j < ts.len() && ts[j] == ip && #[trigger] os[j] is TimedOut {
            let j = choose|j: int| 0 <= j < ts.len() && ts[j] == ip && #[trigger] os[j] is TimedOut;
            if j < ts.len() - 1 {
                assert(oi[j] is TimedOut && ti[j] == ip);
                let k = choose|k: int| 0 <= k < li.len() && li[k] == ip;
                assert(l[k] == li[k]);
            } else {
                assert(l[li.len() as int] == ip);
            }
        }
    }
}

/// The error list holds an address exactly when one of its pings failed.
proof fn lemma_failed_members(ts: Seq<Ipv4>, os: Seq<PingOutcome>, ip: Ipv4)
    requires
        ts.len() == os.len(),
    ensures
        (exists|k: int| 0 <= k < failed_of(ts, os).len() && (#[trigger] failed_of(ts, os)[k]).0 == ip)
            <==> (exists|j: int| 0 <= j < ts.len() && ts[j] == ip && #[trigger] os[j] is Failed),
    decreases ts.len(),
{
    if ts.len() > 0 {
        let (ti, oi) = (ts.drop_last(), os.drop_last());
        lemma_failed_members(ti, oi, ip);
        let l = failed_of(ts, os);
        let li = failed_of(ti, oi);
        if exists|k: int| 0 <= k < l.len() && (#[trigger] l[k]).0 == ip {
            let k = choose|k: int| 0 <= k < l.len() && (#[trigger] l[k]).0 == ip;
            if k < li.len() {
                assert(l[k] == li[k]);
                let j = choose|j: int| 0 <= j < ti.len() && ti[j] == ip && #[trigger] oi[j] is Failed;
                assert(os[j] is Failed && ts[j] == ip);
            } else {
                assert(os[ts.len() - 1] is Failed);
            }
        }
        if exists|j: int| 0 <= j < ts.len() && ts[j] == ip && #[trigger] os[j] is Failed {
            let j = choose|j: int| 0 <= j < ts.len() && ts[j] == ip && #[trigger] os[j] is Failed;
            if j < ts.len() - 1 {
                assert(oi[j] is Failed && ti[j] == ip);
                let k = choose|k: int| 0 <= k < li.len() && (#[trigger] li[k]).0 == ip;
                assert(l[k] == li[k]);
            } else {
                assert(l[li.len() as int].0 == ip);
            }
        }
    }
}

/// Whether the sweep lists `ip` as live.
pub open spec fn listed_live(r: PingSweepResult, ip: Ipv4) -> bool {
    exists|k: int| 0 <= k < r.live@.len() && (#[trigger] r.live@[k]).ip == ip
}

/// Whether the sweep lists `ip` as not alive.
pub open spec fn listed_silent(r: PingSweepResult, ip: Ipv4) -> bool {
    r.not_alive@.contains(ip)
}

/// Whether the sweep lists `ip` among its errors.
pub open spec fn listed_failed(r: PingSweepResult, ip: Ipv4) -> bool {
    exists|k: int| 0 <= k < r.errors@.len() && (#[trigger] r.errors@[k]).0 == ip
}

/// After a sweep over distinct targets, each target is listed in exactly
/// one of live, not alive and errors, and every listed address is a target.
pub proof fn lemma_sweep_partition(
    targets: Seq<Ipv4>,
    outcomes: Seq<PingOutcome>,
    r: PingSweepResult,
    ip: Ipv4,
)
    requires
        targets.len() == outcomes.len(),
        forall|i: int, j: int| 0 <= i < j < targets.len() ==> targets[i] != targets[j],
        r.live@ == live_of(targets, outcomes),
        r.not_alive@ == silent_of(targets, outcomes),
        r.errors@ == failed_of(targets, outcomes),
    ensures
        targets.contains(ip) ==> (listed_live(r, ip) || listed_silent(r, ip) || listed_failed(r, ip)),
        targets.contains(ip) ==> !(listed_live(r, ip) && listed_silent(r, ip)),
        targets.contains(ip) ==> !(listed_live(r, ip) && listed_failed(r, ip)),
        targets.contains(ip) ==> !(listed_silent(r, ip) && listed_failed(r, ip)),
        listed_live(r, ip) || listed_silent(r, ip) || listed_failed(r, ip) ==> targets.contains(ip),
{
    lemma_live_members(targets, outcomes, ip);
    lemma_silent_members(targets, outcomes, ip);
    lemma_failed_members(targets, outcomes, ip);
    if targets.contains(ip) {
        let i = choose|i: int| 0 <= i < targets.len() && targets[i] == ip;
        assert(forall|j: int| 0 <= j < targets.len() && targets[j] == ip ==> j == i);
        match outcomes[i] {
            PingOutcome::Replied(_) => {},
            PingOutcome::TimedOut => {},
            PingOutcome::Failed(_) => {},
        }
    }
    if listed_live(r, ip) {
        let j = choose|j: int| 0 <= j < targets.len() && targets[j] == ip && #[trigger] outcomes[j] is Replied;
        assert(targets[j] == ip);
    }
    if listed_silent(r, ip) {
        let j = choose|j: int| 0 <= j < targets.len() && targets[j] == ip && #[trigger] outcomes[j] is TimedOut;
        assert(targets[j] == ip);
    }
    if listed_failed(r, ip) {
        let j = choose|j: int| 0 <= j < targets.len() && targets[j] == ip && #[trigger] outcomes[j] is Failed;
        assert(targets[j] == ip);
    }
}

/// After a sweep over the addresses of a target block, each address is
/// listed in exactly one of live, not alive and errors, and every listed
/// address belongs to the block.
pub proof fn lemma_sweep_partitions_block(
    block: Cidr,
    outcomes: Seq<PingOutcome>,
    r: PingSweepResult,
    ip: Ipv4,
)
    requires
        block.wf(),
        outcomes.len() == block.addresses_spec().len(),
        r.live@ == live_of(block.addresses_spec(), outcomes),
        r.not_alive@ == silent_of(block.addresses_spec(), outcomes),
        r.errors@ == failed_of(block.addresses_spec(), outcomes),
    ensures
        block.addresses_spec().contains(ip) ==> (listed_live(r, ip) || listed_silent(r, ip)
            || listed_failed(r, ip)),
        block.addresses_spec().contains(ip) ==> !(listed_live(r, ip) && listed_silent(r, ip)),
        block.addresses_spec().contains(ip) ==> !(listed_live(r, ip) && listed_failed(r, ip)),
        block.addresses_spec().contains(ip) ==> !(listed_silent(r, ip) && listed_failed(r, ip)),
        listed_live(r, ip) || listed_silent(r, ip) || listed_failed(r, ip)
            ==> block.addresses_spec().contains(ip),
{
    let ts = block.addresses_spec();
    lemma_block_ascending(block);
    assert forall|i: int, j: int| 0 <= i < j < ts.len() implies ts[i] != ts[j] by {
        assert(ts[i].bits < ts[j].bits);
    }
    lemma_sweep_partition(ts, outcomes, r, ip);
}

} // verus!
