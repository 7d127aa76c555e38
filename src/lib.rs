//! A network reconnaissance library: target expansion, port lists, probe
//! classification, service detection decisions and host fingerprints.
//!
//! Everything here is pure computation over plain values. The network work
//! (sockets, timers, raw channels) belongs to the program that drives it.
use vstd::prelude::*;

pub mod arp;
pub mod fingerprint;
pub mod ping;
pub mod pipeline;
pub mod ports;
pub mod probes;
pub mod report;
pub mod scan;
pub mod service;
pub mod suggest;
pub mod target;
pub mod text;

verus! {

/// Adds two counters.
pub fn add(left: u64, right: u64) -> (r: u64)
    requires
        left + right <= u64::MAX,
    ensures
        r == left + right,
{
    left + right
}

} // verus!
