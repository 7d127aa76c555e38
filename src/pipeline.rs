//! The scan driver's decisions: which inputs a run needs, and which live
//! hosts it scans.
use vstd::prelude::*;
use crate::target::Ipv4;

verus! {

/// The stages a run asked for, besides the ping sweep that always runs.
#[derive(Clone, Copy, Debug, PartialEq, Eq, Structural)]
pub struct StageRequest {
    pub tcp_scan: bool,
    pub udp_scan: bool,
    pub fingerprint: bool,
    pub service_detection: bool,
}

/// An input the requested stages need but the run did not get.
#[derive(Clone, Copy, Debug, PartialEq, Eq, Structural)]
pub enum ConfigError {
    MissingPorts,
    MissingProtocols,
}

impl ConfigError {
    /// The message shown before exiting with a failure status.
    pub fn message(&self) -> (r: &'static str)
        ensures
            *self == ConfigError::MissingPorts ==> r@
                == "You must specify --ports for scanning, fingerprinting, or service detection."@,
            *self == ConfigError::MissingProtocols ==> r@
                == "You must specify --protocols for service detection."@,
    {
        match self {
            ConfigError::MissingPorts => "You must specify --ports for scanning, fingerprinting, or service detection.",
            ConfigError::MissingProtocols => "You must specify --protocols for service detection.",
        }
    }
}

/// Any stage beyond the sweep needs ports; service detection also needs
/// protocols. Missing ports are reported first.
pub open spec fn request_error(req: StageRequest, has_ports: bool, has_protocols: bool) -> Option<ConfigError> {
    if (req.tcp_scan || req.udp_scan || req.fingerprint || req.service_detection) && !has_ports {
        Some(ConfigError::MissingPorts)
    } else if req.service_detection && !has_protocols {
        Some(ConfigError::MissingProtocols)
    } else {
        None
    }
}

/// Checks that the requested stages have the inputs they need.
pub fn check_request(req: &StageRequest, has_ports: bool, has_protocols: bool) -> (r: Result<(), ConfigError>)
    ensures
        match r {
            Ok(()) => request_error(*req, has_ports, has_protocols) is None,
            Err(e) => request_error(*req, has_ports, has_protocols) == Some(e),
        },
{
    if (req.tcp_scan || req.udp_scan || req.fingerprint || req.service_detection) && !has_ports {
        Err(ConfigError::MissingPorts)
    } else if req.service_detection && !has_protocols {
        Err(ConfigError::MissingProtocols)
    } else {
        Ok(())
    }
}

/// The hosts other than `local`, in order.
pub open spec fn without_address(hosts: Seq<Ipv4>, local: Option<Ipv4>) -> Seq<Ipv4>
    decreases hosts.len(),
{
    if hosts.len() == 0 {
        Seq::empty()
    } else {
        let init = without_address(hosts.drop_last(), local);
        if local == Some(hosts.last()) {
            init
        } else {
            init.push(hosts.last())
        }
    }
}

/// Drops the scanning machine's own address from the live hosts, so that
/// it does not scan itself.
pub fn exclude_address(hosts: &Vec<Ipv4>, local: Option<Ipv4>) -> (r: Vec<Ipv4>)
    ensures
        r@ == without_address(hosts@, local),
{
    let mut r: Vec<Ipv4> = Vec::new();
    let mut k: usize = 0;
    while k < hosts.len()
        invariant
            k <= hosts.len(),
            r@ == without_address(hosts@.take(k as int), local),
        decreases hosts.len() - k,
    {
        assert(hosts@.take(k + 1).drop_last() =~= hosts@.take(k as int));
        let h = hosts[k];
        let skip = match local {
            Some(l) => l.bits == h.bits,
            None => false,
        };
        if !skip {
            r.push(h);
        }
        k = k + 1;
    }
    assert(hosts@.take(hosts.len() as int) =~= hosts@);
    r
}

/// A cached download is fresh when its age is known and under the limit.
pub open spec fn cache_fresh(age_secs: Option<u64>, max_age_days: u64) -> bool {
    age_secs is Some && age_secs->0 < max_age_days * 86400
}

/// Whether a cached file of the given age (if known) may be used.
pub fn cache_is_fresh(age_secs: Option<u64>, max_age_days: u64) -> (r: bool)
    ensures
        r == cache_fresh(age_secs, max_age_days),
{
    match age_secs {
        Some(age) => (age as u128) < (max_age_days as u128) * 86400,
        None => false,
    }
}

} // verus!
