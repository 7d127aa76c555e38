//! Service detection for one port: requested probes run in order until one
//! identifies the service; otherwise a generic banner read decides between
//! a banner label and an unknown service.
//!
//! The detector is a state machine: the caller asks for the next step,
//! performs it on the network and reports what happened.
use vstd::prelude::*;
use crate::probes::{Protocol, protocol_name};
use crate::text::{
    lossy_text, trimmed, joined, chars_of, trim_chars, push_str_chars, string_from_chars,
    text_from_bytes, join_strings,
};

verus! {

/// The outcome of service detection on one port.
#[derive(Debug)]
pub struct ServiceDetectionResult {
    pub port: u16,
    pub service: Option<String>,
    pub error: Option<String>,
    pub protocol_failures: Vec<String>,
}

impl ServiceDetectionResult {
    pub fn new(
        port: u16,
        service: Option<String>,
        error: Option<String>,
        protocol_failures: Vec<String>,
    ) -> (r: Self)
        ensures
            r.port == port,
            r.service == service,
            r.error == error,
            r.protocol_failures == protocol_failures,
    {
        Self { port, service, error, protocol_failures }
    }

    pub open spec fn failure_names(&self) -> Seq<Seq<char>> {
        self.protocol_failures@.map_values(|s: String| s@)
    }
}

/// The names of the given protocols.
pub open spec fn names_of(ps: Seq<Protocol>) -> Seq<Seq<char>> {
    ps.map_values(|p: Protocol| protocol_name(p))
}

/// The label for what the generic banner read returned: the trimmed text
/// if any is left, else an unknown service.
pub open spec fn banner_label(banner: Option<Seq<u8>>) -> Seq<char> {
    if banner is Some && trimmed(lossy_text(banner->0)).len() > 0 {
        "Banner: "@ + trimmed(lossy_text(banner->0))
    } else {
        "Unknown Service"@
    }
}

/// The bytes an optional buffer holds.
pub open spec fn opt_view(b: Option<Vec<u8>>) -> Option<Seq<u8>> {
    match b {
        Some(v) => Some(v@),
        None => None,
    }
}

/// The reason recorded for a probe that did not identify its protocol.
pub open spec fn reason_text(p: Protocol, error: Option<String>) -> Seq<char> {
    if error is Some {
        error->0@
    } else {
        protocol_name(p) + " detection failed"@
    }
}

/// The service that detection reports when the probes that ran gave the
/// verdicts `flags` (in the requested order) and, if all of them failed, the
/// banner read returned `banner`.
pub open spec fn detected_service(
    protocols: Seq<Protocol>,
    flags: Seq<bool>,
    banner: Option<Seq<u8>>,
) -> Seq<char>
    decreases flags.len(),
{
    if flags.len() == 0 || protocols.len() == 0 {
        banner_label(banner)
    } else if flags[0] {
        protocol_name(protocols[0])
    } else {
        detected_service(protocols.drop_first(), flags.drop_first(), banner)
    }
}

/// `k` failed verdicts.
pub open spec fn failures_only(k: nat) -> Seq<bool> {
    Seq::new(k, |i: int| false)
}

/// After `k` failed probes, a probe that identifies its protocol names the
/// service; after all of them failed, the banner read does.
pub proof fn lemma_detected_service_steps(protocols: Seq<Protocol>, k: nat, banner: Option<Seq<u8>>)
    ensures
        k < protocols.len() ==> detected_service(protocols, failures_only(k).push(true), banner)
            == protocol_name(protocols[k as int]),
        k == protocols.len() ==> detected_service(protocols, failures_only(k), banner)
            == banner_label(banner),
    decreases k,
{
    if k > 0 && protocols.len() > 0 {
        lemma_detected_service_steps(protocols.drop_first(), (k - 1) as nat, banner);
        assert(failures_only(k).push(true).drop_first() =~= failures_only((k - 1) as nat).push(true));
        assert(failures_only(k).drop_first() =~= failures_only((k - 1) as nat));
    }
}

/// Detection is repeatable: against a listener that gives every probe the
/// same verdict each time, two runs identify the same protocol, whatever
/// bytes their banner reads returned.
pub proof fn lemma_identification_repeatable(
    protocols: Seq<Protocol>,
    flags: Seq<bool>,
    first_banner: Option<Seq<u8>>,
    second_banner: Option<Seq<u8>>,
)
    requires
        exists|i: int| 0 <= i < flags.len() && i < protocols.len() && #[trigger] flags[i],
    ensures
        detected_service(protocols, flags, first_banner) == detected_service(
            protocols,
            flags,
            second_banner,
        ),
    decreases flags.len(),
{
    let i = choose|i: int| 0 <= i < flags.len() && i < protocols.len() && #[trigger] flags[i];
    if !flags[0] {
        assert(flags.drop_first()[i - 1]);
        lemma_identification_repeatable(
            protocols.drop_first(),
            flags.drop_first(),
            first_banner,
            second_banner,
        );
    }
}

/// What the caller does next for a port.
#[derive(Debug, Clone, Copy, PartialEq, Eq, Structural)]
pub enum DetectorStep {
    /// Run this protocol's probe on a fresh connection.
    Probe(Protocol),
    /// Connect and read up to 256 bytes within the read timeout.
    ReadBanner,
}

/// The detector's state for one port.
pub struct ServiceDetector {
    pub port: u16,
    pub protocols: Vec<Protocol>,
    /// Probes run so far; each of them failed.
    pub failed: Vec<Protocol>,
    /// The reason each failed probe gave, in the same order.
    pub reasons: Vec<String>,
}

impl ServiceDetector {
    pub open spec fn wf(&self) -> bool {
        &&& self.failed.len() <= self.protocols.len()
        &&& self.failed@ == self.protocols@.take(self.failed.len() as int)
        &&& self.reasons.len() == self.failed.len()
    }

    pub open spec fn reason_texts(&self) -> Seq<Seq<char>> {
        self.reasons@.map_values(|s: String| s@)
    }

    /// A detector that has run no probe yet.
    pub fn new(port: u16, protocols: Vec<Protocol>) -> (r: Self)
        ensures
            r.wf(),
            r.port == port,
            r.protocols == protocols,
            r.failed.len() == 0,
    {
        let r = ServiceDetector { port, protocols, failed: Vec::new(), reasons: Vec::new() };
        assert(r.protocols@.take(0) =~= r.failed@);
        r
    }

    /// The next probe in the requested order, or the banner read once every
    /// probe has failed.
    pub fn next_step(&self) -> (r: DetectorStep)
        requires
            self.wf(),
        ensures
            self.failed.len() < self.protocols.len() ==> r == DetectorStep::Probe(
                self.protocols[self.failed.len() as int],
            ),
            self.failed.len() == self.protocols.len() ==> r == DetectorStep::ReadBanner,
    {
        if self.failed.len() < self.protocols.len() {
            DetectorStep::Probe(self.protocols[self.failed.len()])
        } else {
            DetectorStep::ReadBanner
        }
    }

    /// The names of the failed probes, as the report lists them.
    fn failure_list(&self) -> (r: Vec<String>)
        ensures
            r@.map_values(|s: String| s@) == names_of(self.failed@),
    {
        let mut r: Vec<String> = Vec::new();
        let mut k: usize = 0;
        while k < self.failed.len()
            invariant
                k <= self.failed.len(),
                r@.map_values(|s: String| s@) == names_of(self.failed@.take(k as int)),
            decreases self.failed.len() - k,
        {
            let name = self.failed[k].name();
            let entry = name.to_string();
            assert(entry@ == protocol_name(self.failed@[k as int]));
            let ghost before = r@;
            r.push(entry);
            assert(r@.map_values(|s: String| s@) =~= before.map_values(|s: String| s@).push(entry@));
            assert(self.failed@.take(k + 1) =~= self.failed@.take(k as int).push(self.failed@[k as int]));
            k = k + 1;
            assert(r@.map_values(|s: String| s@) =~= names_of(self.failed@.take(k as int)));
        }
        assert(self.failed@.take(self.failed.len() as int) =~= self.failed@);
        r
    }

    /// Reports the outcome of the probe `next_step` asked for. A probe that
    /// identified its protocol ends detection with that service and no
    /// error; the probes that failed before it stay listed. Otherwise the
    /// failure and its reason are recorded.
    pub fn record_probe(&mut self, detected: bool, error: Option<String>) -> (r: Option<
        ServiceDetectionResult,
    >)
        requires
            old(self).wf(),
            old(self).failed.len() < old(self).protocols.len(),
        ensures
            final(self).wf(),
            final(self).port == old(self).port,
            final(self).protocols == old(self).protocols,
            detected ==> *final(self) == *old(self),
            detected ==> (r is Some && r->0.port == old(self).port && r->0.service is Some
                && r->0.service->0@ == protocol_name(old(self).protocols[old(self).failed.len() as int])
                && r->0.error is None && r->0.failure_names() == names_of(old(self).failed@)
                && r->0.protocol_failures.len() == old(self).failed.len()
                && r->0.service->0@ == detected_service(
                old(self).protocols@,
                failures_only(old(self).failed.len() as nat).push(true),
                None,
            )),
            !detected ==> r is None,
            !detected ==> final(self).failed@ == old(self).failed@.push(
                old(self).protocols[old(self).failed.len() as int],
            ),
            !detected ==> final(self).reason_texts() == old(self).reason_texts().push(
                reason_text(old(self).protocols[old(self).failed.len() as int], error),
            ),
    {
        let p = self.protocols[self.failed.len()];
        proof {
            lemma_detected_service_steps(self.protocols@, self.failed.len() as nat, None);
        }
        if detected {
            let failures = self.failure_list();
            assert(failures@.map_values(|s: String| s@).len() == failures@.len());
            return Some(
                ServiceDetectionResult::new(self.port, Some(p.name().to_string()), None, failures),
            );
        }
        let reason = match error {
            Some(e) => e,
            None => {
                let mut t = chars_of(p.name());
                push_str_chars(&mut t, " detection failed");
                string_from_chars(&t)
            },
        };
        let ghost old_failed = self.failed@;
        let ghost old_reasons = self.reason_texts();
        self.failed.push(p);
        self.reasons.push(reason);
        assert(self.reason_texts() =~= old_reasons.push(reason_text(p, error)));
        assert(self.failed@ =~= self.protocols@.take(self.failed.len() as int));
        None
    }

    /// Ends detection with what the generic banner read returned (`None`
    /// when the connect or the read failed). The reasons of all failed
    /// probes are joined into the error.
    pub fn conclude(&self, banner: Option<Vec<u8>>) -> (r: ServiceDetectionResult)
        requires
            self.wf(),
            self.failed.len() == self.protocols.len(),
        ensures
            r.port == self.port,
            r.service is Some,
            r.service->0@ == banner_label(
                opt_view(banner),
            ),
            r.failure_names() == names_of(self.failed@),
            self.reasons.len() == 0 ==> r.error is None,
            self.reasons.len() > 0 ==> (r.error is Some && r.error->0@ == joined(
                self.reason_texts(),
                " | "@,
            )),
            r.error is None ==> r.protocol_failures.len() == 0,
            r.service->0@ == detected_service(
                self.protocols@,
                failures_only(self.failed.len() as nat),
                opt_view(banner),
            ),
    {
        proof {
            lemma_detected_service_steps(
                self.protocols@,
                self.failed.len() as nat,
                opt_view(banner),
            );
        }
        let service = match banner {
            Some(b) => {
                let text = text_from_bytes(b.as_slice());
                let chars = chars_of(text.as_str());
                let t = trim_chars(&chars);
                if t.len() > 0 {
                    let mut label = chars_of("Banner: ");
                    let mut k: usize = 0;
                    let ghost start = label@;
                    while k < t.len()
                        invariant
                            k <= t.len(),
                            label@ == start + t@.take(k as int),
                        decreases t.len() - k,
                    {
                        label.push(t[k]);
                        k = k + 1;
                        assert(label@ =~= start + t@.take(k as int));
                    }
                    assert(t@.take(t.len() as int) =~= t@);
                    string_from_chars(&label)
                } else {
                    "Unknown Service".to_string()
                }
            },
            None => "Unknown Service".to_string(),
        };
        let error = if self.reasons.len() == 0 {
            None
        } else {
            Some(join_strings(&self.reasons, " | "))
        };
        let failures = self.failure_list();
        assert(failures@.map_values(|s: String| s@).len() == failures@.len());
        ServiceDetectionResult::new(self.port, Some(service), error, failures)
    }
}

} // verus!
