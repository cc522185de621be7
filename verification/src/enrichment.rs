//! Context enrichment: how each source's answer lands on the context and
//! which classification result it is recorded as. The lookups themselves
//! (resolvers, reputation feeds, breach checks) are run by the caller, which
//! hands each answer to the matching step. Every step fails open: a missing
//! answer leaves the field untouched.
use vstd::prelude::*;
use crate::context::{AsnType, RiskContext};
use crate::signals::disposable_email::{DisposableDomains, spec_extract_domain, normalise, extract_domain};
use crate::signals::ip_reputation::IpReputation;
use crate::signals::metrics::{ClassificationResult, spec_bool_result, bool_result};
use crate::signals::sanctions::{is_sanctioned, spec_is_sanctioned};

verus! {

/// Per-step budget of each enrichment source.
#[derive(Debug, Clone, Copy)]
pub struct PipelineConfig {
    /// Budget of each source call, in milliseconds.
    pub per_step_timeout_ms: u64,
}

impl Default for PipelineConfig {
    /// 50 ms per source.
    fn default() -> (r: Self)
        ensures
            r.per_step_timeout_ms == 50,
    {
        PipelineConfig { per_step_timeout_ms: 50 }
    }
}

/// Sanctions screening from the request country. Runs only while the
/// context has no sanctions verdict; `country` is the resolved ISO code of
/// the request IP (`None` when there is no IP or it did not resolve).
/// Returns the classification to record, `None` when the step did not run.
pub fn apply_country(ctx: &mut RiskContext, country: Option<&str>) -> (r: Option<ClassificationResult>)
    ensures
        old(ctx).is_sanctioned_country is Some ==> r is None && *final(ctx) == *old(ctx),
        old(ctx).is_sanctioned_country is None ==> match country {
            Some(c) => {
                &&& *final(ctx) == (RiskContext { is_sanctioned_country: Some(spec_is_sanctioned(c@)), ..*old(ctx) })
                &&& r == Some(spec_bool_result(Some(spec_is_sanctioned(c@))))
            },
            None => r == Some(ClassificationResult::Unknown) && *final(ctx) == *old(ctx),
        },
{
    if ctx.is_sanctioned_country.is_some() {
        return None;
    }
    match country {
        Some(code) => {
            let sanctioned = is_sanctioned(code);
            ctx.is_sanctioned_country = Some(sanctioned);
            Some(bool_result(Some(sanctioned)))
        },
        None => Some(ClassificationResult::Unknown),
    }
}

/// The classification of an ASN answer: a known bucket matched, anything
/// else is unknown.
pub open spec fn spec_asn_result(asn: Option<AsnType>) -> ClassificationResult {
    match asn {
        Some(AsnType::Unknown) | None => ClassificationResult::Unknown,
        Some(_) => ClassificationResult::Matched,
    }
}

/// Store the ASN bucket resolved for the request IP. Runs only while the
/// context has no ASN type.
pub fn apply_asn(ctx: &mut RiskContext, asn: Option<AsnType>) -> (r: Option<ClassificationResult>)
    ensures
        old(ctx).ip_asn_type is Some ==> r is None && *final(ctx) == *old(ctx),
        old(ctx).ip_asn_type is None ==> r == Some(spec_asn_result(asn))
            && *final(ctx) == (RiskContext { ip_asn_type: asn, ..*old(ctx) }),
{
    if ctx.ip_asn_type.is_some() {
        return None;
    }
    ctx.ip_asn_type = asn;
    match asn {
        Some(AsnType::Unknown) | None => Some(ClassificationResult::Unknown),
        Some(_) => Some(ClassificationResult::Matched),
    }
}

/// `current` when set, else `answer`.
pub open spec fn keep_or<T>(current: Option<T>, answer: Option<T>) -> Option<T> {
    if current is Some { current } else { answer }
}

/// Merge an IP reputation answer (`None` when the lookup failed or timed
/// out): fields already set are kept; the answer matches when it flags an
/// anonymiser or a positive abuse score.
pub fn apply_ip_reputation(ctx: &mut RiskContext, answer: Option<IpReputation>) -> (r: ClassificationResult)
    ensures
        match answer {
            Some(rep) => {
                &&& *final(ctx) == (RiskContext {
                    ip_is_vpn: keep_or(old(ctx).ip_is_vpn, rep.is_vpn),
                    ip_is_proxy: keep_or(old(ctx).ip_is_proxy, rep.is_proxy),
                    ip_is_relay: keep_or(old(ctx).ip_is_relay, rep.is_relay),
                    ip_abuse_confidence: keep_or(old(ctx).ip_abuse_confidence, rep.abuse_confidence),
                    ..*old(ctx)
                })
                &&& r == if rep.spec_is_anonymised() || (match rep.abuse_confidence { Some(c) => c > 0, None => false }) {
                    ClassificationResult::Matched
                } else {
                    ClassificationResult::NotMatched
                }
            },
            None => r == ClassificationResult::Unknown && *final(ctx) == *old(ctx),
        },
{
    match answer {
        Some(rep) => {
            if ctx.ip_is_vpn.is_none() {
                ctx.ip_is_vpn = rep.is_vpn;
            }
            if ctx.ip_is_proxy.is_none() {
                ctx.ip_is_proxy = rep.is_proxy;
            }
            if ctx.ip_is_relay.is_none() {
                ctx.ip_is_relay = rep.is_relay;
            }
            if ctx.ip_abuse_confidence.is_none() {
                ctx.ip_abuse_confidence = rep.abuse_confidence;
            }
            let abusive = match rep.abuse_confidence {
                Some(c) => c > 0,
                None => false,
            };
            if rep.is_anonymised() || abusive {
                ClassificationResult::Matched
            } else {
                ClassificationResult::NotMatched
            }
        },
        None => ClassificationResult::Unknown,
    }
}

/// Whether an e-mail's domain is disposable: `None` without a domain list
/// or without a domain.
pub open spec fn spec_check_disposable(domains: Option<&DisposableDomains>, email: Seq<char>) -> Option<bool> {
    match domains {
        Some(set) => match spec_extract_domain(email) {
            Some(d) => Some(normalise(d).len() > 0 && set.view().contains(normalise(d))),
            None => None,
        },
        None => None,
    }
}

/// Check an e-mail address against the disposable-domain list.
pub fn check_disposable(domains: Option<&DisposableDomains>, email: &str) -> (r: Option<bool>)
    ensures
        r == spec_check_disposable(domains, email@),
{
    let set = match domains {
        Some(s) => s,
        None => return None,
    };
    match extract_domain(email) {
        Some(d) => Some(set.contains(d.as_str())),
        None => None,
    }
}

/// Flag a disposable e-mail domain. Runs only while the context has no
/// verdict and an e-mail is known.
pub fn apply_disposable(ctx: &mut RiskContext, domains: Option<&DisposableDomains>, email: Option<&str>)
    -> (r: Option<ClassificationResult>)
    ensures
        (old(ctx).email_domain_disposable is Some || email is None) ==> r is None && *final(ctx) == *old(ctx),
        (old(ctx).email_domain_disposable is None && email is Some) ==> match spec_check_disposable(domains, email->0@) {
            Some(b) => r == Some(spec_bool_result(Some(b)))
                && *final(ctx) == (RiskContext { email_domain_disposable: Some(b), ..*old(ctx) }),
            None => r == Some(ClassificationResult::Unknown) && *final(ctx) == *old(ctx),
        },
{
    if ctx.email_domain_disposable.is_some() {
        return None;
    }
    let addr = match email {
        Some(a) => a,
        None => return None,
    };
    match check_disposable(domains, addr) {
        Some(b) => {
            ctx.email_domain_disposable = Some(b);
            Some(bool_result(Some(b)))
        },
        None => Some(ClassificationResult::Unknown),
    }
}

} // verus!
