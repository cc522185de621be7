//! Per-request org and cluster biases: small additive nudges derived from the
//! tenant's background risk, failing open when org data is absent.
use vstd::prelude::*;
use crate::text;
use crate::config::MAX_ORG_CLUSTER_BIAS;
use crate::org_graph::cluster::{AttackType, ClusterFactor, ClusterFactorView};
use crate::org_graph::tenant::{clamp_shift, MIN_THRESHOLD_SHIFT, MAX_THRESHOLD_SHIFT};

verus! {

/// Sentinel cluster id of the org-level factor (the aggregate tenant signal,
/// not a real cluster).
pub const ORG_LEVEL_CLUSTER_ID: &'static str = "org_level";

/// The org bias for an org risk score: 0 up to 30; from 31 to 60 one point
/// per six above 30 (truncated), at least 1; from 61 to 79 five plus one
/// point per seven above 60 (truncated), and 8 at 80; from 81 eight plus one
/// point per ten above 80 (truncated), at most 10.
pub open spec fn spec_org_bias(s: u8) -> u8 {
    if s <= 30 {
        0
    } else if s <= 60 {
        if (s - 30) / 6 < 1 { 1 } else { ((s - 30) / 6) as u8 }
    } else if s < 80 {
        (5 + (s - 60) / 7) as u8
    } else if s == 80 {
        8
    } else if 8 + (s - 80) / 10 <= 10 {
        (8 + (s - 80) / 10) as u8
    } else {
        10
    }
}

/// Compute the additive score bias from the org-level risk score.
///
/// Intentionally small: org risk nudges a borderline decision but cannot by
/// itself push a clean request from Allow to Deny.
pub fn compute_org_bias(org_risk_score: u8) -> (r: u8)
    ensures
        r == spec_org_bias(org_risk_score),
{
    if org_risk_score <= 30 {
        0
    } else if org_risk_score <= 60 {
        let b = (org_risk_score - 30) / 6;
        if b < 1 { 1 } else { b }
    } else if org_risk_score < 80 {
        5 + (org_risk_score - 60) / 7
    } else if org_risk_score == 80 {
        8
    } else {
        let b = 8 + (org_risk_score - 80) / 10;
        if b <= 10 { b } else { 10 }
    }
}

/// The org bias never exceeds 10 points, and it never decreases as the org
/// risk score rises.
pub proof fn lemma_org_bias_bounded_monotone(a: u8, b: u8)
    requires
        a <= b,
    ensures
        spec_org_bias(a) <= 10,
        spec_org_bias(a) <= spec_org_bias(b),
{
}

pub open spec fn org_factor_description(org_risk_score: u8, active_clusters: u32) -> Seq<char> {
    "Tenant under elevated risk (org_score="@ + text::decimal(org_risk_score as nat)
        + ", active_clusters="@ + text::decimal(active_clusters as nat) + ")"@
}

pub open spec fn spec_org_factor(org_risk_score: u8, bias: u8, active_clusters: u32) -> ClusterFactorView {
    ClusterFactorView {
        cluster_id: ORG_LEVEL_CLUSTER_ID@,
        attack_type: AttackType::UnknownAnomaly,
        contribution: bias,
        description: org_factor_description(org_risk_score, active_clusters),
    }
}

/// Build the org-level cluster factor (the tenant is under elevated risk but
/// there is no direct cluster membership).
pub fn build_org_factor(org_risk_score: u8, bias: u8, active_clusters: u32) -> (f: ClusterFactor)
    ensures
        f@ == spec_org_factor(org_risk_score, bias, active_clusters),
{
    let a = text::with_number("Tenant under elevated risk (org_score=", org_risk_score as u64, ", active_clusters=");
    let b = text::decimal_string(active_clusters as u64);
    let mut description = a;
    text::push_str(&mut description, b.as_str());
    text::push_str(&mut description, ")");
    ClusterFactor {
        cluster_id: text::owned(ORG_LEVEL_CLUSTER_ID),
        attack_type: AttackType::UnknownAnomaly,
        contribution: bias,
        description,
    }
}

/// Result of the org/cluster bias computation.
#[derive(Debug)]
pub struct OrgClusterBias {
    /// Points from org-level risk (0–10).
    pub org_bias: u8,
    /// Points from direct cluster membership.
    pub cluster_bias: u8,
    /// Total additive bias (`org_bias + cluster_bias`, at most 25).
    pub total_bias: u8,
    /// Threshold shift from the tenant risk profile, within [-15, 20].
    pub threshold_shift: i8,
    /// The factors that explain the bias.
    pub factors: Vec<ClusterFactor>,
}

pub open spec fn spec_org_part(org_risk_score: Option<u8>) -> u8 {
    match org_risk_score {
        Some(s) => spec_org_bias(s),
        None => 0,
    }
}

pub open spec fn spec_cluster_part(cluster: Option<&ClusterFactor>) -> u8 {
    match cluster {
        Some(c) => c.contribution,
        None => 0,
    }
}

pub open spec fn spec_total_bias(org: u8, cluster: u8) -> u8 {
    if org + cluster <= MAX_ORG_CLUSTER_BIAS { (org + cluster) as u8 } else { MAX_ORG_CLUSTER_BIAS }
}

/// The cluster factors reported: the org factor when the org bias is
/// positive, then the membership factor when its contribution is positive.
pub open spec fn spec_bias_factors(
    org_risk_score: Option<u8>,
    cluster: Option<&ClusterFactor>,
    active_cluster_count: u32,
) -> Seq<ClusterFactorView> {
    let org = match org_risk_score {
        Some(s) => if spec_org_bias(s) > 0 {
            seq![spec_org_factor(s, spec_org_bias(s), active_cluster_count)]
        } else {
            Seq::empty()
        },
        None => Seq::empty(),
    };
    let member = match cluster {
        Some(c) => if c.contribution > 0 { seq![c@] } else { Seq::empty() },
        None => Seq::empty(),
    };
    org + member
}

pub open spec fn cluster_factors_view(v: Seq<ClusterFactor>) -> Seq<ClusterFactorView> {
    Seq::new(v.len(), |i: int| v[i]@)
}

/// Compute the org and cluster biases.
///
/// `cluster` is the user's cluster-membership factor, whose contribution is
/// the membership bias. Absent org data gives a neutral result (fail-open).
pub fn compute_org_cluster_bias(
    org_risk_score: Option<u8>,
    cluster: Option<&ClusterFactor>,
    threshold_shift: Option<i8>,
    active_cluster_count: u32,
) -> (r: OrgClusterBias)
    ensures
        r.org_bias == spec_org_part(org_risk_score),
        r.cluster_bias == spec_cluster_part(cluster),
        r.total_bias == spec_total_bias(r.org_bias, r.cluster_bias),
        r.threshold_shift as int == match threshold_shift { Some(t) => clamp_shift(t as int), None => 0 },
        cluster_factors_view(r.factors@) == spec_bias_factors(org_risk_score, cluster, active_cluster_count),
{
    let mut factors: Vec<ClusterFactor> = Vec::new();
    let org_bias = match org_risk_score {
        Some(score) => {
            let bias = compute_org_bias(score);
            if bias > 0 {
                factors.push(build_org_factor(score, bias, active_cluster_count));
            }
            bias
        },
        None => 0,
    };
    let ghost after_org = factors@;
    let cluster_bias = match cluster {
        Some(c) => {
            let bias = c.contribution;
            if bias > 0 {
                factors.push(c.clone());
            }
            bias
        },
        None => 0,
    };
    let sum = org_bias.saturating_add(cluster_bias);
    let total_bias = if sum < MAX_ORG_CLUSTER_BIAS { sum } else { MAX_ORG_CLUSTER_BIAS };
    let effective_shift: i8 = match threshold_shift {
        Some(t) => {
            if (t as i16) < MIN_THRESHOLD_SHIFT {
                MIN_THRESHOLD_SHIFT as i8
            } else if (t as i16) > MAX_THRESHOLD_SHIFT {
                MAX_THRESHOLD_SHIFT as i8
            } else {
                t
            }
        },
        None => 0,
    };
    proof {
        assert(cluster_factors_view(factors@) =~= spec_bias_factors(org_risk_score, cluster, active_cluster_count));
    }
    OrgClusterBias { org_bias, cluster_bias, total_bias, threshold_shift: effective_shift, factors }
}

/// The combined org/cluster bias never exceeds 25 points.
pub proof fn lemma_total_bias_capped(org: u8, cluster: u8)
    ensures
        spec_total_bias(org, cluster) <= MAX_ORG_CLUSTER_BIAS,
        spec_total_bias(org, cluster) <= org + cluster,
{
}

} // verus!
