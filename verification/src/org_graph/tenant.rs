//! Tenant-level risk posture: the org risk snapshot the request path reads,
//! and the bounded, inert threshold shift the background task maintains.
use vstd::prelude::*;
use crate::text;

verus! {

/// Lowest threshold shift.
pub const MIN_THRESHOLD_SHIFT: i16 = -15;
/// Highest threshold shift.
pub const MAX_THRESHOLD_SHIFT: i16 = 20;
/// Largest change of the shift in one recomputation.
pub const MAX_SHIFT_STEP: i16 = 3;
/// A snapshot older than this many seconds is stale.
pub const SNAPSHOT_STALE_SECS: i64 = 300;

/// How hard a tenant is under attack, from its attack pressure (the share
/// of blocked requests) and stability.
#[derive(Debug, Clone, Copy, PartialEq, Eq, Structural)]
pub enum PressureLevel {
    /// Pressure above 0.7.
    Severe,
    /// Pressure above 0.5.
    Moderate,
    /// Pressure above 0.3.
    Minor,
    /// Stability above 0.9 and pressure below 0.1.
    StableQuiet,
    /// None of the above.
    Neutral,
}

pub open spec fn clamp_shift(v: int) -> int {
    if v < MIN_THRESHOLD_SHIFT { MIN_THRESHOLD_SHIFT as int } else if v > MAX_THRESHOLD_SHIFT { MAX_THRESHOLD_SHIFT as int } else { v }
}

/// The target shift: +15 / +10 / +6 by pressure, -5 for a stable quiet
/// tenant, plus 4 when the cluster density exceeds 0.15, within [-15, 20].
pub open spec fn spec_target_shift(level: PressureLevel, dense: bool) -> int {
    let p: int = match level {
        PressureLevel::Severe => 15,
        PressureLevel::Moderate => 10,
        PressureLevel::Minor => 6,
        PressureLevel::StableQuiet => -5,
        PressureLevel::Neutral => 0,
    };
    clamp_shift(p + if dense { 4int } else { 0int })
}

/// Compute the target threshold shift.
pub fn compute_target_shift(level: PressureLevel, dense: bool) -> (r: i8)
    ensures
        r as int == spec_target_shift(level, dense),
{
    let pressure_shift: i16 = match level {
        PressureLevel::Severe => 15,
        PressureLevel::Moderate => 10,
        PressureLevel::Minor => 6,
        PressureLevel::StableQuiet => -5,
        PressureLevel::Neutral => 0,
    };
    let density_extra: i16 = if dense { 4 } else { 0 };
    let v = pressure_shift + density_extra;
    let c = if v < MIN_THRESHOLD_SHIFT { MIN_THRESHOLD_SHIFT } else if v > MAX_THRESHOLD_SHIFT { MAX_THRESHOLD_SHIFT } else { v };
    c as i8
}

/// The next shift: move from `prev` toward `target` by at most 3, within
/// [-15, 20].
pub open spec fn spec_next_shift(target: i8, prev: i8) -> int {
    let d = target - prev;
    let step = if d < -MAX_SHIFT_STEP { -MAX_SHIFT_STEP as int } else if d > MAX_SHIFT_STEP { MAX_SHIFT_STEP as int } else { d };
    clamp_shift(prev + step)
}

/// Apply inertia to a shift change, preventing sudden lock-downs from
/// transient spikes.
pub fn apply_shift_inertia(target: i8, prev: i8) -> (r: i8)
    ensures
        r as int == spec_next_shift(target, prev),
{
    let d: i16 = target as i16 - prev as i16;
    let step: i16 = if d < -MAX_SHIFT_STEP { -MAX_SHIFT_STEP } else if d > MAX_SHIFT_STEP { MAX_SHIFT_STEP } else { d };
    let v: i16 = prev as i16 + step;
    let c = if v < MIN_THRESHOLD_SHIFT { MIN_THRESHOLD_SHIFT } else if v > MAX_THRESHOLD_SHIFT { MAX_THRESHOLD_SHIFT } else { v };
    c as i8
}

/// The shift always stays within [-15, 20], moves at most 3 points per
/// recomputation from a shift already in range, and never overshoots its
/// target.
pub proof fn lemma_shift_inertia(target: i8, prev: i8)
    ensures
        MIN_THRESHOLD_SHIFT <= spec_next_shift(target, prev) <= MAX_THRESHOLD_SHIFT,
        MIN_THRESHOLD_SHIFT <= prev <= MAX_THRESHOLD_SHIFT ==> {
            &&& -MAX_SHIFT_STEP <= spec_next_shift(target, prev) - prev <= MAX_SHIFT_STEP
            &&& (prev <= target ==> prev <= spec_next_shift(target, prev) <= target || target > MAX_THRESHOLD_SHIFT)
            &&& (target <= prev ==> target <= spec_next_shift(target, prev) <= prev || target < MIN_THRESHOLD_SHIFT)
        },
{
}

/// Lightweight org-level risk snapshot read on the request path.
#[derive(Debug)]
pub struct OrgRiskSnapshot {
    pub tenant_id: String,
    /// Aggregate org risk score (0–100).
    pub org_risk_score: u8,
    /// Pre-computed threshold shift.
    pub threshold_shift: i8,
    /// How many active clusters exist.
    pub active_cluster_count: u32,
    /// Clusters by risk band: [0–25, 26–50, 51–75, 76–100].
    pub cluster_severity_distribution: [u32; 4],
    /// Unix time of the last background recomputation.
    pub computed_at: i64,
}

/// The band of a cluster risk score.
pub open spec fn severity_bucket(risk: u8) -> int {
    if risk <= 25 { 0 } else if risk <= 50 { 1 } else if risk <= 75 { 2 } else { 3 }
}

/// The number of risk scores in a band.
pub open spec fn count_bucket(risks: Seq<u8>, b: int) -> nat
    decreases risks.len(),
{
    if risks.len() == 0 {
        0
    } else {
        count_bucket(risks.drop_last(), b) + if severity_bucket(risks.last()) == b { 1nat } else { 0nat }
    }
}

proof fn lemma_count_bucket_le(risks: Seq<u8>, b: int)
    ensures
        count_bucket(risks, b) <= risks.len(),
    decreases risks.len(),
{
    if risks.len() > 0 {
        lemma_count_bucket_le(risks.drop_last(), b);
    }
}

/// Count cluster risk scores per severity band.
pub fn severity_distribution(risks: &[u8]) -> (d: [u32; 4])
    requires
        risks@.len() <= u32::MAX,
    ensures
        forall|b: int| 0 <= b < 4 ==> d@[b] == count_bucket(risks@, b),
{
    let mut d: [u32; 4] = [0, 0, 0, 0];
    let mut i: usize = 0;
    while i < risks.len()
        invariant
            i <= risks@.len(),
            risks@.len() <= u32::MAX,
            forall|b: int| 0 <= b < 4 ==> d@[b] == count_bucket(risks@.take(i as int), b),
        decreases risks.len() - i,
    {
        let r = risks[i];
        let bucket: usize = if r <= 25 { 0 } else if r <= 50 { 1 } else if r <= 75 { 2 } else { 3 };
        proof {
            assert(risks@.take(i as int + 1).drop_last() =~= risks@.take(i as int));
            lemma_count_bucket_le(risks@.take(i as int), bucket as int);
        }
        let cur = d[bucket];
        d[bucket] = cur + 1;
        i = i + 1;
    }
    assert(risks@.take(risks.len() as int) =~= risks@);
    d
}

impl OrgRiskSnapshot {
    /// The fail-open snapshot used when the store is unavailable: no org
    /// bias, no threshold shift.
    pub fn unavailable(tenant_id: &str) -> (s: Self)
        ensures
            s.tenant_id@ == tenant_id@,
            s.org_risk_score == 0,
            s.threshold_shift == 0,
            s.active_cluster_count == 0,
            s.cluster_severity_distribution@ == seq![0u32, 0u32, 0u32, 0u32],
            s.computed_at == 0,
    {
        let s = OrgRiskSnapshot {
            tenant_id: text::owned(tenant_id),
            org_risk_score: 0,
            threshold_shift: 0,
            active_cluster_count: 0,
            cluster_severity_distribution: [0, 0, 0, 0],
            computed_at: 0,
        };
        assert(s.cluster_severity_distribution@ =~= seq![0u32, 0u32, 0u32, 0u32]);
        s
    }

    /// A snapshot of the tenant's clusters (given by their risk scores), its
    /// aggregate org risk score and its current threshold shift.
    pub fn from_clusters(tenant_id: &str, cluster_risks: &[u8], org_risk_score: u8, threshold_shift: i8, now: i64) -> (s: Self)
        requires
            cluster_risks@.len() <= u32::MAX,
        ensures
            s.tenant_id@ == tenant_id@,
            s.org_risk_score == org_risk_score,
            s.threshold_shift == threshold_shift,
            s.active_cluster_count == cluster_risks@.len(),
            forall|b: int| 0 <= b < 4 ==> s.cluster_severity_distribution@[b] == count_bucket(cluster_risks@, b),
            s.computed_at == now,
    {
        OrgRiskSnapshot {
            tenant_id: text::owned(tenant_id),
            org_risk_score,
            threshold_shift,
            active_cluster_count: cluster_risks.len() as u32,
            cluster_severity_distribution: severity_distribution(cluster_risks),
            computed_at: now,
        }
    }

    /// Whether the snapshot is more than five minutes old and should trigger
    /// a background refresh.
    pub fn is_stale(&self, now: i64) -> (r: bool)
        ensures
            r == (now - self.computed_at > SNAPSHOT_STALE_SECS),
    {
        (now as i128 - self.computed_at as i128) > SNAPSHOT_STALE_SECS as i128
    }
}

} // verus!
