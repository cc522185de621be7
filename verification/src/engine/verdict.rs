//! The engine's verdict and the builders of its three paths: a hard-gate
//! block, a degraded-signal challenge, and the scored decision.
use vstd::prelude::*;
use crate::text;
use crate::context::{RequiredAction, RiskAction, RiskContext};
use crate::decision::{Decision, Factor, FactorView, HardGate, factors_view, gate_name, spec_gate_name};
use crate::org_graph::cluster::ClusterFactor;
use crate::org_graph::tenant::clamp_shift;
use crate::org_graph::scoring::{OrgClusterBias, cluster_factors_view, compute_org_cluster_bias, spec_org_part, spec_cluster_part,
    spec_total_bias, spec_bias_factors};
use crate::engine::{score_to_decision, spec_score_to_decision, should_lock_account, spec_should_lock, escalation_required_action, spec_escalation_required_action};

verus! {

/// Everything the engine decides for one request. The score breakdown's
/// multipliers, the request id and the evaluation time are attached by the
/// caller.
#[derive(Debug)]
pub struct Verdict {
    pub decision: Decision,
    /// The raw base score (backward compatible).
    pub score: u8,
    pub required_action: Option<RequiredAction>,
    pub triggered_gates: Vec<HardGate>,
    pub triggered_rules: Vec<String>,
    pub contributing_factors: Vec<Factor>,
    pub lock_account: bool,
    pub notify_user: bool,
    pub notify_admin: bool,
    pub hold_reason: Option<String>,
    pub signals_degraded: bool,
    pub escalated: bool,
    pub base_score: u8,
    /// The score after org/cluster bias and threshold shift.
    pub adjusted_score: u8,
    pub org_risk_score: Option<u8>,
    pub cluster_factors: Vec<ClusterFactor>,
    pub applied_threshold_shift: i8,
}

// ─────────────────────────────────────────────────────────────────────────────
// Hard-gate verdict
// ─────────────────────────────────────────────────────────────────────────────

/// A gate block locks the account when the account is already locked, when a
/// revoked or lost credential is used to log in, or as a scored Deny would.
pub open spec fn spec_gate_lock(gates: Seq<HardGate>, action: RiskAction) -> bool {
    gates.contains(HardGate::AccountLocked)
        || ((gates.contains(HardGate::RevokedCredential) || gates.contains(HardGate::LostCredential))
            && (action == RiskAction::Login || action == RiskAction::OauthComplete))
        || spec_should_lock(Decision::Deny, action)
}

pub open spec fn gate_names(gates: Seq<HardGate>) -> Seq<Seq<char>> {
    Seq::new(gates.len(), |i: int| spec_gate_name(gates[i]))
}

fn contains_gate(gates: &[HardGate], g: HardGate) -> (r: bool)
    ensures
        r == gates@.contains(g),
{
    let mut i: usize = 0;
    while i < gates.len()
        invariant
            i <= gates.len(),
            forall|k: int| 0 <= k < i ==> gates@[k] != g,
        decreases gates.len() - i,
    {
        if gates[i] == g {
            return true;
        }
        i = i + 1;
    }
    false
}

fn names_of_gates(gates: &[HardGate]) -> (r: Vec<String>)
    ensures
        text::strings_view(r@) == gate_names(gates@),
{
    let mut names: Vec<String> = Vec::new();
    let mut i: usize = 0;
    while i < gates.len()
        invariant
            i <= gates.len(),
            names@.len() == i,
            text::strings_view(names@) == gate_names(gates@.take(i as int)),
        decreases gates.len() - i,
    {
        let n = text::owned(gate_name(&gates[i]));
        let ghost before = names@;
        names.push(n);
        proof {
            assert forall|k: int| 0 <= k < names@.len() implies #[trigger] names@[k]@ == gate_names(gates@.take(i as int + 1))[k] by {
                if k < before.len() {
                    assert(names@[k] == before[k]);
                    assert(before[k]@ == text::strings_view(before)[k]);
                }
            }
        }
        i = i + 1;
        assert(text::strings_view(names@) =~= gate_names(gates@.take(i as int)));
    }
    assert(gates@.take(gates.len() as int) =~= gates@);
    names
}

/// The verdict of a request blocked by hard gates: any gate that fires is an
/// immediate Deny with score 100.
pub fn build_gate_verdict(ctx: &RiskContext, gates: Vec<HardGate>) -> (v: Verdict)
    ensures
        v.decision == Decision::Deny,
        v.score == 100,
        v.required_action is None,
        v.hold_reason is None,
        v.base_score == 100,
        v.adjusted_score == 100,
        v.triggered_gates@ == gates@,
        text::strings_view(v.triggered_rules@) == gate_names(gates@),
        v.contributing_factors@.len() == 0,
        v.lock_account == spec_gate_lock(gates@, ctx.action),
        v.notify_user,
        v.notify_admin,
        v.signals_degraded == (ctx.redis_signals_degraded || ctx.db_signals_degraded),
        !v.escalated,
        v.org_risk_score == ctx.org_risk_score,
        v.cluster_factors@.len() == 0,
        v.applied_threshold_shift == 0,
{
    let names = names_of_gates(&gates);
    let decision = Decision::Deny;
    let score: u8 = 100;
    let compromised = contains_gate(&gates, HardGate::RevokedCredential) || contains_gate(&gates, HardGate::LostCredential);
    let login_class = match ctx.action {
        RiskAction::Login | RiskAction::OauthComplete => true,
        _ => false,
    };
    let lock_account = contains_gate(&gates, HardGate::AccountLocked)
        || (compromised && login_class)
        || should_lock_account(&decision, &ctx.action);
    Verdict {
        decision,
        score,
        required_action: None,
        triggered_gates: gates,
        triggered_rules: names,
        contributing_factors: Vec::new(),
        lock_account,
        notify_user: true,
        notify_admin: true,
        hold_reason: None,
        signals_degraded: ctx.redis_signals_degraded || ctx.db_signals_degraded,
        escalated: false,
        base_score: score,
        adjusted_score: score,
        org_risk_score: ctx.org_risk_score,
        cluster_factors: Vec::new(),
        applied_threshold_shift: 0,
    }
}

// ─────────────────────────────────────────────────────────────────────────────
// Degraded-signal verdict
// ─────────────────────────────────────────────────────────────────────────────

/// The rule reported when signals are degraded on a sensitive action.
pub open spec fn spec_degraded_rule(ctx: &RiskContext) -> Option<Seq<char>> {
    if !ctx.action.spec_is_sensitive() {
        None
    } else if ctx.redis_signals_degraded && ctx.db_signals_degraded {
        Some("both_signals_degraded_on_sensitive_action"@)
    } else if ctx.redis_signals_degraded {
        Some("redis_signals_degraded_on_sensitive_action"@)
    } else if ctx.db_signals_degraded {
        Some("db_signals_degraded_on_sensitive_action"@)
    } else {
        None
    }
}

/// The degraded-signal rule that forces a challenge, if any: signals could
/// not be fully collected and the action is sensitive.
pub fn degraded_rule(ctx: &RiskContext) -> (r: Option<&'static str>)
    ensures
        match r {
            Some(s) => spec_degraded_rule(ctx) == Some(s@),
            None => spec_degraded_rule(ctx) is None,
        },
{
    if !ctx.action.is_sensitive() {
        None
    } else if ctx.redis_signals_degraded && ctx.db_signals_degraded {
        Some("both_signals_degraded_on_sensitive_action")
    } else if ctx.redis_signals_degraded {
        Some("redis_signals_degraded_on_sensitive_action")
    } else if ctx.db_signals_degraded {
        Some("db_signals_degraded_on_sensitive_action")
    } else {
        None
    }
}

/// The verdict when signals are degraded on a sensitive action: a WebAuthn
/// step-up challenge that alerts operators, whatever the score, with the
/// factors ordered by contribution, highest first.
pub fn build_degraded_verdict(ctx: &RiskContext, final_score: u8, rule: &str, factors: Vec<Factor>) -> (v: Verdict)
    ensures
        v.decision == Decision::Challenge,
        v.score == final_score,
        v.required_action == Some(RequiredAction::StepUpWebAuthn),
        v.triggered_gates@.len() == 0,
        text::strings_view(v.triggered_rules@) == seq![rule@],
        factors_view(v.contributing_factors@) == sorted_by_contribution(factors_view(factors@)),
        !v.lock_account,
        !v.notify_user,
        v.notify_admin,
        v.hold_reason is None,
        v.signals_degraded,
        !v.escalated,
        v.base_score == final_score,
        v.adjusted_score == final_score,
        v.org_risk_score == ctx.org_risk_score,
        v.cluster_factors@.len() == 0,
        v.applied_threshold_shift == 0,
{
    let mut rules: Vec<String> = Vec::new();
    rules.push(text::owned(rule));
    assert(text::strings_view(rules@) =~= seq![rule@]);
    Verdict {
        decision: Decision::Challenge,
        score: final_score,
        required_action: Some(RequiredAction::StepUpWebAuthn),
        triggered_gates: Vec::new(),
        triggered_rules: rules,
        contributing_factors: sort_factors(&factors),
        lock_account: false,
        notify_user: false,
        notify_admin: true,
        hold_reason: None,
        signals_degraded: true,
        escalated: false,
        base_score: final_score,
        adjusted_score: final_score,
        org_risk_score: ctx.org_risk_score,
        cluster_factors: Vec::new(),
        applied_threshold_shift: 0,
    }
}


// ─────────────────────────────────────────────────────────────────────────────
// Scored verdict
// ─────────────────────────────────────────────────────────────────────────────

/// `scaled + a`, saturating, capped at 100.
pub open spec fn spec_final_score(scaled: u8, a: u8) -> u8 {
    if scaled + a <= 100 { (scaled + a) as u8 } else { 100 }
}

/// Combine the scaled weighted base with the absolute adder.
pub fn combine_final_score(scaled: u8, a: u8) -> (r: u8)
    ensures
        r == spec_final_score(scaled, a),
{
    let sum = scaled.saturating_add(a);
    if sum < 100 { sum } else { 100 }
}

/// The effective score: the final score plus the org/cluster bias (capped at
/// 100), then shifted by the threshold shift and clamped to 0..=100.
pub open spec fn spec_effective_score(final_score: u8, total_bias: u8, shift: i8) -> u8 {
    let after_bias = if final_score + total_bias <= 100 { final_score + total_bias } else { 100 };
    let shifted = after_bias + shift;
    if shifted < 0 { 0 } else if shifted > 100 { 100 } else { shifted as u8 }
}

/// Apply the org/cluster adjustment to the final score.
pub fn adjust_score(final_score: u8, bias: &OrgClusterBias) -> (r: u8)
    ensures
        r == spec_effective_score(final_score, bias.total_bias, bias.threshold_shift),
{
    let sum = final_score.saturating_add(bias.total_bias);
    let after_bias: u8 = if sum < 100 { sum } else { 100 };
    let shifted: i16 = after_bias as i16 + bias.threshold_shift as i16;
    if shifted < 0 {
        0
    } else if shifted > 100 {
        100
    } else {
        shifted as u8
    }
}

/// Org signals only ever add: with a non-negative threshold shift the
/// effective score is never below the final score, and it stays within 0..=100.
pub proof fn lemma_effective_score_additive(final_score: u8, total_bias: u8, shift: i8)
    requires
        final_score <= 100,
        shift >= 0,
    ensures
        spec_effective_score(final_score, total_bias, shift) >= final_score,
        spec_effective_score(final_score, total_bias, shift) <= 100,
{
}

/// Org signals fail open: with no org score, no cluster membership and no
/// threshold shift, the plan adds nothing, reports no cluster factor, and
/// decides on the final score itself.
pub proof fn lemma_org_fail_open(ctx: &RiskContext, final_score: u8)
    requires
        final_score <= 100,
        ctx.org_risk_score is None,
        ctx.cluster_contribution is None,
        ctx.threshold_shift is None,
    ensures
        spec_total_bias(spec_org_part(ctx.org_risk_score), spec_cluster_part(option_ref(&ctx.cluster_contribution))) == 0,
        spec_bias_factors(ctx.org_risk_score, option_ref(&ctx.cluster_contribution), ctx.org_active_cluster_count).len() == 0,
        spec_effective_score(final_score, 0, 0) == final_score,
{
}

pub open spec fn factor_names(fs: Seq<FactorView>) -> Seq<Seq<char>> {
    Seq::new(fs.len(), |i: int| fs[i].name)
}

/// The hold reason: the path that led to the hold, the first three factor
/// names and the action.
pub open spec fn spec_hold_reason(action: RiskAction, fs: Seq<FactorView>, escalated: bool) -> Seq<char> {
    let n: int = if fs.len() < 3 { fs.len() as int } else { 3 };
    (if escalated {
        "Escalated from repeated challenges. Top signals: "@
    } else {
        "Score threshold exceeded. Top signals: "@
    }) + text::join(factor_names(fs.take(n)), ", "@) + ". Action: "@ + action.spec_label() + "."@
}

/// Human-readable reason for a Hold decision.
pub fn build_hold_reason(ctx: &RiskContext, factors: &[Factor], escalated: bool) -> (r: String)
    ensures
        r@ == spec_hold_reason(ctx.action, factors_view(factors@), escalated),
{
    let ghost fs = factors_view(factors@);
    let n: usize = if factors.len() < 3 { factors.len() } else { 3 };
    let mut r = if escalated {
        text::owned("Escalated from repeated challenges. Top signals: ")
    } else {
        text::owned("Score threshold exceeded. Top signals: ")
    };
    let ghost head = r@;
    let mut joined = String::new();
    let mut i: usize = 0;
    while i < n
        invariant
            n <= factors.len(),
            i <= n,
            fs == factors_view(factors@),
            joined@ == text::join(factor_names(fs.take(i as int)), ", "@),
        decreases n - i,
    {
        let ghost prev = joined@;
        if i > 0 {
            text::push_str(&mut joined, ", ");
        }
        text::push_str(&mut joined, factors[i].name.as_str());
        proof {
            let p1 = factor_names(fs.take(i as int + 1));
            assert(p1.drop_last() =~= factor_names(fs.take(i as int)));
            assert(p1.last() == factors@[i as int].name@);
            if i == 0 {
                assert(joined@ =~= text::join(p1, ", "@));
            } else {
                assert(joined@ =~= text::join(p1, ", "@));
            }
        }
        i = i + 1;
    }
    text::push_str(&mut r, joined.as_str());
    text::push_str(&mut r, ". Action: ");
    text::push_str(&mut r, ctx.action.label());
    text::push_str(&mut r, ".");
    r
}

/// The factors with contribution `v`, in their input order.
pub open spec fn with_contribution(fs: Seq<FactorView>, v: int) -> Seq<FactorView>
    decreases fs.len(),
{
    if fs.len() == 0 {
        Seq::empty()
    } else {
        let rest = with_contribution(fs.drop_last(), v);
        if fs.last().contribution == v { rest.push(fs.last()) } else { rest }
    }
}

/// The factors with contribution `lo` or more, highest contribution first,
/// keeping the input order among equal contributions.
pub open spec fn desc_levels(fs: Seq<FactorView>, lo: int) -> Seq<FactorView>
    decreases 256 - lo,
{
    if lo > 255 {
        Seq::empty()
    } else {
        desc_levels(fs, lo + 1) + with_contribution(fs, lo)
    }
}

/// The factors ordered by contribution, highest first; a stable sort.
pub open spec fn sorted_by_contribution(fs: Seq<FactorView>) -> Seq<FactorView> {
    desc_levels(fs, 0)
}

proof fn lemma_with_contribution(fs: Seq<FactorView>, v: int)
    ensures
        forall|k: int| 0 <= k < with_contribution(fs, v).len() ==> (#[trigger] with_contribution(fs, v)[k]).contribution == v
            && fs.contains(with_contribution(fs, v)[k]),
    decreases fs.len(),
{
    if fs.len() > 0 {
        lemma_with_contribution(fs.drop_last(), v);
        let rest = with_contribution(fs.drop_last(), v);
        assert forall|k: int| 0 <= k < with_contribution(fs, v).len() implies (#[trigger] with_contribution(fs, v)[k]).contribution == v
            && fs.contains(with_contribution(fs, v)[k]) by {
            if k < rest.len() {
                assert(with_contribution(fs, v)[k] == rest[k]);
                let j = choose|j: int| 0 <= j < fs.drop_last().len() && fs.drop_last()[j] == rest[k];
                assert(fs[j] == rest[k]);
            } else {
                assert(with_contribution(fs, v)[k] == fs.last());
                assert(fs[fs.len() - 1] == fs.last());
            }
        }
    }
}

proof fn lemma_desc_levels(fs: Seq<FactorView>, lo: int)
    requires
        0 <= lo,
    ensures
        forall|k: int| 0 <= k < desc_levels(fs, lo).len() ==> (#[trigger] desc_levels(fs, lo)[k]).contribution >= lo
            && fs.contains(desc_levels(fs, lo)[k]),
        forall|a: int, b: int| 0 <= a < b < desc_levels(fs, lo).len()
            ==> (#[trigger] desc_levels(fs, lo)[a]).contribution >= (#[trigger] desc_levels(fs, lo)[b]).contribution,
    decreases 256 - lo,
{
    if lo <= 255 {
        lemma_desc_levels(fs, lo + 1);
        lemma_with_contribution(fs, lo);
        let hi = desc_levels(fs, lo + 1);
        let eq = with_contribution(fs, lo);
        let all = desc_levels(fs, lo);
        assert(all == hi + eq);
        assert forall|k: int| 0 <= k < all.len() implies (#[trigger] all[k]).contribution >= lo && fs.contains(all[k]) by {
            if k < hi.len() {
                assert(all[k] == hi[k]);
            } else {
                assert(all[k] == eq[k - hi.len()]);
            }
        }
        assert forall|a: int, b: int| 0 <= a < b < all.len() implies (#[trigger] all[a]).contribution >= (#[trigger] all[b]).contribution by {
            if b < hi.len() {
                assert(all[a] == hi[a] && all[b] == hi[b]);
            } else if a < hi.len() {
                assert(all[a] == hi[a] && all[b] == eq[b - hi.len()]);
            } else {
                assert(all[a] == eq[a - hi.len()] && all[b] == eq[b - hi.len()]);
            }
        }
    }
}

/// The sorted factors are ordered by contribution, highest first, and each
/// of them is one of the input factors.
pub proof fn lemma_sorted_by_contribution(fs: Seq<FactorView>)
    ensures
        forall|a: int, b: int| 0 <= a < b < sorted_by_contribution(fs).len()
            ==> (#[trigger] sorted_by_contribution(fs)[a]).contribution >= (#[trigger] sorted_by_contribution(fs)[b]).contribution,
        forall|k: int| 0 <= k < sorted_by_contribution(fs).len() ==> fs.contains(#[trigger] sorted_by_contribution(fs)[k]),
{
    lemma_desc_levels(fs, 0);
}

/// Sort factors by contribution, descending, keeping the scoring order among
/// equal contributions.
pub fn sort_factors(factors: &Vec<Factor>) -> (r: Vec<Factor>)
    ensures
        factors_view(r@) == sorted_by_contribution(factors_view(factors@)),
{
    let ghost fs = factors_view(factors@);
    let mut out: Vec<Factor> = Vec::new();
    let mut level: u16 = 256;
    assert(factors_view(out@) =~= desc_levels(fs, 256));
    while level > 0
        invariant
            level <= 256,
            fs == factors_view(factors@),
            factors_view(out@) == desc_levels(fs, level as int),
        decreases level,
    {
        let v: u8 = (level - 1) as u8;
        let ghost above = desc_levels(fs, level as int);
        let mut j: usize = 0;
        assert(factors_view(out@) =~= above + with_contribution(fs.take(0), v as int));
        while j < factors.len()
            invariant
                j <= factors.len(),
                fs == factors_view(factors@),
                factors_view(out@) == above + with_contribution(fs.take(j as int), v as int),
            decreases factors.len() - j,
        {
            let ghost prev = out@;
            assert(fs.take(j as int + 1).drop_last() =~= fs.take(j as int));
            assert(fs.take(j as int + 1).last() == fs[j as int]);
            if factors[j].contribution == v {
                let f = factors[j].clone();
                out.push(f);
                assert(factors_view(out@) =~= factors_view(prev).push(f@));
            }
            j = j + 1;
            assert(factors_view(out@) =~= above + with_contribution(fs.take(j as int), v as int));
        }
        assert(fs.take(factors.len() as int) =~= fs);
        level = level - 1;
        assert(desc_levels(fs, level as int) == above + with_contribution(fs, level as int));
    }
    out
}

/// The names of the factors, in order.
pub fn factor_name_list(factors: &[Factor]) -> (r: Vec<String>)
    ensures
        text::strings_view(r@) == factor_names(factors_view(factors@)),
{
    let mut names: Vec<String> = Vec::new();
    let mut i: usize = 0;
    while i < factors.len()
        invariant
            i <= factors.len(),
            names@.len() == i,
            text::strings_view(names@) == factor_names(factors_view(factors@).take(i as int)),
        decreases factors.len() - i,
    {
        let n = factors[i].name.clone();
        let ghost before = names@;
        names.push(n);
        proof {
            assert forall|k: int| 0 <= k < names@.len() implies #[trigger] names@[k]@
                == factor_names(factors_view(factors@).take(i as int + 1))[k] by {
                if k < before.len() {
                    assert(names@[k] == before[k]);
                    assert(before[k]@ == text::strings_view(before)[k]);
                }
            }
        }
        i = i + 1;
        assert(text::strings_view(names@) =~= factor_names(factors_view(factors@).take(i as int)));
    }
    assert(factors_view(factors@).take(factors.len() as int) =~= factors_view(factors@));
    names
}

/// The decision after the escalation store's reply: a reported escalation
/// replaces the decision and its required action; a failed or negative reply
/// keeps the initial one.
pub open spec fn spec_after_escalation(
    initial: (Decision, Option<RequiredAction>),
    reply: Option<(Decision, bool)>,
) -> (Decision, Option<RequiredAction>, bool) {
    match reply {
        Some((d, true)) => (d, spec_escalation_required_action(d), true),
        _ => (initial.0, initial.1, false),
    }
}

/// On the scored path a required action is named exactly when the final
/// decision is a Challenge, whatever the escalation store replied.
pub proof fn lemma_required_action_only_for_challenge(score: u8, ctx: &RiskContext, reply: Option<(Decision, bool)>)
    ensures
        ({
            let (d, a, esc) = spec_after_escalation(spec_score_to_decision(score, ctx), reply);
            a is Some <==> d == Decision::Challenge
        }),
{
    crate::engine::lemma_decision_carries_action(score, ctx);
}

/// The verdict of a scored request, once the escalation store has replied.
///
/// `initial` is the decision mapped from `effective_score`; `reply` is the
/// store's `(final decision, escalated)` answer, `None` when it failed.
pub fn conclude_scored(
    ctx: &RiskContext,
    final_score: u8,
    effective_score: u8,
    initial: (Decision, Option<RequiredAction>),
    reply: Option<(Decision, bool)>,
    factors: Vec<Factor>,
    org_cluster: OrgClusterBias,
) -> (v: Verdict)
    ensures
        ({
            let (d, a, esc) = spec_after_escalation(initial, reply);
            &&& v.decision == d
            &&& v.required_action == a
            &&& v.escalated == esc
            &&& v.lock_account == spec_should_lock(d, ctx.action)
            &&& v.notify_user == d.spec_is_blocking()
            &&& v.notify_admin == (d == Decision::Hold || d == Decision::Deny)
            &&& text::opt_view(v.hold_reason) == if d == Decision::Hold {
                Some(spec_hold_reason(ctx.action, factors_view(factors@), esc))
            } else {
                None
            }
        }),
        v.score == final_score,
        v.base_score == final_score,
        v.adjusted_score == effective_score,
        factors_view(v.contributing_factors@) == sorted_by_contribution(factors_view(factors@)),
        text::strings_view(v.triggered_rules@) == factor_names(sorted_by_contribution(factors_view(factors@))),
        v.triggered_gates@.len() == 0,
        v.signals_degraded == (ctx.redis_signals_degraded || ctx.db_signals_degraded),
        v.org_risk_score == ctx.org_risk_score,
        cluster_factors_view(v.cluster_factors@) == cluster_factors_view(org_cluster.factors@),
        v.applied_threshold_shift == org_cluster.threshold_shift,
{
    let (mut decision, mut required_action) = initial;
    let mut escalated = false;
    if let Some((d, was_escalated)) = reply {
        if was_escalated {
            required_action = escalation_required_action(&d);
            decision = d;
            escalated = true;
        }
    }
    let lock_account = should_lock_account(&decision, &ctx.action);
    let notify_user = decision.is_blocking();
    let notify_admin = match decision {
        Decision::Hold | Decision::Deny => true,
        _ => false,
    };
    let hold_reason = match decision {
        Decision::Hold => Some(build_hold_reason(ctx, &factors, escalated)),
        _ => None,
    };
    let sorted = sort_factors(&factors);
    let triggered_rules = factor_name_list(&sorted);
    Verdict {
        decision,
        score: final_score,
        required_action,
        triggered_gates: Vec::new(),
        triggered_rules,
        contributing_factors: sorted,
        lock_account,
        notify_user,
        notify_admin,
        hold_reason,
        signals_degraded: ctx.redis_signals_degraded || ctx.db_signals_degraded,
        escalated,
        base_score: final_score,
        adjusted_score: effective_score,
        org_risk_score: ctx.org_risk_score,
        cluster_factors: org_cluster.factors,
        applied_threshold_shift: org_cluster.threshold_shift,
    }
}

/// The decision state of a scored request before escalation memory is
/// consulted.
#[derive(Debug)]
pub struct ScoredPlan {
    pub org_cluster: OrgClusterBias,
    pub effective_score: u8,
    pub decision: Decision,
    pub required_action: Option<RequiredAction>,
}

/// Org/cluster adjustment and the initial decision for a scored request.
pub fn plan_scored(ctx: &RiskContext, final_score: u8) -> (p: ScoredPlan)
    ensures
        p.org_cluster.org_bias == spec_org_part(ctx.org_risk_score),
        p.org_cluster.cluster_bias == spec_cluster_part(option_ref(&ctx.cluster_contribution)),
        p.org_cluster.total_bias == spec_total_bias(p.org_cluster.org_bias, p.org_cluster.cluster_bias),
        p.org_cluster.threshold_shift as int == match ctx.threshold_shift { Some(t) => clamp_shift(t as int), None => 0 },
        cluster_factors_view(p.org_cluster.factors@)
            == spec_bias_factors(ctx.org_risk_score, option_ref(&ctx.cluster_contribution), ctx.org_active_cluster_count),
        p.effective_score == spec_effective_score(final_score, p.org_cluster.total_bias, p.org_cluster.threshold_shift),
        (p.decision, p.required_action) == spec_score_to_decision(p.effective_score, ctx),
{
    let org_cluster = compute_org_cluster_bias(
        ctx.org_risk_score,
        ctx.cluster_contribution.as_ref(),
        ctx.threshold_shift,
        ctx.org_active_cluster_count,
    );
    let effective_score = adjust_score(final_score, &org_cluster);
    let (decision, required_action) = score_to_decision(effective_score, ctx);
    ScoredPlan { org_cluster, effective_score, decision, required_action }
}

/// `Option<T>` to `Option<&T>`.
pub open spec fn option_ref<T>(o: &Option<T>) -> Option<&T> {
    match o {
        Some(x) => Some(x),
        None => None,
    }
}

} // verus!
