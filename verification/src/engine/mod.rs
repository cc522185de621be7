//! The evaluation pipeline around the scorers.
pub mod escalation;
pub mod verdict;
use vstd::prelude::*;
use crate::text;
use crate::timeutil::{minutes_between, spec_minutes_between};
use crate::context::{RequiredAction, RiskAction, RiskContext};
use crate::decision::{Decision, Factor, FactorView, ScoreComponent, factors_view};
use crate::scoring::{Candidate, rule, spec_fold, tracks, apply_rule, names_rule, reports, lemma_names_rule_concat, lemma_fold_reports_only_fired, lemma_fold_reports_fired};
use crate::policy::hard_gates::{spec_critical_privileged, spec_fingerprint_mismatch, is_critical_privileged_action};

verus! {

// ─────────────────────────────────────────────────────────────────────────────
// Absolute adder — the A term
// ─────────────────────────────────────────────────────────────────────────────

/// Cap of the absolute adder.
pub const ABSOLUTE_CAP: u8 = 30;

/// `seq![c]` when `b` holds, else the empty sequence.
pub open spec fn fires(b: bool, c: Candidate) -> Seq<Candidate> {
    if b { seq![c] } else { Seq::empty() }
}

pub open spec fn is_add_admin(action: RiskAction) -> bool {
    match action {
        RiskAction::ActionExecute { action_name } => action_name@ == "add_admin"@,
        _ => false,
    }
}

/// The absolute-adder rules that fire, in evaluation order.
pub open spec fn absolute_rules(ctx: &RiskContext) -> Seq<Candidate> {
    let sensitive = ctx.action.spec_is_sensitive();
    let age = spec_minutes_between(ctx.evaluated_at_ms, ctx.credential_created_at_ms);
    Seq::empty()
        + fires(age < 5 && sensitive, rule("fresh_credential_sensitive_action"@, 20,
            "Credential registered "@ + text::decimal_int(age) + "m ago attempting sensitive action"@))
        + fires(ctx.recovery_pending, rule("recovery_pending"@, 15,
            "An active recovery request exists for this user"@))
        + fires(is_add_admin(ctx.action) && ctx.prior_audit_event_count < 10, rule("add_admin_low_history"@, 20,
            "add_admin attempted with only "@ + text::decimal(ctx.prior_audit_event_count as nat) + " prior audit events"@))
        + fires(ctx.jwt_fingerprint_stored is None && ctx.jwt_issued_at_ms is Some && sensitive,
            rule("unfingerprinted_jwt_sensitive"@, 5,
            "JWT predates fingerprint deployment; cannot verify client binding"@))
        + fires(ctx.breached_credential == Some(true) && !sensitive, rule("breached_credential"@, 15,
            "Credential found in breach database (non-sensitive action, not hard-gated)"@))
        + fires(ctx.email_domain_disposable == Some(true)
            && (match ctx.account_age_days { Some(d) => d < 7, None => false }) && sensitive,
            rule("disposable_email_young_account_sensitive"@, 15,
            "Disposable email domain + account <7 days old + sensitive action (sybil risk)"@))
}

/// A rule list of at most one rule carries the name only when that rule fired.
proof fn lemma_names_fires(b: bool, c: Candidate, n: Seq<char>)
    ensures
        names_rule(fires(b, c), n) <==> (b && c.name == n),
{
    if b {
        assert(fires(b, c)[0] == c);
    }
}

/// The account is known to be younger than seven days.
pub open spec fn account_younger_than_a_week(ctx: &RiskContext) -> bool {
    match ctx.account_age_days {
        Some(d) => d < 7,
        None => false,
    }
}

/// The A term and the factors it reports.
pub open spec fn spec_absolute_adder(ctx: &RiskContext) -> (u8, Seq<FactorView>) {
    spec_fold(absolute_rules(ctx), ABSOLUTE_CAP, ScoreComponent::Absolute, 0)
}

/// The sybil adder (disposable e-mail domain on a young account performing a
/// sensitive action) is reported only when the e-mail domain is disposable,
/// the account is known to be younger than seven days and the action is
/// sensitive: an account of unknown age or a week old or more never gets it.
/// When all three hold it is reported, unless the adder already reached its
/// cap.
pub proof fn lemma_sybil_adder_needs_young_account(ctx: &RiskContext)
    ensures
        reports(spec_absolute_adder(ctx).1, "disposable_email_young_account_sensitive"@) ==> {
            &&& ctx.email_domain_disposable == Some(true)
            &&& account_younger_than_a_week(ctx)
            &&& ctx.action.spec_is_sensitive()
        },
        (ctx.email_domain_disposable == Some(true) && account_younger_than_a_week(ctx) && ctx.action.spec_is_sensitive()) ==>
            reports(spec_absolute_adder(ctx).1, "disposable_email_young_account_sensitive"@)
            || spec_absolute_adder(ctx).0 == ABSOLUTE_CAP,
{
    let n = "disposable_email_young_account_sensitive"@;
    reveal_strlit("disposable_email_young_account_sensitive");
    reveal_strlit("fresh_credential_sensitive_action");
    reveal_strlit("recovery_pending");
    reveal_strlit("add_admin_low_history");
    reveal_strlit("unfingerprinted_jwt_sensitive");
    reveal_strlit("breached_credential");
    let sensitive = ctx.action.spec_is_sensitive();
    let age = spec_minutes_between(ctx.evaluated_at_ms, ctx.credential_created_at_ms);
    let c1 = rule("fresh_credential_sensitive_action"@, 20,
        "Credential registered "@ + text::decimal_int(age) + "m ago attempting sensitive action"@);
    let c2 = rule("recovery_pending"@, 15, "An active recovery request exists for this user"@);
    let c3 = rule("add_admin_low_history"@, 20,
        "add_admin attempted with only "@ + text::decimal(ctx.prior_audit_event_count as nat) + " prior audit events"@);
    let c4 = rule("unfingerprinted_jwt_sensitive"@, 5, "JWT predates fingerprint deployment; cannot verify client binding"@);
    let c5 = rule("breached_credential"@, 15, "Credential found in breach database (non-sensitive action, not hard-gated)"@);
    let c6 = rule("disposable_email_young_account_sensitive"@, 15,
        "Disposable email domain + account <7 days old + sensitive action (sybil risk)"@);
    let b1 = age < 5 && sensitive;
    let b2 = ctx.recovery_pending;
    let b3 = is_add_admin(ctx.action) && ctx.prior_audit_event_count < 10;
    let b4 = ctx.jwt_fingerprint_stored is None && ctx.jwt_issued_at_ms is Some && sensitive;
    let b5 = ctx.breached_credential == Some(true) && !sensitive;
    let b6 = ctx.email_domain_disposable == Some(true) && account_younger_than_a_week(ctx) && sensitive;
    let e = Seq::<Candidate>::empty();
    let p1 = e + fires(b1, c1);
    let p2 = p1 + fires(b2, c2);
    let p3 = p2 + fires(b3, c3);
    let p4 = p3 + fires(b4, c4);
    let p5 = p4 + fires(b5, c5);
    let rules = p5 + fires(b6, c6);
    assert(rules == absolute_rules(ctx));
    lemma_names_rule_concat(e, fires(b1, c1), n);
    lemma_names_rule_concat(p1, fires(b2, c2), n);
    lemma_names_rule_concat(p2, fires(b3, c3), n);
    lemma_names_rule_concat(p3, fires(b4, c4), n);
    lemma_names_rule_concat(p4, fires(b5, c5), n);
    lemma_names_rule_concat(p5, fires(b6, c6), n);
    lemma_names_fires(b1, c1, n);
    lemma_names_fires(b2, c2, n);
    lemma_names_fires(b3, c3, n);
    lemma_names_fires(b4, c4, n);
    lemma_names_fires(b5, c5, n);
    lemma_names_fires(b6, c6, n);
    assert(c1.name.len() != n.len());
    assert(c2.name.len() != n.len());
    assert(c3.name.len() != n.len());
    assert(c4.name.len() != n.len());
    assert(c5.name.len() != n.len());
    assert(!names_rule(e, n));
    lemma_fold_reports_only_fired(rules, ABSOLUTE_CAP, ScoreComponent::Absolute, 0, n);
    if b6 {
        assert(rules[rules.len() - 1] == c6);
        lemma_fold_reports_fired(rules, ABSOLUTE_CAP, ScoreComponent::Absolute, 0, rules.len() - 1);
    }
}

fn apply_when(
    b: bool,
    score: &mut u8,
    factors: &mut Vec<Factor>,
    name: &str,
    weight: u8,
    description: String,
    Ghost(base): Ghost<Seq<FactorView>>,
    Ghost(prev): Ghost<Seq<Candidate>>,
)
    requires
        tracks(*old(score), old(factors)@, base, prev, ABSOLUTE_CAP, ScoreComponent::Absolute, 0),
    ensures
        tracks(*final(score), final(factors)@, base, prev + fires(b, rule(name@, weight, description@)),
            ABSOLUTE_CAP, ScoreComponent::Absolute, 0),
{
    let ghost c = rule(name@, weight, description@);
    if b {
        apply_rule(score, ABSOLUTE_CAP, ScoreComponent::Absolute, factors, name, weight, description,
            Ghost(base), Ghost(prev), Ghost(0));
        assert(prev.push(c) =~= prev + fires(b, c));
    } else {
        assert(prev =~= prev + fires(b, c));
    }
}

fn action_is_add_admin(action: &RiskAction) -> (r: bool)
    ensures
        r == is_add_admin(*action),
{
    match action {
        RiskAction::ActionExecute { action_name } => text::str_eq(action_name.as_str(), "add_admin"),
        _ => false,
    }
}

/// Absolute adder: composite signals added after multiplication, capped at 30.
pub fn compute_absolute_adder(ctx: &RiskContext, factors: &mut Vec<Factor>) -> (a: u8)
    ensures
        a == spec_absolute_adder(ctx).0,
        factors_view(final(factors)@) == factors_view(old(factors)@) + spec_absolute_adder(ctx).1,
{
    let ghost base = factors_view(factors@);
    let mut a: u8 = 0;
    proof {
        assert(base + Seq::<FactorView>::empty() =~= base);
    }
    let sensitive = ctx.action.is_sensitive();
    let age_minutes = minutes_between(ctx.evaluated_at_ms, ctx.credential_created_at_ms);
    let ghost c0: Seq<Candidate> = Seq::empty();
    apply_when(age_minutes < 5 && sensitive, &mut a, factors, "fresh_credential_sensitive_action", 20,
        text::with_signed_number("Credential registered ", age_minutes, "m ago attempting sensitive action"),
        Ghost(base), Ghost(c0));
    let ghost c1 = c0 + fires(age_minutes < 5 && sensitive, rule("fresh_credential_sensitive_action"@, 20,
        "Credential registered "@ + text::decimal_int(age_minutes as int) + "m ago attempting sensitive action"@));
    apply_when(ctx.recovery_pending, &mut a, factors, "recovery_pending", 15,
        text::owned("An active recovery request exists for this user"), Ghost(base), Ghost(c1));
    let ghost c2 = c1 + fires(ctx.recovery_pending, rule("recovery_pending"@, 15,
        "An active recovery request exists for this user"@));
    let add_admin_low = action_is_add_admin(&ctx.action) && ctx.prior_audit_event_count < 10;
    apply_when(add_admin_low, &mut a, factors, "add_admin_low_history", 20,
        text::with_number("add_admin attempted with only ", ctx.prior_audit_event_count as u64, " prior audit events"),
        Ghost(base), Ghost(c2));
    let ghost c3 = c2 + fires(add_admin_low, rule("add_admin_low_history"@, 20,
        "add_admin attempted with only "@ + text::decimal(ctx.prior_audit_event_count as nat) + " prior audit events"@));
    let unfingerprinted = ctx.jwt_fingerprint_stored.is_none() && ctx.jwt_issued_at_ms.is_some() && sensitive;
    apply_when(unfingerprinted, &mut a, factors, "unfingerprinted_jwt_sensitive", 5,
        text::owned("JWT predates fingerprint deployment; cannot verify client binding"), Ghost(base), Ghost(c3));
    let ghost c4 = c3 + fires(unfingerprinted, rule("unfingerprinted_jwt_sensitive"@, 5,
        "JWT predates fingerprint deployment; cannot verify client binding"@));
    let breached = ctx.breached_credential == Some(true) && !sensitive;
    apply_when(breached, &mut a, factors, "breached_credential", 15,
        text::owned("Credential found in breach database (non-sensitive action, not hard-gated)"), Ghost(base), Ghost(c4));
    let ghost c5 = c4 + fires(breached, rule("breached_credential"@, 15,
        "Credential found in breach database (non-sensitive action, not hard-gated)"@));
    let young = match ctx.account_age_days {
        Some(d) => d < 7,
        None => false,
    };
    let sybil = ctx.email_domain_disposable == Some(true) && young && sensitive;
    apply_when(sybil, &mut a, factors, "disposable_email_young_account_sensitive", 15,
        text::owned("Disposable email domain + account <7 days old + sensitive action (sybil risk)"), Ghost(base), Ghost(c5));
    a
}


// ─────────────────────────────────────────────────────────────────────────────
// Score → decision mapping
// ─────────────────────────────────────────────────────────────────────────────

/// The challenge a Challenge-band score asks for: re-login in the high
/// bracket, device re-verification on a fingerprint mismatch, else a WebAuthn
/// step-up.
pub open spec fn spec_challenge_action(score: u8, ctx: &RiskContext) -> RequiredAction {
    if score >= 60 {
        RequiredAction::ReLogin
    } else if spec_fingerprint_mismatch(ctx) {
        RequiredAction::ReverifyDevice
    } else {
        RequiredAction::StepUpWebAuthn
    }
}

/// The decision band of a score under the context's thresholds.
pub open spec fn spec_band(score: u8, ctx: &RiskContext) -> (Decision, Option<RequiredAction>) {
    if score <= ctx.policy.threshold_allow_max {
        (Decision::Allow, None)
    } else if score <= ctx.policy.threshold_challenge_max {
        (Decision::Challenge, Some(spec_challenge_action(score, ctx)))
    } else if score <= ctx.policy.threshold_hold_max {
        (Decision::Hold, None)
    } else {
        (Decision::Deny, None)
    }
}

/// Both JWT fingerprints are present and differ.
pub open spec fn both_fingerprints_differ(ctx: &RiskContext) -> bool {
    match (ctx.jwt_fingerprint_stored, ctx.jwt_fingerprint_current) {
        (Some(s), Some(c)) => s@ != c@,
        _ => false,
    }
}

/// The score's band, with an Allow upgraded to a device re-verification
/// challenge when both JWT fingerprints are present and differ.
pub open spec fn spec_score_to_decision(score: u8, ctx: &RiskContext) -> (Decision, Option<RequiredAction>) {
    let base = spec_band(score, ctx);
    if both_fingerprints_differ(ctx) && base.0 == Decision::Allow {
        (Decision::Challenge, Some(RequiredAction::ReverifyDevice))
    } else {
        base
    }
}

/// Choose the challenge type from the score bracket and the session state.
pub fn challenge_action_for(score: u8, ctx: &RiskContext) -> (r: RequiredAction)
    ensures
        r == spec_challenge_action(score, ctx),
{
    if score >= 60 {
        return RequiredAction::ReLogin;
    }
    if ctx.jwt_fingerprint_stored.is_some()
        && !text::opt_string_eq(&ctx.jwt_fingerprint_current, &ctx.jwt_fingerprint_stored) {
        return RequiredAction::ReverifyDevice;
    }
    RequiredAction::StepUpWebAuthn
}

/// Map an effective score to the initial decision and the action it requires.
pub fn score_to_decision(score: u8, ctx: &RiskContext) -> (r: (Decision, Option<RequiredAction>))
    ensures
        r == spec_score_to_decision(score, ctx),
{
    let base = if score <= ctx.policy.threshold_allow_max {
        (Decision::Allow, None)
    } else if score <= ctx.policy.threshold_challenge_max {
        (Decision::Challenge, Some(challenge_action_for(score, ctx)))
    } else if score <= ctx.policy.threshold_hold_max {
        (Decision::Hold, None)
    } else {
        (Decision::Deny, None)
    };
    if let (Some(stored), Some(current)) = (&ctx.jwt_fingerprint_stored, &ctx.jwt_fingerprint_current) {
        if !text::str_eq(stored.as_str(), current.as_str()) && base.0 == Decision::Allow {
            return (Decision::Challenge, Some(RequiredAction::ReverifyDevice));
        }
    }
    base
}

/// With ordered thresholds, a higher score never yields a less severe decision.
pub proof fn lemma_score_to_decision_monotone(s1: u8, s2: u8, ctx: &RiskContext)
    requires
        s1 <= s2,
        ctx.policy.threshold_allow_max <= ctx.policy.threshold_challenge_max,
        ctx.policy.threshold_challenge_max <= ctx.policy.threshold_hold_max,
    ensures
        crate::engine::escalation::severity(spec_score_to_decision(s1, ctx).0)
            <= crate::engine::escalation::severity(spec_score_to_decision(s2, ctx).0),
{
}

/// A required action is named exactly when the decision is a Challenge.
pub proof fn lemma_decision_carries_action(score: u8, ctx: &RiskContext)
    ensures
        ({
            let (d, a) = spec_score_to_decision(score, ctx);
            d == Decision::Challenge <==> a is Some
        }),
{
}

/// The required action after an escalation promoted the decision.
pub open spec fn spec_escalation_required_action(promoted: Decision) -> Option<RequiredAction> {
    match promoted {
        Decision::Hold => None,
        Decision::Deny => None,
        Decision::Challenge => Some(RequiredAction::StepUpWebAuthn),
        Decision::Allow => None,
    }
}

/// The required action after an escalation promoted the decision.
pub fn escalation_required_action(promoted: &Decision) -> (r: Option<RequiredAction>)
    ensures
        r == spec_escalation_required_action(*promoted),
{
    match promoted {
        Decision::Hold => None,
        Decision::Deny => None,
        Decision::Challenge => Some(RequiredAction::StepUpWebAuthn),
        Decision::Allow => None,
    }
}

// ─────────────────────────────────────────────────────────────────────────────
// Directives
// ─────────────────────────────────────────────────────────────────────────────

/// A Deny locks the account for actions where continued retry is itself the
/// attack: login-class, recovery-class, device-destructive and the critical
/// `ActionExecute` names.
pub open spec fn spec_should_lock(decision: Decision, action: RiskAction) -> bool {
    decision == Decision::Deny && match action {
        RiskAction::Login | RiskAction::OauthComplete | RiskAction::Register
        | RiskAction::RecoveryStart | RiskAction::RecoveryApprove | RiskAction::RecoveryComplete
        | RiskAction::DeviceRevoke | RiskAction::DeviceMarkLost => true,
        RiskAction::ActionExecute { action_name } =>
            action_name@ == "add_admin"@ || action_name@ == "rotate_api_key"@ || action_name@ == "delete_resource"@,
        _ => false,
    }
}

/// Whether a decision locks the account.
pub fn should_lock_account(decision: &Decision, action: &RiskAction) -> (r: bool)
    ensures
        r == spec_should_lock(*decision, *action),
{
    if *decision != Decision::Deny {
        return false;
    }
    match action {
        RiskAction::Login | RiskAction::OauthComplete | RiskAction::Register
        | RiskAction::RecoveryStart | RiskAction::RecoveryApprove | RiskAction::RecoveryComplete
        | RiskAction::DeviceRevoke | RiskAction::DeviceMarkLost => true,
        RiskAction::ActionExecute { .. } => is_critical_privileged_action(action),
        _ => false,
    }
}

/// A registration Deny blocks the originating IP (sybil defence).
pub open spec fn spec_should_block_ip(decision: Decision, action: RiskAction) -> bool {
    decision == Decision::Deny && action == RiskAction::Register
}

/// Whether a decision blocks the request IP.
pub fn should_block_ip(decision: &Decision, action: &RiskAction) -> (r: bool)
    ensures
        r == spec_should_block_ip(*decision, *action),
{
    let register = match action {
        RiskAction::Register => true,
        _ => false,
    };
    *decision == Decision::Deny && register
}

} // verus!
