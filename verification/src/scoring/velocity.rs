//! B component: behavioural velocity.
use vstd::prelude::*;
use crate::text;
use crate::context::RiskContext;
use crate::decision::{Factor, FactorView, ScoreComponent, factors_view};
use crate::scoring::{Candidate, rule, spec_fold, tracks, apply_rule, names_rule, reports, lemma_names_rule_concat, lemma_fold_reports_only_fired, lemma_fold_reports_fired};

verus! {

#[verifier::opaque]
pub open spec fn velocity_login_rule(ctx: &RiskContext) -> Seq<Candidate> {
    match ctx.login_attempts_1m {
        Some(n) if n > 3 => seq![rule("login_velocity_burst"@, ctx.policy.b_login_burst,
            ""@ + text::decimal(n as nat) + " login attempts in last 1 minute (>3 threshold)"@)],
        _ => match ctx.login_attempts_5m {
            Some(n) if n > 10 => seq![rule("login_velocity_critical"@, ctx.policy.b_login_burst,
                ""@ + text::decimal(n as nat) + " login attempts in last 5 minutes (>10 threshold)"@)],
            Some(n) if n > 5 => seq![rule("login_velocity_elevated"@, ctx.policy.b_login_elevated,
                ""@ + text::decimal(n as nat) + " login attempts in last 5 minutes (>5 threshold)"@)],
            Some(n) if n > 3 => seq![rule("login_velocity_moderate"@, ctx.policy.b_login_moderate,
                ""@ + text::decimal(n as nat) + " login attempts in last 5 minutes (>3 threshold)"@)],
            _ => match ctx.login_attempts_1h {
                Some(n) if n > 20 => seq![rule("login_velocity_hourly"@, ctx.policy.b_login_hourly,
                    ""@ + text::decimal(n as nat) + " login attempts in last 1 hour (>20 threshold)"@)],
                _ => match ctx.login_attempts_24h {
                    Some(n) if n > 50 => seq![rule("login_velocity_daily"@, ctx.policy.b_login_daily,
                        ""@ + text::decimal(n as nat) + " login attempts in last 24 hours (>50 threshold)"@)],
                    _ => seq![],
                },
            },
        },
    }
}

#[verifier::opaque]
pub open spec fn velocity_failed_rule(ctx: &RiskContext) -> Seq<Candidate> {
    match ctx.failed_login_attempts_1h {
        Some(n) if n > 5 => seq![rule("failed_attempts_high"@, ctx.policy.b_failed_high,
            ""@ + text::decimal(n as nat) + " failed logins in last 1 hour (>5 threshold)"@)],
        Some(n) if n > 3 => seq![rule("failed_attempts_elevated"@, ctx.policy.b_failed_elevated,
            ""@ + text::decimal(n as nat) + " failed logins in last 1 hour (>3 threshold)"@)],
        _ => seq![],
    }
}

#[verifier::opaque]
pub open spec fn velocity_recovery_rule(ctx: &RiskContext) -> Seq<Candidate> {
    match ctx.recovery_requests_24h {
        Some(n) if n > 1 => seq![rule("recovery_velocity"@, ctx.policy.b_recovery_velocity,
            ""@ + text::decimal(n as nat) + " recovery requests in last 24 hours (>1 threshold)"@)],
        _ => seq![],
    }
}

#[verifier::opaque]
pub open spec fn velocity_action_rule(ctx: &RiskContext) -> Seq<Candidate> {
    match ctx.actions_executed_5m {
        Some(n) if n > 3 => seq![rule("action_velocity"@, ctx.policy.b_action_velocity,
            ""@ + text::decimal(n as nat) + " protected actions in last 5 minutes (>3 threshold)"@)],
        _ => seq![],
    }
}

#[verifier::opaque]
pub open spec fn velocity_revocation_rule(ctx: &RiskContext) -> Seq<Candidate> {
    match ctx.device_revocations_1h {
        Some(n) if n > 2 => seq![rule("revocation_spree"@, ctx.policy.b_revocation_spree,
            ""@ + text::decimal(n as nat) + " device revocations in last 1 hour (>2 threshold)"@)],
        Some(n) if n > 1 => seq![rule("revocation_elevated"@, ctx.policy.b_revocation_elevated,
            ""@ + text::decimal(n as nat) + " device revocations in last 1 hour (>1 threshold)"@)],
        _ => seq![],
    }
}

#[verifier::opaque]
pub open spec fn velocity_sybil_rule(ctx: &RiskContext) -> Seq<Candidate> {
    match ctx.registrations_from_ip_10m {
        Some(n) if n > 3 => seq![rule("sybil_registration"@, ctx.policy.b_sybil_registration,
            ""@ + text::decimal(n as nat) + " registrations from this IP in last 10 minutes (>3 threshold)"@)],
        _ => seq![],
    }
}

#[verifier::opaque]
pub open spec fn velocity_audit_rule(ctx: &RiskContext) -> Seq<Candidate> {
    if ctx.prior_audit_event_count == 0 {
        seq![rule("zero_audit_history"@, ctx.policy.b_zero_audit_history,
            "No prior audit events on record for this user"@)]
    } else {
        seq![]
    }
}

#[verifier::opaque]
pub open spec fn velocity_disposable_rule(ctx: &RiskContext) -> Seq<Candidate> {
    if ctx.email_domain_disposable == Some(true) {
        seq![rule("disposable_email"@, ctx.policy.b_disposable_email,
            "Email domain is a known disposable/temporary email provider"@)]
    } else {
        seq![]
    }
}

#[verifier::opaque]
pub open spec fn velocity_account_age_rule(ctx: &RiskContext) -> Seq<Candidate> {
    match ctx.account_age_days {
        Some(n) => if n == 0 && ctx.action.spec_is_sensitive() {
            seq![rule("young_account_sensitive"@, ctx.policy.b_young_account_critical,
                "Account created today is performing a sensitive action"@)]
        } else if n <= 3 && ctx.action.spec_is_sensitive() {
            seq![rule("new_account_sensitive"@, ctx.policy.b_young_account_new,
                "Account is only "@ + text::decimal(n as nat) + " days old and performing a sensitive action"@)]
        } else {
            seq![]
        },
        None => seq![],
    }
}

/// The behavioural rules that fire, in evaluation order.
pub open spec fn velocity_rules(ctx: &RiskContext) -> Seq<Candidate> {
    Seq::empty() + velocity_login_rule(ctx) + velocity_failed_rule(ctx) + velocity_recovery_rule(ctx) + velocity_action_rule(ctx) + velocity_revocation_rule(ctx) + velocity_sybil_rule(ctx) + velocity_audit_rule(ctx) + velocity_disposable_rule(ctx) + velocity_account_age_rule(ctx)
}

/// The B component and the factors it reports.
pub open spec fn spec_score_velocity(ctx: &RiskContext) -> (u8, Seq<FactorView>) {
    spec_fold(velocity_rules(ctx), ctx.policy.cap_behavioral, ScoreComponent::Behavioral, 0)
}

/// Among the behavioural rules, only the account-age rule can carry the
/// young-account names (no other rule name begins with `y` or `n`).
proof fn lemma_only_age_rule_named_young(ctx: &RiskContext)
    ensures
        !names_rule(velocity_login_rule(ctx), "young_account_sensitive"@) && !names_rule(velocity_login_rule(ctx), "new_account_sensitive"@),
        !names_rule(velocity_failed_rule(ctx), "young_account_sensitive"@) && !names_rule(velocity_failed_rule(ctx), "new_account_sensitive"@),
        !names_rule(velocity_recovery_rule(ctx), "young_account_sensitive"@) && !names_rule(velocity_recovery_rule(ctx), "new_account_sensitive"@),
        !names_rule(velocity_action_rule(ctx), "young_account_sensitive"@) && !names_rule(velocity_action_rule(ctx), "new_account_sensitive"@),
        !names_rule(velocity_revocation_rule(ctx), "young_account_sensitive"@) && !names_rule(velocity_revocation_rule(ctx), "new_account_sensitive"@),
        !names_rule(velocity_sybil_rule(ctx), "young_account_sensitive"@) && !names_rule(velocity_sybil_rule(ctx), "new_account_sensitive"@),
        !names_rule(velocity_audit_rule(ctx), "young_account_sensitive"@) && !names_rule(velocity_audit_rule(ctx), "new_account_sensitive"@),
        !names_rule(velocity_disposable_rule(ctx), "young_account_sensitive"@) && !names_rule(velocity_disposable_rule(ctx), "new_account_sensitive"@),
{
    reveal(velocity_login_rule);
    reveal(velocity_failed_rule);
    reveal(velocity_recovery_rule);
    reveal(velocity_action_rule);
    reveal(velocity_revocation_rule);
    reveal(velocity_sybil_rule);
    reveal(velocity_audit_rule);
    reveal(velocity_disposable_rule);
    reveal(velocity_account_age_rule);
    reveal_strlit("action_velocity");
    reveal_strlit("disposable_email");
    reveal_strlit("failed_attempts_elevated");
    reveal_strlit("failed_attempts_high");
    reveal_strlit("login_velocity_burst");
    reveal_strlit("login_velocity_critical");
    reveal_strlit("login_velocity_daily");
    reveal_strlit("login_velocity_elevated");
    reveal_strlit("login_velocity_hourly");
    reveal_strlit("login_velocity_moderate");
    reveal_strlit("recovery_velocity");
    reveal_strlit("revocation_elevated");
    reveal_strlit("revocation_spree");
    reveal_strlit("sybil_registration");
    reveal_strlit("zero_audit_history");
    reveal_strlit("young_account_sensitive");
    reveal_strlit("new_account_sensitive");
    let subs = seq![velocity_login_rule(ctx), velocity_failed_rule(ctx), velocity_recovery_rule(ctx), velocity_action_rule(ctx), velocity_revocation_rule(ctx), velocity_sybil_rule(ctx), velocity_audit_rule(ctx), velocity_disposable_rule(ctx)];
    assert forall|k: int, j: int| 0 <= k < 8 && 0 <= j < subs[k].len()
        implies (#[trigger] subs[k][j]).name.len() > 0 && subs[k][j].name[0] != 'y' && subs[k][j].name[0] != 'n' by {}
    assert forall|k: int| 0 <= k < 8 implies !names_rule(#[trigger] subs[k], "young_account_sensitive"@)
        && !names_rule(subs[k], "new_account_sensitive"@) by {
        if names_rule(subs[k], "young_account_sensitive"@) {
            let j = choose|j: int| 0 <= j < subs[k].len() && #[trigger] subs[k][j].name == "young_account_sensitive"@;
            assert(subs[k][j].name[0] != 'y');
        }
        if names_rule(subs[k], "new_account_sensitive"@) {
            let j = choose|j: int| 0 <= j < subs[k].len() && #[trigger] subs[k][j].name == "new_account_sensitive"@;
            assert(subs[k][j].name[0] != 'n');
        }
    }
    assert(subs[0] == velocity_login_rule(ctx));
    assert(subs[1] == velocity_failed_rule(ctx));
    assert(subs[2] == velocity_recovery_rule(ctx));
    assert(subs[3] == velocity_action_rule(ctx));
    assert(subs[4] == velocity_revocation_rule(ctx));
    assert(subs[5] == velocity_sybil_rule(ctx));
    assert(subs[6] == velocity_audit_rule(ctx));
    assert(subs[7] == velocity_disposable_rule(ctx));
}

/// On a sensitive action, an account created today is reported as
/// `young_account_sensitive` (scored with the critical young-account weight)
/// and an account one to three days old as `new_account_sensitive`; neither is
/// reported for any other age, for an unknown age or for a non-sensitive
/// action. Each is reported when it applies, unless the behavioural points
/// already reached their cap or its weight is zero.
pub proof fn lemma_account_age_factors(ctx: &RiskContext)
    ensures
        reports(spec_score_velocity(ctx).1, "young_account_sensitive"@) ==>
            ctx.account_age_days == Some(0u32) && ctx.action.spec_is_sensitive(),
        reports(spec_score_velocity(ctx).1, "new_account_sensitive"@) ==>
            (ctx.account_age_days matches Some(d) && 1 <= d <= 3) && ctx.action.spec_is_sensitive(),
        (ctx.account_age_days == Some(0u32) && ctx.action.spec_is_sensitive() && ctx.policy.b_young_account_critical > 0) ==>
            reports(spec_score_velocity(ctx).1, "young_account_sensitive"@)
            || spec_score_velocity(ctx).0 == ctx.policy.cap_behavioral,
        ((ctx.account_age_days matches Some(d) && 1 <= d <= 3) && ctx.action.spec_is_sensitive() && ctx.policy.b_young_account_new > 0) ==>
            reports(spec_score_velocity(ctx).1, "new_account_sensitive"@)
            || spec_score_velocity(ctx).0 == ctx.policy.cap_behavioral,
{
    reveal_strlit("young_account_sensitive");
    reveal_strlit("new_account_sensitive");
    let y = "young_account_sensitive"@;
    let w = "new_account_sensitive"@;
    assert(y != w) by {
        assert(y[0] != w[0]);
    }
    lemma_only_age_rule_named_young(ctx);
    reveal(velocity_account_age_rule);
    let e = Seq::<Candidate>::empty();
    let q1 = e + velocity_login_rule(ctx);
    lemma_names_rule_concat(e, velocity_login_rule(ctx), y);
    lemma_names_rule_concat(e, velocity_login_rule(ctx), w);
    let q2 = q1 + velocity_failed_rule(ctx);
    lemma_names_rule_concat(q1, velocity_failed_rule(ctx), y);
    lemma_names_rule_concat(q1, velocity_failed_rule(ctx), w);
    let q3 = q2 + velocity_recovery_rule(ctx);
    lemma_names_rule_concat(q2, velocity_recovery_rule(ctx), y);
    lemma_names_rule_concat(q2, velocity_recovery_rule(ctx), w);
    let q4 = q3 + velocity_action_rule(ctx);
    lemma_names_rule_concat(q3, velocity_action_rule(ctx), y);
    lemma_names_rule_concat(q3, velocity_action_rule(ctx), w);
    let q5 = q4 + velocity_revocation_rule(ctx);
    lemma_names_rule_concat(q4, velocity_revocation_rule(ctx), y);
    lemma_names_rule_concat(q4, velocity_revocation_rule(ctx), w);
    let q6 = q5 + velocity_sybil_rule(ctx);
    lemma_names_rule_concat(q5, velocity_sybil_rule(ctx), y);
    lemma_names_rule_concat(q5, velocity_sybil_rule(ctx), w);
    let q7 = q6 + velocity_audit_rule(ctx);
    lemma_names_rule_concat(q6, velocity_audit_rule(ctx), y);
    lemma_names_rule_concat(q6, velocity_audit_rule(ctx), w);
    let q8 = q7 + velocity_disposable_rule(ctx);
    lemma_names_rule_concat(q7, velocity_disposable_rule(ctx), y);
    lemma_names_rule_concat(q7, velocity_disposable_rule(ctx), w);
    let q9 = q8 + velocity_account_age_rule(ctx);
    lemma_names_rule_concat(q8, velocity_account_age_rule(ctx), y);
    lemma_names_rule_concat(q8, velocity_account_age_rule(ctx), w);
    let rules = q9;
    assert(rules == velocity_rules(ctx));
    assert(!names_rule(e, y) && !names_rule(e, w));
    let cap = ctx.policy.cap_behavioral;
    lemma_fold_reports_only_fired(rules, cap, ScoreComponent::Behavioral, 0, y);
    lemma_fold_reports_only_fired(rules, cap, ScoreComponent::Behavioral, 0, w);
    let ag = velocity_account_age_rule(ctx);
    if names_rule(ag, y) {
        let j = choose|j: int| 0 <= j < ag.len() && #[trigger] ag[j].name == y;
    }
    if names_rule(ag, w) {
        let j = choose|j: int| 0 <= j < ag.len() && #[trigger] ag[j].name == w;
    }
    if ag.len() > 0 {
        assert(rules[q8.len() as int] == ag[0]);
        if ag[0].weight > 0 {
            lemma_fold_reports_fired(rules, cap, ScoreComponent::Behavioral, 0, q8.len() as int);
        }
    }
}


/// Rule step: login velocity over the 1m / 5m / 1h / 24h windows.
fn step_velocity_login_rule(ctx: &RiskContext, score: &mut u8, factors: &mut Vec<Factor>, Ghost(base): Ghost<Seq<FactorView>>, Ghost(prev): Ghost<Seq<Candidate>>)
    requires
        tracks(*old(score), old(factors)@, base, prev, ctx.policy.cap_behavioral, ScoreComponent::Behavioral, 0),
    ensures
        tracks(*final(score), final(factors)@, base, prev + velocity_login_rule(ctx), ctx.policy.cap_behavioral, ScoreComponent::Behavioral, 0),
{
    reveal(velocity_login_rule);
    let cap = ctx.policy.cap_behavioral;
    let p = &ctx.policy;
    let comp = ScoreComponent::Behavioral;
    let mut login_scored = false;
    if let Some(n) = ctx.login_attempts_1m {
        if n > 3 {
            apply_rule(score, cap, comp, factors, "login_velocity_burst", p.b_login_burst,
                text::with_number("", n as u64, " login attempts in last 1 minute (>3 threshold)"), Ghost(base), Ghost(prev), Ghost(0));
            login_scored = true;
        }
    }
    if !login_scored {
        if let Some(n) = ctx.login_attempts_5m {
            if n > 10 {
                apply_rule(score, cap, comp, factors, "login_velocity_critical", p.b_login_burst,
                    text::with_number("", n as u64, " login attempts in last 5 minutes (>10 threshold)"), Ghost(base), Ghost(prev), Ghost(0));
                login_scored = true;
            } else if n > 5 {
                apply_rule(score, cap, comp, factors, "login_velocity_elevated", p.b_login_elevated,
                    text::with_number("", n as u64, " login attempts in last 5 minutes (>5 threshold)"), Ghost(base), Ghost(prev), Ghost(0));
                login_scored = true;
            } else if n > 3 {
                apply_rule(score, cap, comp, factors, "login_velocity_moderate", p.b_login_moderate,
                    text::with_number("", n as u64, " login attempts in last 5 minutes (>3 threshold)"), Ghost(base), Ghost(prev), Ghost(0));
                login_scored = true;
            }
        }
    }
    if !login_scored {
        if let Some(n) = ctx.login_attempts_1h {
            if n > 20 {
                apply_rule(score, cap, comp, factors, "login_velocity_hourly", p.b_login_hourly,
                    text::with_number("", n as u64, " login attempts in last 1 hour (>20 threshold)"), Ghost(base), Ghost(prev), Ghost(0));
                login_scored = true;
            }
        }
    }
    if !login_scored {
        if let Some(n) = ctx.login_attempts_24h {
            if n > 50 {
                apply_rule(score, cap, comp, factors, "login_velocity_daily", p.b_login_daily,
                    text::with_number("", n as u64, " login attempts in last 24 hours (>50 threshold)"), Ghost(base), Ghost(prev), Ghost(0));
            }
        }
    }
    proof {
        if velocity_login_rule(ctx).len() == 1 {
            assert(prev.push(velocity_login_rule(ctx)[0]) =~= prev + velocity_login_rule(ctx));
        } else {
            assert(prev =~= prev + velocity_login_rule(ctx));
        }
    }
}

/// Rule step: failed logins in the last hour.
fn step_velocity_failed_rule(ctx: &RiskContext, score: &mut u8, factors: &mut Vec<Factor>, Ghost(base): Ghost<Seq<FactorView>>, Ghost(prev): Ghost<Seq<Candidate>>)
    requires
        tracks(*old(score), old(factors)@, base, prev, ctx.policy.cap_behavioral, ScoreComponent::Behavioral, 0),
    ensures
        tracks(*final(score), final(factors)@, base, prev + velocity_failed_rule(ctx), ctx.policy.cap_behavioral, ScoreComponent::Behavioral, 0),
{
    reveal(velocity_failed_rule);
    let cap = ctx.policy.cap_behavioral;
    let p = &ctx.policy;
    let comp = ScoreComponent::Behavioral;
    if let Some(n) = ctx.failed_login_attempts_1h {
        if n > 5 {
            apply_rule(score, cap, comp, factors, "failed_attempts_high", p.b_failed_high,
                text::with_number("", n as u64, " failed logins in last 1 hour (>5 threshold)"), Ghost(base), Ghost(prev), Ghost(0));
        } else if n > 3 {
            apply_rule(score, cap, comp, factors, "failed_attempts_elevated", p.b_failed_elevated,
                text::with_number("", n as u64, " failed logins in last 1 hour (>3 threshold)"), Ghost(base), Ghost(prev), Ghost(0));
        }
    }
    proof {
        if velocity_failed_rule(ctx).len() == 1 {
            assert(prev.push(velocity_failed_rule(ctx)[0]) =~= prev + velocity_failed_rule(ctx));
        } else {
            assert(prev =~= prev + velocity_failed_rule(ctx));
        }
    }
}

/// Rule step: recovery requests in the last day.
fn step_velocity_recovery_rule(ctx: &RiskContext, score: &mut u8, factors: &mut Vec<Factor>, Ghost(base): Ghost<Seq<FactorView>>, Ghost(prev): Ghost<Seq<Candidate>>)
    requires
        tracks(*old(score), old(factors)@, base, prev, ctx.policy.cap_behavioral, ScoreComponent::Behavioral, 0),
    ensures
        tracks(*final(score), final(factors)@, base, prev + velocity_recovery_rule(ctx), ctx.policy.cap_behavioral, ScoreComponent::Behavioral, 0),
{
    reveal(velocity_recovery_rule);
    let cap = ctx.policy.cap_behavioral;
    let p = &ctx.policy;
    let comp = ScoreComponent::Behavioral;
    if let Some(n) = ctx.recovery_requests_24h {
        if n > 1 {
            apply_rule(score, cap, comp, factors, "recovery_velocity", p.b_recovery_velocity,
                text::with_number("", n as u64, " recovery requests in last 24 hours (>1 threshold)"), Ghost(base), Ghost(prev), Ghost(0));
        }
    }
    proof {
        if velocity_recovery_rule(ctx).len() == 1 {
            assert(prev.push(velocity_recovery_rule(ctx)[0]) =~= prev + velocity_recovery_rule(ctx));
        } else {
            assert(prev =~= prev + velocity_recovery_rule(ctx));
        }
    }
}

/// Rule step: protected actions in the last five minutes.
fn step_velocity_action_rule(ctx: &RiskContext, score: &mut u8, factors: &mut Vec<Factor>, Ghost(base): Ghost<Seq<FactorView>>, Ghost(prev): Ghost<Seq<Candidate>>)
    requires
        tracks(*old(score), old(factors)@, base, prev, ctx.policy.cap_behavioral, ScoreComponent::Behavioral, 0),
    ensures
        tracks(*final(score), final(factors)@, base, prev + velocity_action_rule(ctx), ctx.policy.cap_behavioral, ScoreComponent::Behavioral, 0),
{
    reveal(velocity_action_rule);
    let cap = ctx.policy.cap_behavioral;
    let p = &ctx.policy;
    let comp = ScoreComponent::Behavioral;
    if let Some(n) = ctx.actions_executed_5m {
        if n > 3 {
            apply_rule(score, cap, comp, factors, "action_velocity", p.b_action_velocity,
                text::with_number("", n as u64, " protected actions in last 5 minutes (>3 threshold)"), Ghost(base), Ghost(prev), Ghost(0));
        }
    }
    proof {
        if velocity_action_rule(ctx).len() == 1 {
            assert(prev.push(velocity_action_rule(ctx)[0]) =~= prev + velocity_action_rule(ctx));
        } else {
            assert(prev =~= prev + velocity_action_rule(ctx));
        }
    }
}

/// Rule step: device revocations in the last hour.
fn step_velocity_revocation_rule(ctx: &RiskContext, score: &mut u8, factors: &mut Vec<Factor>, Ghost(base): Ghost<Seq<FactorView>>, Ghost(prev): Ghost<Seq<Candidate>>)
    requires
        tracks(*old(score), old(factors)@, base, prev, ctx.policy.cap_behavioral, ScoreComponent::Behavioral, 0),
    ensures
        tracks(*final(score), final(factors)@, base, prev + velocity_revocation_rule(ctx), ctx.policy.cap_behavioral, ScoreComponent::Behavioral, 0),
{
    reveal(velocity_revocation_rule);
    let cap = ctx.policy.cap_behavioral;
    let p = &ctx.policy;
    let comp = ScoreComponent::Behavioral;
    if let Some(n) = ctx.device_revocations_1h {
        if n > 2 {
            apply_rule(score, cap, comp, factors, "revocation_spree", p.b_revocation_spree,
                text::with_number("", n as u64, " device revocations in last 1 hour (>2 threshold)"), Ghost(base), Ghost(prev), Ghost(0));
        } else if n > 1 {
            apply_rule(score, cap, comp, factors, "revocation_elevated", p.b_revocation_elevated,
                text::with_number("", n as u64, " device revocations in last 1 hour (>1 threshold)"), Ghost(base), Ghost(prev), Ghost(0));
        }
    }
    proof {
        if velocity_revocation_rule(ctx).len() == 1 {
            assert(prev.push(velocity_revocation_rule(ctx)[0]) =~= prev + velocity_revocation_rule(ctx));
        } else {
            assert(prev =~= prev + velocity_revocation_rule(ctx));
        }
    }
}

/// Rule step: registrations from this IP in the last ten minutes.
fn step_velocity_sybil_rule(ctx: &RiskContext, score: &mut u8, factors: &mut Vec<Factor>, Ghost(base): Ghost<Seq<FactorView>>, Ghost(prev): Ghost<Seq<Candidate>>)
    requires
        tracks(*old(score), old(factors)@, base, prev, ctx.policy.cap_behavioral, ScoreComponent::Behavioral, 0),
    ensures
        tracks(*final(score), final(factors)@, base, prev + velocity_sybil_rule(ctx), ctx.policy.cap_behavioral, ScoreComponent::Behavioral, 0),
{
    reveal(velocity_sybil_rule);
    let cap = ctx.policy.cap_behavioral;
    let p = &ctx.policy;
    let comp = ScoreComponent::Behavioral;
    if let Some(n) = ctx.registrations_from_ip_10m {
        if n > 3 {
            apply_rule(score, cap, comp, factors, "sybil_registration", p.b_sybil_registration,
                text::with_number("", n as u64, " registrations from this IP in last 10 minutes (>3 threshold)"), Ghost(base), Ghost(prev), Ghost(0));
        }
    }
    proof {
        if velocity_sybil_rule(ctx).len() == 1 {
            assert(prev.push(velocity_sybil_rule(ctx)[0]) =~= prev + velocity_sybil_rule(ctx));
        } else {
            assert(prev =~= prev + velocity_sybil_rule(ctx));
        }
    }
}

/// Rule step: no prior audit history.
fn step_velocity_audit_rule(ctx: &RiskContext, score: &mut u8, factors: &mut Vec<Factor>, Ghost(base): Ghost<Seq<FactorView>>, Ghost(prev): Ghost<Seq<Candidate>>)
    requires
        tracks(*old(score), old(factors)@, base, prev, ctx.policy.cap_behavioral, ScoreComponent::Behavioral, 0),
    ensures
        tracks(*final(score), final(factors)@, base, prev + velocity_audit_rule(ctx), ctx.policy.cap_behavioral, ScoreComponent::Behavioral, 0),
{
    reveal(velocity_audit_rule);
    let cap = ctx.policy.cap_behavioral;
    let p = &ctx.policy;
    let comp = ScoreComponent::Behavioral;
    if ctx.prior_audit_event_count == 0 {
        apply_rule(score, cap, comp, factors, "zero_audit_history", p.b_zero_audit_history,
            text::owned("No prior audit events on record for this user"), Ghost(base), Ghost(prev), Ghost(0));
    }
    proof {
        if velocity_audit_rule(ctx).len() == 1 {
            assert(prev.push(velocity_audit_rule(ctx)[0]) =~= prev + velocity_audit_rule(ctx));
        } else {
            assert(prev =~= prev + velocity_audit_rule(ctx));
        }
    }
}

/// Rule step: disposable e-mail domain.
fn step_velocity_disposable_rule(ctx: &RiskContext, score: &mut u8, factors: &mut Vec<Factor>, Ghost(base): Ghost<Seq<FactorView>>, Ghost(prev): Ghost<Seq<Candidate>>)
    requires
        tracks(*old(score), old(factors)@, base, prev, ctx.policy.cap_behavioral, ScoreComponent::Behavioral, 0),
    ensures
        tracks(*final(score), final(factors)@, base, prev + velocity_disposable_rule(ctx), ctx.policy.cap_behavioral, ScoreComponent::Behavioral, 0),
{
    reveal(velocity_disposable_rule);
    let cap = ctx.policy.cap_behavioral;
    let p = &ctx.policy;
    let comp = ScoreComponent::Behavioral;
    if ctx.email_domain_disposable == Some(true) {
        apply_rule(score, cap, comp, factors, "disposable_email", p.b_disposable_email,
            text::owned("Email domain is a known disposable/temporary email provider"), Ghost(base), Ghost(prev), Ghost(0));
    }
    proof {
        if velocity_disposable_rule(ctx).len() == 1 {
            assert(prev.push(velocity_disposable_rule(ctx)[0]) =~= prev + velocity_disposable_rule(ctx));
        } else {
            assert(prev =~= prev + velocity_disposable_rule(ctx));
        }
    }
}

/// Rule step: young account on a sensitive action.
fn step_velocity_account_age_rule(ctx: &RiskContext, score: &mut u8, factors: &mut Vec<Factor>, Ghost(base): Ghost<Seq<FactorView>>, Ghost(prev): Ghost<Seq<Candidate>>)
    requires
        tracks(*old(score), old(factors)@, base, prev, ctx.policy.cap_behavioral, ScoreComponent::Behavioral, 0),
    ensures
        tracks(*final(score), final(factors)@, base, prev + velocity_account_age_rule(ctx), ctx.policy.cap_behavioral, ScoreComponent::Behavioral, 0),
{
    reveal(velocity_account_age_rule);
    let cap = ctx.policy.cap_behavioral;
    let p = &ctx.policy;
    let comp = ScoreComponent::Behavioral;
    if let Some(n) = ctx.account_age_days {
        if n == 0 && ctx.action.is_sensitive() {
            apply_rule(score, cap, comp, factors, "young_account_sensitive", p.b_young_account_critical,
                text::owned("Account created today is performing a sensitive action"), Ghost(base), Ghost(prev), Ghost(0));
        } else if n <= 3 && ctx.action.is_sensitive() {
            apply_rule(score, cap, comp, factors, "new_account_sensitive", p.b_young_account_new,
                text::with_number("Account is only ", n as u64, " days old and performing a sensitive action"), Ghost(base), Ghost(prev), Ghost(0));
        }
    }
    proof {
        if velocity_account_age_rule(ctx).len() == 1 {
            assert(prev.push(velocity_account_age_rule(ctx)[0]) =~= prev + velocity_account_age_rule(ctx));
        } else {
            assert(prev =~= prev + velocity_account_age_rule(ctx));
        }
    }
}

/// B component — behavioural velocity score; appends the factors it reports.
pub fn score_velocity(ctx: &RiskContext, factors: &mut Vec<Factor>) -> (score: u8)
    ensures
        score == spec_score_velocity(ctx).0,
        factors_view(final(factors)@) == factors_view(old(factors)@) + spec_score_velocity(ctx).1,
{
    let ghost base = factors_view(factors@);
    let mut score: u8 = 0;
    proof {
        assert(base + Seq::<FactorView>::empty() =~= base);
    }
    let ghost c0: Seq<Candidate> = Seq::empty();
    step_velocity_login_rule(ctx, &mut score, factors, Ghost(base), Ghost(c0));
    let ghost c1 = c0 + velocity_login_rule(ctx);
    step_velocity_failed_rule(ctx, &mut score, factors, Ghost(base), Ghost(c1));
    let ghost c2 = c1 + velocity_failed_rule(ctx);
    step_velocity_recovery_rule(ctx, &mut score, factors, Ghost(base), Ghost(c2));
    let ghost c3 = c2 + velocity_recovery_rule(ctx);
    step_velocity_action_rule(ctx, &mut score, factors, Ghost(base), Ghost(c3));
    let ghost c4 = c3 + velocity_action_rule(ctx);
    step_velocity_revocation_rule(ctx, &mut score, factors, Ghost(base), Ghost(c4));
    let ghost c5 = c4 + velocity_revocation_rule(ctx);
    step_velocity_sybil_rule(ctx, &mut score, factors, Ghost(base), Ghost(c5));
    let ghost c6 = c5 + velocity_sybil_rule(ctx);
    step_velocity_audit_rule(ctx, &mut score, factors, Ghost(base), Ghost(c6));
    let ghost c7 = c6 + velocity_audit_rule(ctx);
    step_velocity_disposable_rule(ctx, &mut score, factors, Ghost(base), Ghost(c7));
    let ghost c8 = c7 + velocity_disposable_rule(ctx);
    step_velocity_account_age_rule(ctx, &mut score, factors, Ghost(base), Ghost(c8));
    let ghost c9 = c8 + velocity_account_age_rule(ctx);
    score
}

} // verus!
