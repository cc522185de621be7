use risk_engine::context::{
    AsnType, CredentialStatus, IpAddress, IpValue, OrgRiskLevel, RequiredAction, RiskAction,
    RiskContext, TravelCheck,
};
use risk_engine::decision::{Decision, Factor, HardGate, ScoreComponent};
use risk_engine::engine::escalation::{check_escalation, check_escalation_at, EscalationOutcome};
use risk_engine::engine::verdict::{
    adjust_score, build_degraded_verdict, build_gate_verdict, build_hold_reason,
    combine_final_score, conclude_scored, degraded_rule, plan_scored, sort_factors,
};
use risk_engine::engine::{
    challenge_action_for, compute_absolute_adder, escalation_required_action, score_to_decision,
    should_block_ip, should_lock_account,
};
use risk_engine::org_graph::cluster::{AttackType, ClusterFactor};
use risk_engine::org_graph::scoring::compute_org_cluster_bias;
use risk_engine::policy::hard_gates::{
    evaluate_hard_gates, is_critical_privileged_action, is_impossible_travel, is_vpn_detected,
    GateOutcome,
};
use risk_engine::policy_config::PolicyConfig;
use risk_engine::scoring::correlation::score_correlation;
use risk_engine::scoring::device::score_device;
use risk_engine::scoring::network::score_network;
use risk_engine::scoring::velocity::score_velocity;
use risk_engine::store::EscalationEntry;

const NOW_MS: i64 = 1_700_000_000_000;
const DAY_MS: i64 = 86_400_000;

fn ip(v: u32, text: &str) -> IpAddress {
    IpAddress { value: IpValue::V4(v), text: text.to_string() }
}

fn base_ctx() -> RiskContext {
    RiskContext {
        request_id: 1,
        evaluated_at_ms: NOW_MS,
        user_id: 2,
        username: "alice".into(),
        credential_id: Some(3),
        action: RiskAction::Login,
        resource_id: None,
        credential_status: CredentialStatus::Active,
        credential_created_at_ms: NOW_MS - 30 * DAY_MS,
        credential_last_used_at_ms: Some(NOW_MS - DAY_MS),
        credential_sign_count_prev: 10,
        credential_sign_count_new: 11,
        credential_registered_ua: Some("Mozilla/5.0 Chrome/120".into()),
        credential_count_for_user: 2,
        prior_audit_event_count: 50,
        last_login_ip: None,
        last_login_at_ms: None,
        last_login_country: None,
        jwt_issued_at_ms: None,
        jwt_expires_at_ms: None,
        jwt_fingerprint_stored: None,
        jwt_fingerprint_current: None,
        request_ip: None,
        request_ua: Some("Mozilla/5.0 Chrome/120".into()),
        request_country: None,
        geo_relation: None,
        travel: None,
        ip_asn_type: Some(AsnType::Residential),
        login_attempts_5m: Some(1),
        failed_login_attempts_1h: Some(0),
        actions_executed_5m: Some(0),
        recovery_requests_24h: Some(0),
        device_revocations_1h: Some(0),
        registrations_from_ip_10m: Some(0),
        active_session_count: Some(1),
        account_locked: false,
        recovery_pending: false,
        oauth_authorize_ip: None,
        nonce_present: true,
        nonce_already_used: false,
        org_risk_level: OrgRiskLevel::Normal,
        redis_signals_degraded: false,
        db_signals_degraded: false,
        tenant_id: String::new(),
        org_risk_score: None,
        cluster_contribution: None,
        threshold_shift: None,
        org_active_cluster_count: 0,
        login_attempts_1m: None,
        login_attempts_1h: None,
        login_attempts_24h: None,
        client_timestamp_ms: None,
        device_fingerprint_hash: None,
        ja3_fingerprint: None,
        known_ip_for_user: None,
        ip_is_vpn: None,
        ip_is_proxy: None,
        ip_is_relay: None,
        ip_abuse_confidence: None,
        geo_allowed_countries: None,
        is_sanctioned_country: None,
        webdriver_detected: None,
        captcha_score: None,
        screen_resolution: None,
        touch_capable: None,
        account_age_days: None,
        email_verified: None,
        email_domain_disposable: None,
        breached_credential: None,
        user_typical_hours: None,
        accept_language: None,
        previous_accept_language: None,
        device_trust_level: None,
        policy: PolicyConfig::default(),
    }
}

fn blocked_gates(ctx: &RiskContext) -> Vec<HardGate> {
    match evaluate_hard_gates(ctx) {
        GateOutcome::Blocked(g) => g,
        GateOutcome::Passed(_) => vec![],
    }
}

// ── hard gates ────────────────────────────────────────────────────────────────

#[test]
fn clean_context_passes_all_gates() {
    let ctx = base_ctx();
    assert!(matches!(evaluate_hard_gates(&ctx), GateOutcome::Passed(_)));
}

#[test]
fn revoked_credential_blocks() {
    let mut ctx = base_ctx();
    ctx.credential_status = CredentialStatus::Revoked;
    let outcome = evaluate_hard_gates(&ctx);
    assert!(matches!(outcome, GateOutcome::Blocked(gates) if gates.contains(&HardGate::RevokedCredential)));
}

#[test]
fn lost_credential_blocks_with_its_own_gate() {
    let mut ctx = base_ctx();
    ctx.credential_status = CredentialStatus::Lost;
    match evaluate_hard_gates(&ctx) {
        GateOutcome::Blocked(gates) => {
            assert!(gates.contains(&HardGate::LostCredential));
            assert!(!gates.contains(&HardGate::RevokedCredential));
        }
        GateOutcome::Passed(_) => panic!("Lost credential must block"),
    }
}

#[test]
fn nonce_replay_blocks() {
    let mut ctx = base_ctx();
    ctx.nonce_already_used = true;
    let outcome = evaluate_hard_gates(&ctx);
    assert!(matches!(outcome, GateOutcome::Blocked(gates) if gates.contains(&HardGate::NonceReplay)));
}

#[test]
fn tor_on_sensitive_action_blocks() {
    let mut ctx = base_ctx();
    ctx.ip_asn_type = Some(AsnType::Tor);
    ctx.action = RiskAction::DeviceRevoke;
    let outcome = evaluate_hard_gates(&ctx);
    assert!(matches!(outcome, GateOutcome::Blocked(gates) if gates.contains(&HardGate::TorOnSensitiveAction)));
}

#[test]
fn recovery_complete_with_no_pending_blocks() {
    let mut ctx = base_ctx();
    ctx.action = RiskAction::RecoveryComplete;
    ctx.recovery_pending = false;
    let outcome = evaluate_hard_gates(&ctx);
    assert!(matches!(outcome, GateOutcome::Blocked(gates) if gates.contains(&HardGate::RecoveryCompletedWithNoPending)));
}

#[test]
fn tor_on_non_sensitive_action_passes() {
    let mut ctx = base_ctx();
    ctx.ip_asn_type = Some(AsnType::Tor);
    ctx.action = RiskAction::DeviceList;
    assert!(matches!(evaluate_hard_gates(&ctx), GateOutcome::Passed(_)));
}

#[test]
fn sign_count_rollback_blocks() {
    let mut ctx = base_ctx();
    ctx.credential_sign_count_prev = 10;
    ctx.credential_sign_count_new = 10;
    assert!(blocked_gates(&ctx).contains(&HardGate::SignCountRollback));
}

#[test]
fn sign_count_backwards_blocks() {
    let mut ctx = base_ctx();
    ctx.credential_sign_count_prev = 10;
    ctx.credential_sign_count_new = 5;
    assert!(blocked_gates(&ctx).contains(&HardGate::SignCountRollback));
}

#[test]
fn sign_count_zero_does_not_block() {
    let mut ctx = base_ctx();
    ctx.credential_sign_count_prev = 0;
    ctx.credential_sign_count_new = 0;
    assert!(!blocked_gates(&ctx).contains(&HardGate::SignCountRollback));
}

#[test]
fn negative_sign_count_blocks() {
    let mut ctx = base_ctx();
    ctx.credential_sign_count_prev = 0;
    ctx.credential_sign_count_new = -1;
    assert!(blocked_gates(&ctx).contains(&HardGate::SignCountRollback));
}

#[test]
fn sign_count_normal_increment_passes() {
    let mut ctx = base_ctx();
    ctx.credential_sign_count_prev = 10;
    ctx.credential_sign_count_new = 11;
    assert!(matches!(evaluate_hard_gates(&ctx), GateOutcome::Passed(_)));
}

#[test]
fn sanctioned_country_blocks() {
    let mut ctx = base_ctx();
    ctx.is_sanctioned_country = Some(true);
    assert!(blocked_gates(&ctx).contains(&HardGate::SanctionedCountry));
}

#[test]
fn non_sanctioned_country_passes() {
    let mut ctx = base_ctx();
    ctx.is_sanctioned_country = Some(false);
    assert!(matches!(evaluate_hard_gates(&ctx), GateOutcome::Passed(_)));
}

#[test]
fn unknown_sanctions_status_passes() {
    let mut ctx = base_ctx();
    ctx.is_sanctioned_country = None;
    assert!(matches!(evaluate_hard_gates(&ctx), GateOutcome::Passed(_)));
}

#[test]
fn breached_credential_on_sensitive_action_blocks() {
    let mut ctx = base_ctx();
    ctx.breached_credential = Some(true);
    ctx.action = RiskAction::DeviceRevoke;
    assert!(blocked_gates(&ctx).contains(&HardGate::BreachedCredentialOnSensitive));
}

#[test]
fn breached_credential_on_non_sensitive_passes() {
    let mut ctx = base_ctx();
    ctx.breached_credential = Some(true);
    ctx.action = RiskAction::DeviceList;
    assert!(!blocked_gates(&ctx).contains(&HardGate::BreachedCredentialOnSensitive));
}

#[test]
fn non_breached_credential_passes() {
    let mut ctx = base_ctx();
    ctx.breached_credential = Some(false);
    ctx.action = RiskAction::DeviceRevoke;
    assert!(!blocked_gates(&ctx).contains(&HardGate::BreachedCredentialOnSensitive));
}

#[test]
fn vpn_asn_on_recovery_approve_blocks() {
    let mut ctx = base_ctx();
    ctx.ip_asn_type = Some(AsnType::Vpn);
    ctx.action = RiskAction::RecoveryApprove;
    assert!(blocked_gates(&ctx).contains(&HardGate::VpnOnCriticalAction));
}

#[test]
fn vpn_flag_on_add_admin_blocks() {
    let mut ctx = base_ctx();
    ctx.ip_is_vpn = Some(true);
    ctx.action = RiskAction::ActionExecute { action_name: "add_admin".into() };
    assert!(blocked_gates(&ctx).contains(&HardGate::VpnOnCriticalAction));
}

#[test]
fn proxy_flag_on_rotate_api_key_blocks() {
    let mut ctx = base_ctx();
    ctx.ip_is_proxy = Some(true);
    ctx.action = RiskAction::ActionExecute { action_name: "rotate_api_key".into() };
    assert!(blocked_gates(&ctx).contains(&HardGate::VpnOnCriticalAction));
}

#[test]
fn vpn_on_regular_login_passes() {
    let mut ctx = base_ctx();
    ctx.ip_asn_type = Some(AsnType::Vpn);
    ctx.action = RiskAction::Login;
    assert!(!blocked_gates(&ctx).contains(&HardGate::VpnOnCriticalAction));
}

#[test]
fn residential_ip_on_recovery_approve_passes() {
    let mut ctx = base_ctx();
    ctx.ip_asn_type = Some(AsnType::Residential);
    ctx.action = RiskAction::RecoveryApprove;
    assert!(!blocked_gates(&ctx).contains(&HardGate::VpnOnCriticalAction));
}

#[test]
fn impossible_travel_via_tor_replaces_tor_on_sensitive() {
    let mut ctx = base_ctx();
    ctx.ip_asn_type = Some(AsnType::Tor);
    ctx.last_login_at_ms = Some(NOW_MS - 3_600_000);
    ctx.travel = Some(TravelCheck {
        beyond_reach: true,
        elapsed_hours_text: "1.0".into(),
        reach_km_text: "1400".into(),
    });
    assert!(is_impossible_travel(&ctx));
    let gates = blocked_gates(&ctx);
    assert!(gates.contains(&HardGate::ImpossibleTravelViaTor));
    assert!(!gates.contains(&HardGate::TorOnSensitiveAction));
}

#[test]
fn inverted_last_login_time_is_impossible_travel() {
    let mut ctx = base_ctx();
    ctx.last_login_at_ms = Some(NOW_MS + 1);
    ctx.travel = Some(TravelCheck {
        beyond_reach: false,
        elapsed_hours_text: "0.0".into(),
        reach_km_text: "500".into(),
    });
    assert!(is_impossible_travel(&ctx));
    ctx.last_login_at_ms = Some(NOW_MS);
    assert!(!is_impossible_travel(&ctx));
}

#[test]
fn oauth_ip_change_blocks_by_network() {
    let mut ctx = base_ctx();
    ctx.action = RiskAction::OauthComplete;
    ctx.oauth_authorize_ip = Some(ip(1, "0.0.0.1"));
    ctx.request_ip = Some(ip(2, "0.0.0.2"));
    assert!(blocked_gates(&ctx).contains(&HardGate::OauthIpMismatch));
    ctx.ip_asn_type = Some(AsnType::Tor);
    let gates = blocked_gates(&ctx);
    assert!(gates.contains(&HardGate::OauthNonceIpMismatchOnTor));
    assert!(!gates.contains(&HardGate::OauthIpMismatch));
    let mut same = base_ctx();
    same.action = RiskAction::OauthComplete;
    same.oauth_authorize_ip = Some(ip(1, "0.0.0.1"));
    same.request_ip = Some(ip(1, "0.0.0.1"));
    assert!(matches!(evaluate_hard_gates(&same), GateOutcome::Passed(_)));
}

#[test]
fn remaining_gates_fire_in_order() {
    let mut ctx = base_ctx();
    ctx.account_locked = true;
    ctx.webdriver_detected = Some(true);
    ctx.action = RiskAction::Register;
    assert_eq!(blocked_gates(&ctx), vec![HardGate::AccountLocked, HardGate::AutomationOnRegister]);

    let mut ctx = base_ctx();
    ctx.jwt_fingerprint_stored = Some("aaa".into());
    ctx.jwt_fingerprint_current = None;
    ctx.jwt_expires_at_ms = Some(NOW_MS - 1);
    assert_eq!(
        blocked_gates(&ctx),
        vec![HardGate::SensitiveActionOnMismatch, HardGate::ExpiredJwtOnSensitive]
    );

    let mut ctx = base_ctx();
    ctx.action = RiskAction::AuditLogExport;
    ctx.credential_created_at_ms = NOW_MS - 4 * 60_000;
    assert_eq!(blocked_gates(&ctx), vec![HardGate::PrivilegedActionOnFreshCredential]);

    let mut ctx = base_ctx();
    ctx.action = RiskAction::RecoveryStart;
    ctx.ip_asn_type = Some(AsnType::Tor);
    assert_eq!(blocked_gates(&ctx), vec![HardGate::TorOnSensitiveAction, HardGate::TorOnRecovery]);
}

#[test]
fn vpn_detection_and_critical_actions() {
    let mut ctx = base_ctx();
    assert!(!is_vpn_detected(&ctx));
    ctx.ip_is_relay = Some(true);
    assert!(is_vpn_detected(&ctx));
    assert!(is_critical_privileged_action(&RiskAction::RecoveryComplete));
    assert!(is_critical_privileged_action(&RiskAction::ActionExecute { action_name: "delete_resource".into() }));
    assert!(!is_critical_privileged_action(&RiskAction::ActionExecute { action_name: "view_dashboard".into() }));
    assert!(!is_critical_privileged_action(&RiskAction::Login));
}

// ── escalation memory ─────────────────────────────────────────────────────────

fn entry(decision: Decision, seconds_ago: i64) -> EscalationEntry {
    EscalationEntry { score: 45, decision, ts_unix: chrono::Utc::now().timestamp() - seconds_ago }
}

#[test]
fn three_recent_challenges_escalates_to_hold() {
    let entries = vec![
        entry(Decision::Challenge, 30),
        entry(Decision::Challenge, 60),
        entry(Decision::Challenge, 90),
    ];
    assert_eq!(check_escalation(&Decision::Challenge, &entries), EscalationOutcome::EscalateTo(Decision::Hold));
}

#[test]
fn two_recent_holds_escalates_to_deny() {
    let entries = vec![entry(Decision::Hold, 30), entry(Decision::Hold, 60)];
    assert_eq!(check_escalation(&Decision::Challenge, &entries), EscalationOutcome::EscalateTo(Decision::Deny));
}

#[test]
fn old_challenges_outside_window_do_not_escalate() {
    let entries = vec![
        entry(Decision::Challenge, 400),
        entry(Decision::Challenge, 500),
        entry(Decision::Challenge, 600),
    ];
    assert_eq!(check_escalation(&Decision::Challenge, &entries), EscalationOutcome::NoChange);
}

#[test]
fn allow_decision_never_escalated() {
    let entries = vec![
        entry(Decision::Challenge, 10),
        entry(Decision::Challenge, 20),
        entry(Decision::Challenge, 30),
    ];
    assert_eq!(check_escalation(&Decision::Allow, &entries), EscalationOutcome::NoChange);
}

#[test]
fn deny_decision_never_further_escalated() {
    let entries = vec![entry(Decision::Hold, 10), entry(Decision::Hold, 20)];
    assert_eq!(check_escalation(&Decision::Deny, &entries), EscalationOutcome::NoChange);
}

#[test]
fn escalation_window_edge_and_hold_promotion() {
    let now = 1_000;
    let at = |d, ts| EscalationEntry { score: 50, decision: d, ts_unix: ts };
    let holds = vec![at(Decision::Hold, now - 300), at(Decision::Hold, now - 10)];
    assert_eq!(check_escalation_at(&Decision::Hold, &holds, now), EscalationOutcome::EscalateTo(Decision::Deny));
    let stale = vec![at(Decision::Hold, now - 301), at(Decision::Hold, now - 10)];
    assert_eq!(check_escalation_at(&Decision::Hold, &stale, now), EscalationOutcome::NoChange);
    let mixed = vec![
        at(Decision::Challenge, now), at(Decision::Challenge, now), at(Decision::Challenge, now),
        at(Decision::Hold, now),
    ];
    assert_eq!(check_escalation_at(&Decision::Hold, &mixed, now), EscalationOutcome::NoChange);
    assert_eq!(check_escalation_at(&Decision::Challenge, &mixed, now), EscalationOutcome::EscalateTo(Decision::Hold));
}

// ── decisions and directives ──────────────────────────────────────────────────

#[test]
fn score_bands_map_to_decisions() {
    let ctx = base_ctx();
    assert_eq!(score_to_decision(0, &ctx), (Decision::Allow, None));
    assert_eq!(score_to_decision(39, &ctx), (Decision::Allow, None));
    assert_eq!(score_to_decision(40, &ctx), (Decision::Challenge, Some(RequiredAction::StepUpWebAuthn)));
    assert_eq!(score_to_decision(60, &ctx), (Decision::Challenge, Some(RequiredAction::ReLogin)));
    assert_eq!(score_to_decision(64, &ctx), (Decision::Challenge, Some(RequiredAction::ReLogin)));
    assert_eq!(score_to_decision(65, &ctx), (Decision::Hold, None));
    assert_eq!(score_to_decision(89, &ctx), (Decision::Hold, None));
    assert_eq!(score_to_decision(90, &ctx), (Decision::Deny, None));
}

#[test]
fn fingerprint_mismatch_upgrades_allow_and_picks_reverify() {
    let mut ctx = base_ctx();
    ctx.jwt_fingerprint_stored = Some("aaa".into());
    ctx.jwt_fingerprint_current = Some("bbb".into());
    assert_eq!(score_to_decision(10, &ctx), (Decision::Challenge, Some(RequiredAction::ReverifyDevice)));
    assert_eq!(challenge_action_for(45, &ctx), RequiredAction::ReverifyDevice);
    assert_eq!(challenge_action_for(61, &ctx), RequiredAction::ReLogin);
    ctx.jwt_fingerprint_current = None;
    assert_eq!(score_to_decision(10, &ctx), (Decision::Allow, None));
    assert_eq!(challenge_action_for(45, &ctx), RequiredAction::ReverifyDevice);
}

#[test]
fn escalation_actions_and_locks() {
    assert_eq!(escalation_required_action(&Decision::Hold), None);
    assert_eq!(escalation_required_action(&Decision::Deny), None);
    assert_eq!(escalation_required_action(&Decision::Challenge), Some(RequiredAction::StepUpWebAuthn));
    assert_eq!(escalation_required_action(&Decision::Allow), None);
    assert!(should_lock_account(&Decision::Deny, &RiskAction::Login));
    assert!(should_lock_account(&Decision::Deny, &RiskAction::DeviceMarkLost));
    assert!(should_lock_account(&Decision::Deny, &RiskAction::ActionExecute { action_name: "add_admin".into() }));
    assert!(!should_lock_account(&Decision::Deny, &RiskAction::ActionExecute { action_name: "view_dashboard".into() }));
    assert!(!should_lock_account(&Decision::Deny, &RiskAction::DeviceList));
    assert!(!should_lock_account(&Decision::Hold, &RiskAction::Login));
    assert!(should_block_ip(&Decision::Deny, &RiskAction::Register));
    assert!(!should_block_ip(&Decision::Hold, &RiskAction::Register));
    assert!(!should_block_ip(&Decision::Deny, &RiskAction::Login));
}

#[test]
fn absolute_adder_caps_at_30() {
    let mut ctx = base_ctx();
    ctx.credential_created_at_ms = NOW_MS - 60_000;
    ctx.recovery_pending = true;
    ctx.jwt_issued_at_ms = Some(NOW_MS - 1000);
    let mut factors: Vec<Factor> = Vec::new();
    let a = compute_absolute_adder(&ctx, &mut factors);
    assert_eq!(a, 30);
    assert_eq!(factors.len(), 2);
    assert_eq!(factors[0].name, "fresh_credential_sensitive_action");
    assert_eq!(factors[0].contribution, 20);
    assert_eq!(factors[0].description, "Credential registered 1m ago attempting sensitive action");
    assert_eq!(factors[1].name, "recovery_pending");
    assert_eq!(factors[1].contribution, 10);
    assert_eq!(factors[1].component, ScoreComponent::Absolute);
}

#[test]
fn absolute_adder_non_sensitive_breach_and_add_admin() {
    let mut ctx = base_ctx();
    ctx.action = RiskAction::DeviceList;
    ctx.breached_credential = Some(true);
    let mut factors = Vec::new();
    assert_eq!(compute_absolute_adder(&ctx, &mut factors), 15);
    assert_eq!(factors[0].name, "breached_credential");

    let mut ctx = base_ctx();
    ctx.action = RiskAction::ActionExecute { action_name: "add_admin".into() };
    ctx.prior_audit_event_count = 3;
    let mut factors = Vec::new();
    assert_eq!(compute_absolute_adder(&ctx, &mut factors), 20);
    assert_eq!(factors[0].description, "add_admin attempted with only 3 prior audit events");
}

#[test]
fn any_gate_is_an_immediate_deny() {
    let ctx = base_ctx();
    let v = build_gate_verdict(&ctx, vec![HardGate::TorOnRecovery, HardGate::NonceReplay]);
    assert_eq!(v.decision, Decision::Deny);
    assert_eq!(v.score, 100);
    assert_eq!(v.required_action, None);
    assert!(v.lock_account);
    assert_eq!(v.triggered_rules, vec!["TorOnRecovery".to_string(), "NonceReplay".to_string()]);

    for gates in [
        vec![HardGate::TorOnRecovery, HardGate::PrivilegedActionOnFreshCredential],
        vec![HardGate::TorOnRecovery],
        vec![HardGate::PrivilegedActionOnFreshCredential],
    ] {
        let v = build_gate_verdict(&ctx, gates.clone());
        assert_eq!(v.decision, Decision::Deny);
        assert_eq!(v.score, 100);
        assert_eq!(v.base_score, 100);
        assert_eq!(v.adjusted_score, 100);
        assert_eq!(v.required_action, None);
        assert_eq!(v.hold_reason, None);
        assert_eq!(v.triggered_gates, gates);
        assert!(v.contributing_factors.is_empty());
        assert!(v.notify_user && v.notify_admin && !v.escalated);
        assert!(v.lock_account);
    }

    let mut listing = base_ctx();
    listing.action = RiskAction::DeviceList;
    let v = build_gate_verdict(&listing, vec![HardGate::AccountLocked]);
    assert!(v.lock_account);
    let v = build_gate_verdict(&listing, vec![HardGate::RevokedCredential]);
    assert!(!v.lock_account);
}

#[test]
fn degraded_signals_force_a_challenge() {
    let mut ctx = base_ctx();
    assert_eq!(degraded_rule(&ctx), None);
    ctx.redis_signals_degraded = true;
    assert_eq!(degraded_rule(&ctx), Some("redis_signals_degraded_on_sensitive_action"));
    ctx.db_signals_degraded = true;
    assert_eq!(degraded_rule(&ctx), Some("both_signals_degraded_on_sensitive_action"));
    ctx.redis_signals_degraded = false;
    assert_eq!(degraded_rule(&ctx), Some("db_signals_degraded_on_sensitive_action"));
    ctx.action = RiskAction::DeviceList;
    assert_eq!(degraded_rule(&ctx), None);

    let v = build_degraded_verdict(&base_ctx(), 12, "redis_signals_degraded_on_sensitive_action",
        vec![f("low", 1), f("high", 9), f("mid", 5)]);
    let order: Vec<&str> = v.contributing_factors.iter().map(|x| x.name.as_str()).collect();
    assert_eq!(order, vec!["high", "mid", "low"]);
    assert_eq!(v.decision, Decision::Challenge);
    assert_eq!(v.required_action, Some(RequiredAction::StepUpWebAuthn));
    assert!(v.notify_admin && !v.notify_user && v.signals_degraded);
    assert_eq!(v.triggered_rules, vec!["redis_signals_degraded_on_sensitive_action".to_string()]);
}

fn f(name: &str, c: u8) -> Factor {
    Factor { name: name.into(), component: ScoreComponent::Device, contribution: c, description: String::new() }
}

#[test]
fn factors_sort_stably_by_contribution() {
    let sorted = sort_factors(&vec![f("a", 5), f("b", 20), f("c", 5), f("d", 0), f("e", 20)]);
    let names: Vec<&str> = sorted.iter().map(|x| x.name.as_str()).collect();
    assert_eq!(names, vec!["b", "e", "a", "c", "d"]);
}

#[test]
fn hold_reason_lists_first_three_factors() {
    let mut ctx = base_ctx();
    ctx.action = RiskAction::DeviceRevoke;
    let fs = vec![f("x", 1), f("y", 9), f("z", 3), f("w", 50)];
    assert_eq!(
        build_hold_reason(&ctx, &fs, false),
        "Score threshold exceeded. Top signals: x, y, z. Action: device_revoke."
    );
    assert_eq!(
        build_hold_reason(&ctx, &fs[..1], true),
        "Escalated from repeated challenges. Top signals: x. Action: device_revoke."
    );
    assert_eq!(build_hold_reason(&ctx, &[], false), "Score threshold exceeded. Top signals: . Action: device_revoke.");
}

#[test]
fn scores_combine_and_adjust() {
    assert_eq!(combine_final_score(60, 30), 90);
    assert_eq!(combine_final_score(200, 100), 100);
    let bias = compute_org_cluster_bias(Some(100), None, Some(-15), 0);
    assert_eq!(adjust_score(95, &bias), 85);
    let bias = compute_org_cluster_bias(None, None, Some(20), 0);
    assert_eq!(adjust_score(95, &bias), 100);
    let bias = compute_org_cluster_bias(None, None, Some(-15), 0);
    assert_eq!(adjust_score(5, &bias), 0);
}

#[test]
fn scored_plan_and_conclusion() {
    let mut ctx = base_ctx();
    ctx.org_risk_score = Some(100);
    ctx.cluster_contribution = Some(ClusterFactor {
        cluster_id: "c".into(),
        attack_type: AttackType::SybilFarm,
        contribution: 12,
        description: "member".into(),
    });
    let plan = plan_scored(&ctx, 50);
    assert_eq!(plan.org_cluster.total_bias, 22);
    assert_eq!(plan.effective_score, 72);
    assert_eq!(plan.decision, Decision::Hold);
    let v = conclude_scored(&ctx, 50, plan.effective_score, (plan.decision, plan.required_action), None,
        vec![f("low", 1), f("high", 9)], plan.org_cluster);
    assert_eq!(v.decision, Decision::Hold);
    assert!(!v.escalated);
    assert_eq!(v.hold_reason.as_deref(), Some("Score threshold exceeded. Top signals: low, high. Action: login."));
    assert_eq!(v.triggered_rules, vec!["high".to_string(), "low".to_string()]);
    assert_eq!(v.adjusted_score, 72);
    assert_eq!(v.score, 50);
    assert_eq!(v.cluster_factors.len(), 2);

    let plan = plan_scored(&base_ctx(), 45);
    let v = conclude_scored(&base_ctx(), 45, plan.effective_score, (plan.decision, plan.required_action),
        Some((Decision::Hold, true)), vec![], plan.org_cluster);
    assert_eq!(v.decision, Decision::Hold);
    assert!(v.escalated);
    assert_eq!(v.required_action, None);
    assert!(v.notify_admin);
    assert_eq!(v.hold_reason.as_deref(), Some("Escalated from repeated challenges. Top signals: . Action: login."));
}

#[test]
fn clean_context_scores_low() {
    let ctx = base_ctx();
    let mut factors = Vec::new();
    let d = score_device(&ctx, &mut factors);
    let n = score_network(&ctx, &mut factors);
    let b = score_velocity(&ctx, &mut factors);
    let c = score_correlation(&ctx, &mut factors);
    assert!(d <= 50 && n <= 50 && b <= 50);
    assert_eq!(c, 0);
    let sum: u32 = factors.iter().map(|f| f.contribution as u32).sum();
    assert_eq!(sum, d as u32 + n as u32 + b as u32 + c as u32);
}

#[test]
fn login_burst_scores_behavioral_points() {
    let mut ctx = base_ctx();
    ctx.login_attempts_1m = Some(5);
    ctx.failed_login_attempts_1h = Some(6);
    let mut factors = Vec::new();
    let b = score_velocity(&ctx, &mut factors);
    assert_eq!(b, 50);
    assert_eq!(factors[0].name, "login_velocity_burst");
    assert_eq!(factors[0].contribution, 35);
    assert_eq!(factors[0].description, "5 login attempts in last 1 minute (>3 threshold)");
    assert_eq!(factors[1].name, "failed_attempts_high");
    assert_eq!(factors[1].contribution, 15);
}
