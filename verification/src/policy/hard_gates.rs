//! Hard policy gates: binary conditions that block a request before any
//! continuous scoring happens.
use vstd::prelude::*;
use crate::text;
use crate::timeutil::{minutes_between, spec_minutes_between};
use crate::context::{AsnType, CredentialStatus, RiskAction, RiskContext};
use crate::decision::HardGate;

verus! {

/// Result of hard gate evaluation.
pub enum GateOutcome {
    /// All gates passed. Scoring may proceed.
    Passed(Vec<HardGate>),
    /// One or more gates fired a hard block.
    Blocked(Vec<HardGate>),
}

/// `seq![g]` when `c` holds, else the empty sequence.
pub open spec fn when(c: bool, g: HardGate) -> Seq<HardGate> {
    if c { seq![g] } else { Seq::empty() }
}

pub open spec fn via_tor(ctx: &RiskContext) -> bool {
    ctx.ip_asn_type == Some(AsnType::Tor)
}

/// WebAuthn counters never go negative, and must strictly increase once the
/// authenticator has reported a non-zero value.
pub open spec fn spec_sign_count_rollback(ctx: &RiskContext) -> bool {
    ctx.credential_sign_count_new < 0
        || (ctx.credential_sign_count_prev > 0 && ctx.credential_sign_count_new <= ctx.credential_sign_count_prev)
}

/// Travel between the last login and this request is impossible: the last
/// login lies in the future (an inverted timestamp), or the distance exceeds
/// what 900 km/h (plus 500 km of GeoIP slack) covers in the elapsed time.
pub open spec fn spec_impossible_travel(ctx: &RiskContext) -> bool {
    match (ctx.travel, ctx.last_login_at_ms) {
        (Some(t), Some(last_at)) => last_at > ctx.evaluated_at_ms || t.beyond_reach,
        _ => false,
    }
}

/// Any VPN-like anonymisation: the ASN class or an IP intelligence flag.
pub open spec fn spec_vpn_detected(ctx: &RiskContext) -> bool {
    ctx.ip_asn_type == Some(AsnType::Vpn)
        || ctx.ip_is_vpn == Some(true)
        || ctx.ip_is_proxy == Some(true)
        || ctx.ip_is_relay == Some(true)
}

/// Actions with irreversible consequences that require network attribution.
pub open spec fn spec_critical_privileged(action: RiskAction) -> bool {
    match action {
        RiskAction::RecoveryApprove | RiskAction::RecoveryComplete => true,
        RiskAction::ActionExecute { action_name } =>
            action_name@ == "add_admin"@ || action_name@ == "rotate_api_key"@ || action_name@ == "delete_resource"@,
        _ => false,
    }
}

/// The OAuth code is redeemed from another IP than the one that authorized it.
pub open spec fn spec_oauth_ip_changed(ctx: &RiskContext) -> bool {
    match (ctx.oauth_authorize_ip, ctx.request_ip) {
        (Some(a), Some(r)) => a.value != r.value && ctx.action == RiskAction::OauthComplete,
        _ => false,
    }
}

/// A stored JWT fingerprint exists and the current one differs from it.
pub open spec fn spec_fingerprint_mismatch(ctx: &RiskContext) -> bool {
    ctx.jwt_fingerprint_stored is Some
        && text::opt_view(ctx.jwt_fingerprint_current) != text::opt_view(ctx.jwt_fingerprint_stored)
}

pub open spec fn spec_jwt_expired(ctx: &RiskContext) -> bool {
    match ctx.jwt_expires_at_ms {
        Some(exp) => exp < ctx.evaluated_at_ms,
        None => false,
    }
}

/// The gates that fire for `ctx`, in evaluation order (the first twelve).
pub open spec fn spec_gates_head(ctx: &RiskContext) -> Seq<HardGate> {
    let tor = via_tor(ctx);
    let travel = spec_impossible_travel(ctx);
    Seq::empty()
        + when(ctx.credential_status == CredentialStatus::Revoked, HardGate::RevokedCredential)
        + when(ctx.credential_status == CredentialStatus::Lost, HardGate::LostCredential)
        + when(ctx.account_locked, HardGate::AccountLocked)
        + when(ctx.nonce_already_used, HardGate::NonceReplay)
        + when(spec_sign_count_rollback(ctx), HardGate::SignCountRollback)
        + when(travel && tor, HardGate::ImpossibleTravelViaTor)
        + when(tor && ctx.action.spec_is_sensitive() && !(travel && tor), HardGate::TorOnSensitiveAction)
        + when(ctx.action == RiskAction::RecoveryComplete && !ctx.recovery_pending, HardGate::RecoveryCompletedWithNoPending)
        + when(spec_oauth_ip_changed(ctx) && tor, HardGate::OauthNonceIpMismatchOnTor)
        + when(spec_oauth_ip_changed(ctx) && !tor, HardGate::OauthIpMismatch)
        + when(ctx.is_sanctioned_country == Some(true), HardGate::SanctionedCountry)
        + when(ctx.breached_credential == Some(true) && ctx.action.spec_is_sensitive(), HardGate::BreachedCredentialOnSensitive)
}

/// The gates that fire for `ctx`, in evaluation order (all of them).
pub open spec fn spec_gates(ctx: &RiskContext) -> Seq<HardGate> {
    spec_gates_head(ctx)
        + when(spec_vpn_detected(ctx) && spec_critical_privileged(ctx.action), HardGate::VpnOnCriticalAction)
        + when(via_tor(ctx) && ctx.action.spec_is_recovery(), HardGate::TorOnRecovery)
        + when(ctx.webdriver_detected == Some(true) && ctx.action == RiskAction::Register, HardGate::AutomationOnRegister)
        + when(spec_fingerprint_mismatch(ctx) && ctx.action.spec_is_sensitive(), HardGate::SensitiveActionOnMismatch)
        + when(spec_minutes_between(ctx.evaluated_at_ms, ctx.credential_created_at_ms) < 5 && ctx.action.spec_is_privileged(),
            HardGate::PrivilegedActionOnFreshCredential)
        + when(spec_jwt_expired(ctx) && ctx.action.spec_is_sensitive(), HardGate::ExpiredJwtOnSensitive)
}

fn push_when(v: &mut Vec<HardGate>, c: bool, g: HardGate)
    ensures
        final(v)@ == old(v)@ + when(c, g),
{
    if c {
        v.push(g);
    }
    proof {
        if c {
            assert(final(v)@ =~= old(v)@ + when(c, g));
        } else {
            assert(final(v)@ =~= old(v)@ + when(c, g));
        }
    }
}

fn is_tor(ctx: &RiskContext) -> (r: bool)
    ensures
        r == via_tor(ctx),
{
    match ctx.ip_asn_type {
        Some(AsnType::Tor) => true,
        _ => false,
    }
}

fn sign_count_rollback(ctx: &RiskContext) -> (r: bool)
    ensures
        r == spec_sign_count_rollback(ctx),
{
    ctx.credential_sign_count_new < 0
        || (ctx.credential_sign_count_prev > 0 && ctx.credential_sign_count_new <= ctx.credential_sign_count_prev)
}

/// Whether travel from the last login to this request is impossible.
pub fn is_impossible_travel(ctx: &RiskContext) -> (r: bool)
    ensures
        r == spec_impossible_travel(ctx),
{
    match (&ctx.travel, ctx.last_login_at_ms) {
        (Some(t), Some(last_at)) => {
            if last_at > ctx.evaluated_at_ms {
                return true;
            }
            t.beyond_reach
        },
        _ => false,
    }
}

/// Returns true if the request comes through any VPN-like anonymisation
/// service: the ASN classification or the IP intelligence flags.
pub fn is_vpn_detected(ctx: &RiskContext) -> (r: bool)
    ensures
        r == spec_vpn_detected(ctx),
{
    let asn_vpn = match ctx.ip_asn_type {
        Some(AsnType::Vpn) => true,
        _ => false,
    };
    asn_vpn || ctx.ip_is_vpn == Some(true) || ctx.ip_is_proxy == Some(true) || ctx.ip_is_relay == Some(true)
}

/// Critical privileged actions that require full network attribution.
pub fn is_critical_privileged_action(action: &RiskAction) -> (r: bool)
    ensures
        r == spec_critical_privileged(*action),
{
    match action {
        RiskAction::RecoveryApprove | RiskAction::RecoveryComplete => true,
        RiskAction::ActionExecute { action_name } => {
            let s = action_name.as_str();
            text::str_eq(s, "add_admin") || text::str_eq(s, "rotate_api_key") || text::str_eq(s, "delete_resource")
        },
        _ => false,
    }
}

fn oauth_ip_changed(ctx: &RiskContext) -> (r: bool)
    ensures
        r == spec_oauth_ip_changed(ctx),
{
    match (&ctx.oauth_authorize_ip, &ctx.request_ip) {
        (Some(a), Some(q)) => {
            let is_oauth = match ctx.action {
                RiskAction::OauthComplete => true,
                _ => false,
            };
            a.value != q.value && is_oauth
        },
        _ => false,
    }
}

fn fingerprint_mismatch(ctx: &RiskContext) -> (r: bool)
    ensures
        r == spec_fingerprint_mismatch(ctx),
{
    ctx.jwt_fingerprint_stored.is_some()
        && !text::opt_string_eq(&ctx.jwt_fingerprint_current, &ctx.jwt_fingerprint_stored)
}

fn jwt_expired(ctx: &RiskContext) -> (r: bool)
    ensures
        r == spec_jwt_expired(ctx),
{
    match ctx.jwt_expires_at_ms {
        Some(exp) => exp < ctx.evaluated_at_ms,
        None => false,
    }
}

fn gates_head(ctx: &RiskContext) -> (v: Vec<HardGate>)
    ensures
        v@ == spec_gates_head(ctx),
{
    let mut v: Vec<HardGate> = Vec::new();
    let tor = is_tor(ctx);
    let travel = is_impossible_travel(ctx);
    let sensitive = ctx.action.is_sensitive();
    push_when(&mut v, ctx.credential_status == CredentialStatus::Revoked, HardGate::RevokedCredential);
    push_when(&mut v, ctx.credential_status == CredentialStatus::Lost, HardGate::LostCredential);
    push_when(&mut v, ctx.account_locked, HardGate::AccountLocked);
    push_when(&mut v, ctx.nonce_already_used, HardGate::NonceReplay);
    push_when(&mut v, sign_count_rollback(ctx), HardGate::SignCountRollback);
    push_when(&mut v, travel && tor, HardGate::ImpossibleTravelViaTor);
    push_when(&mut v, tor && sensitive && !(travel && tor), HardGate::TorOnSensitiveAction);
    let recovery_complete = match ctx.action {
        RiskAction::RecoveryComplete => true,
        _ => false,
    };
    push_when(&mut v, recovery_complete && !ctx.recovery_pending, HardGate::RecoveryCompletedWithNoPending);
    let changed = oauth_ip_changed(ctx);
    push_when(&mut v, changed && tor, HardGate::OauthNonceIpMismatchOnTor);
    push_when(&mut v, changed && !tor, HardGate::OauthIpMismatch);
    push_when(&mut v, ctx.is_sanctioned_country == Some(true), HardGate::SanctionedCountry);
    push_when(&mut v, ctx.breached_credential == Some(true) && sensitive, HardGate::BreachedCredentialOnSensitive);
    v
}

/// Evaluate all hard policy gates against the context.
///
/// Hard gates are binary: they either block (`Blocked`, with every gate that
/// fired, in evaluation order) or pass through to continuous scoring.
pub fn evaluate_hard_gates(ctx: &RiskContext) -> (r: GateOutcome)
    ensures
        match r {
            GateOutcome::Passed(v) => spec_gates(ctx).len() == 0 && v@.len() == 0,
            GateOutcome::Blocked(v) => spec_gates(ctx).len() > 0 && v@ == spec_gates(ctx),
        },
{
    let mut blocking = gates_head(ctx);
    let sensitive = ctx.action.is_sensitive();
    push_when(&mut blocking, is_vpn_detected(ctx) && is_critical_privileged_action(&ctx.action), HardGate::VpnOnCriticalAction);
    push_when(&mut blocking, is_tor(ctx) && ctx.action.is_recovery(), HardGate::TorOnRecovery);
    let register = match ctx.action {
        RiskAction::Register => true,
        _ => false,
    };
    push_when(&mut blocking, ctx.webdriver_detected == Some(true) && register, HardGate::AutomationOnRegister);
    push_when(&mut blocking, fingerprint_mismatch(ctx) && sensitive, HardGate::SensitiveActionOnMismatch);
    let age_mins = minutes_between(ctx.evaluated_at_ms, ctx.credential_created_at_ms);
    push_when(&mut blocking, age_mins < 5 && ctx.action.is_privileged(), HardGate::PrivilegedActionOnFreshCredential);
    push_when(&mut blocking, jwt_expired(ctx) && sensitive, HardGate::ExpiredJwtOnSensitive);
    if blocking.len() == 0 {
        GateOutcome::Passed(Vec::new())
    } else {
        GateOutcome::Blocked(blocking)
    }
}

} // verus!
