//! The engine's input contract: the request context and its vocabulary.
//!
//! Timestamps are Unix milliseconds, identifiers are the 128-bit values of
//! their UUIDs, and geographic relations between two GeoIP points are carried
//! as the precomputed [`GeoRelation`] / [`TravelCheck`] the rules read.
use vstd::prelude::*;
use crate::policy_config::PolicyConfig;
use crate::org_graph::cluster::ClusterFactor;

verus! {

/// The action the caller is attempting.
#[derive(Debug, PartialEq, Eq)]
pub enum RiskAction {
    Register,
    Login,
    OauthComplete,
    DeviceList,
    DeviceRevoke,
    DeviceMarkLost,
    RecoveryStart,
    RecoveryApprove,
    RecoveryComplete,
    ActionChallenge,
    ActionExecute { action_name: String },
    AuditLogExport,
    /// Catch-all for unknown future actions; treated as non-sensitive.
    Unknown { name: String },
}

impl Clone for RiskAction {
    fn clone(&self) -> (r: Self)
        ensures
            r == *self,
    {
        match self {
            RiskAction::Register => RiskAction::Register,
            RiskAction::Login => RiskAction::Login,
            RiskAction::OauthComplete => RiskAction::OauthComplete,
            RiskAction::DeviceList => RiskAction::DeviceList,
            RiskAction::DeviceRevoke => RiskAction::DeviceRevoke,
            RiskAction::DeviceMarkLost => RiskAction::DeviceMarkLost,
            RiskAction::RecoveryStart => RiskAction::RecoveryStart,
            RiskAction::RecoveryApprove => RiskAction::RecoveryApprove,
            RiskAction::RecoveryComplete => RiskAction::RecoveryComplete,
            RiskAction::ActionChallenge => RiskAction::ActionChallenge,
            RiskAction::ActionExecute { action_name } => RiskAction::ActionExecute { action_name: action_name.clone() },
            RiskAction::AuditLogExport => RiskAction::AuditLogExport,
            RiskAction::Unknown { name } => RiskAction::Unknown { name: name.clone() },
        }
    }
}

impl RiskAction {
    pub open spec fn spec_is_sensitive(&self) -> bool {
        match self {
            RiskAction::Login | RiskAction::OauthComplete | RiskAction::DeviceRevoke
            | RiskAction::DeviceMarkLost | RiskAction::RecoveryStart | RiskAction::RecoveryApprove
            | RiskAction::RecoveryComplete | RiskAction::ActionExecute { .. }
            | RiskAction::AuditLogExport => true,
            _ => false,
        }
    }

    pub open spec fn spec_is_recovery(&self) -> bool {
        match self {
            RiskAction::RecoveryStart | RiskAction::RecoveryApprove | RiskAction::RecoveryComplete => true,
            _ => false,
        }
    }

    pub open spec fn spec_is_privileged(&self) -> bool {
        match self {
            RiskAction::RecoveryApprove | RiskAction::RecoveryComplete | RiskAction::ActionExecute { .. }
            | RiskAction::DeviceRevoke | RiskAction::DeviceMarkLost | RiskAction::AuditLogExport => true,
            _ => false,
        }
    }

    pub open spec fn spec_label(&self) -> Seq<char> {
        match self {
            RiskAction::Register => "register"@,
            RiskAction::Login => "login"@,
            RiskAction::OauthComplete => "oauth_complete"@,
            RiskAction::DeviceList => "device_list"@,
            RiskAction::DeviceRevoke => "device_revoke"@,
            RiskAction::DeviceMarkLost => "device_mark_lost"@,
            RiskAction::RecoveryStart => "recovery_start"@,
            RiskAction::RecoveryApprove => "recovery_approve"@,
            RiskAction::RecoveryComplete => "recovery_complete"@,
            RiskAction::ActionChallenge => "action_challenge"@,
            RiskAction::ActionExecute { action_name } => action_name@,
            RiskAction::AuditLogExport => "audit_log_export"@,
            RiskAction::Unknown { name } => name@,
        }
    }

    /// Whether the action is sensitive enough that partial signal collection
    /// forces a challenge.
    pub fn is_sensitive(&self) -> (r: bool)
        ensures
            r == self.spec_is_sensitive(),
    {
        match self {
            RiskAction::Login | RiskAction::OauthComplete | RiskAction::DeviceRevoke
            | RiskAction::DeviceMarkLost | RiskAction::RecoveryStart | RiskAction::RecoveryApprove
            | RiskAction::RecoveryComplete | RiskAction::ActionExecute { .. }
            | RiskAction::AuditLogExport => true,
            _ => false,
        }
    }

    /// Whether the action belongs to the account-recovery flow.
    pub fn is_recovery(&self) -> (r: bool)
        ensures
            r == self.spec_is_recovery(),
    {
        match self {
            RiskAction::RecoveryStart | RiskAction::RecoveryApprove | RiskAction::RecoveryComplete => true,
            _ => false,
        }
    }

    /// Whether the action is privileged (irreversible or administrative).
    pub fn is_privileged(&self) -> (r: bool)
        ensures
            r == self.spec_is_privileged(),
    {
        match self {
            RiskAction::RecoveryApprove | RiskAction::RecoveryComplete => true,
            RiskAction::ActionExecute { .. } => true,
            RiskAction::DeviceRevoke | RiskAction::DeviceMarkLost => true,
            RiskAction::AuditLogExport => true,
            _ => false,
        }
    }

    /// Human-readable label used in audit entries and factor descriptions.
    pub fn label(&self) -> (r: &str)
        ensures
            r@ == self.spec_label(),
    {
        match self {
            RiskAction::Register => "register",
            RiskAction::Login => "login",
            RiskAction::OauthComplete => "oauth_complete",
            RiskAction::DeviceList => "device_list",
            RiskAction::DeviceRevoke => "device_revoke",
            RiskAction::DeviceMarkLost => "device_mark_lost",
            RiskAction::RecoveryStart => "recovery_start",
            RiskAction::RecoveryApprove => "recovery_approve",
            RiskAction::RecoveryComplete => "recovery_complete",
            RiskAction::ActionChallenge => "action_challenge",
            RiskAction::ActionExecute { action_name } => action_name.as_str(),
            RiskAction::AuditLogExport => "audit_log_export",
            RiskAction::Unknown { name } => name.as_str(),
        }
    }
}

/// Current status of the authenticating credential.
#[derive(Debug, Clone, Copy, PartialEq, Eq, Structural)]
pub enum CredentialStatus {
    Active,
    Lost,
    Revoked,
}

/// Network ASN classification derived from an IP intelligence source.
#[derive(Debug, Clone, Copy, PartialEq, Eq, Structural)]
pub enum AsnType {
    Residential,
    Corporate,
    Datacenter,
    Tor,
    Vpn,
    Proxy,
    Hosting,
    Relay,
    Unknown,
}

/// Device trust level computed from device history.
#[derive(Debug, Clone, Copy, PartialEq, Eq, Structural)]
pub enum DeviceTrustLevel {
    New,
    Recognized,
    Trusted,
}

impl DeviceTrustLevel {
    pub open spec fn spec_is_untrusted(&self) -> bool {
        *self == DeviceTrustLevel::New || *self == DeviceTrustLevel::Recognized
    }

    /// New and Recognized devices are not yet trusted.
    pub fn is_untrusted(&self) -> (r: bool)
        ensures
            r == self.spec_is_untrusted(),
    {
        match self {
            DeviceTrustLevel::New | DeviceTrustLevel::Recognized => true,
            DeviceTrustLevel::Trusted => false,
        }
    }
}

/// Organisation-wide risk posture set by an operator.
#[derive(Debug, Clone, Copy, PartialEq, Eq, Structural)]
pub enum OrgRiskLevel {
    Normal,
    Elevated,
    UnderAttack,
}

/// What the caller must do to satisfy a Challenge (or Hold) decision.
#[derive(Debug, Clone, Copy, PartialEq, Eq, Structural)]
pub enum RequiredAction {
    StepUpWebAuthn,
    ReverifyDevice,
    ReLogin,
    AdminApproval,
    CompleteCaptcha,
    VerifyEmail,
}

/// The numeric value of an IP address.
#[derive(Debug, Clone, Copy, PartialEq, Eq, Structural)]
pub enum IpValue {
    V4(u32),
    V6(u128),
}

/// An IP address: its value, which the rules compare, and its canonical text,
/// which factor descriptions quote.
#[derive(Debug)]
pub struct IpAddress {
    pub value: IpValue,
    pub text: String,
}

impl Clone for IpAddress {
    fn clone(&self) -> (r: Self)
        ensures
            r.value == self.value,
            r.text@ == self.text@,
    {
        IpAddress { value: self.value, text: self.text.clone() }
    }
}

/// How far apart the last-login and request GeoIP points are
/// (present when both are known).
#[derive(Debug, Clone, Copy)]
pub struct GeoRelation {
    /// The great-circle distance in kilometres, truncated.
    pub distance_km: u32,
    /// The distance exceeds 500 km.
    pub beyond_500_km: bool,
    /// The distance exceeds 1000 km.
    pub beyond_1000_km: bool,
}

/// The travel-speed check between the last login and this request
/// (present when both points and the last login time are known).
#[derive(Debug)]
pub struct TravelCheck {
    /// The distance exceeds `elapsed_hours * 900 + 500` km.
    pub beyond_reach: bool,
    /// `elapsed_hours` with one decimal, as quoted in descriptions.
    pub elapsed_hours_text: String,
    /// The reachable distance with no decimals, as quoted in descriptions.
    pub reach_km_text: String,
}

/// CAPTCHA band of a client score (0.0 = bot, 1.0 = human).
#[derive(Debug, Clone, Copy, PartialEq, Eq, Structural)]
pub enum CaptchaBand {
    /// Below 0.3.
    Critical,
    /// At least 0.3, below 0.5.
    Suspicious,
    /// 0.5 or more (or not a number).
    Passing,
}

/// A CAPTCHA verification score: its band and its two-decimal rendering.
#[derive(Debug)]
pub struct CaptchaScore {
    pub band: CaptchaBand,
    pub text: String,
}

/// All signals available to the risk engine at evaluation time.
#[derive(Debug)]
pub struct RiskContext {
    // ── Request identity ─────────────────────────────────────────────────
    pub request_id: u128,
    pub evaluated_at_ms: i64,
    // ── User / credential identity ───────────────────────────────────────
    pub user_id: u128,
    pub username: String,
    pub credential_id: Option<u128>,
    // ── Action ───────────────────────────────────────────────────────────
    pub action: RiskAction,
    pub resource_id: Option<String>,
    // ── Credential metadata ──────────────────────────────────────────────
    pub credential_status: CredentialStatus,
    pub credential_created_at_ms: i64,
    pub credential_last_used_at_ms: Option<i64>,
    pub credential_sign_count_prev: i64,
    pub credential_sign_count_new: i64,
    pub credential_registered_ua: Option<String>,
    pub credential_count_for_user: u32,
    // ── Historical context ───────────────────────────────────────────────
    pub prior_audit_event_count: u32,
    pub last_login_ip: Option<IpAddress>,
    pub last_login_at_ms: Option<i64>,
    /// Country of the last-login GeoIP point, when that point is known.
    pub last_login_country: Option<String>,
    // ── Session / JWT ────────────────────────────────────────────────────
    pub jwt_issued_at_ms: Option<i64>,
    pub jwt_expires_at_ms: Option<i64>,
    pub jwt_fingerprint_stored: Option<String>,
    pub jwt_fingerprint_current: Option<String>,
    // ── Network ──────────────────────────────────────────────────────────
    pub request_ip: Option<IpAddress>,
    pub request_ua: Option<String>,
    /// Country of the request GeoIP point, when that point is known.
    pub request_country: Option<String>,
    pub geo_relation: Option<GeoRelation>,
    pub travel: Option<TravelCheck>,
    pub ip_asn_type: Option<AsnType>,
    // ── Velocity counters ────────────────────────────────────────────────
    pub login_attempts_5m: Option<u32>,
    pub failed_login_attempts_1h: Option<u32>,
    pub actions_executed_5m: Option<u32>,
    pub recovery_requests_24h: Option<u32>,
    pub device_revocations_1h: Option<u32>,
    pub registrations_from_ip_10m: Option<u32>,
    // ── Session state ────────────────────────────────────────────────────
    pub active_session_count: Option<u32>,
    pub account_locked: bool,
    pub recovery_pending: bool,
    // ── OAuth / nonce ────────────────────────────────────────────────────
    pub oauth_authorize_ip: Option<IpAddress>,
    pub nonce_present: bool,
    pub nonce_already_used: bool,
    // ── Org posture ──────────────────────────────────────────────────────
    pub org_risk_level: OrgRiskLevel,
    // ── Signal collection metadata ───────────────────────────────────────
    pub redis_signals_degraded: bool,
    pub db_signals_degraded: bool,
    // ── Org-graph intelligence ───────────────────────────────────────────
    pub tenant_id: String,
    pub org_risk_score: Option<u8>,
    /// The cluster contribution for this user, when the user is in a cluster.
    pub cluster_contribution: Option<ClusterFactor>,
    pub threshold_shift: Option<i8>,
    pub org_active_cluster_count: u32,
    // ── Extended velocity windows ────────────────────────────────────────
    pub login_attempts_1m: Option<u32>,
    pub login_attempts_1h: Option<u32>,
    pub login_attempts_24h: Option<u32>,
    // ── Client signals ───────────────────────────────────────────────────
    pub client_timestamp_ms: Option<i64>,
    pub device_fingerprint_hash: Option<String>,
    pub ja3_fingerprint: Option<String>,
    pub known_ip_for_user: Option<bool>,
    pub ip_is_vpn: Option<bool>,
    pub ip_is_proxy: Option<bool>,
    pub ip_is_relay: Option<bool>,
    pub ip_abuse_confidence: Option<u8>,
    pub geo_allowed_countries: Option<Vec<String>>,
    pub is_sanctioned_country: Option<bool>,
    pub webdriver_detected: Option<bool>,
    pub captcha_score: Option<CaptchaScore>,
    pub screen_resolution: Option<String>,
    pub touch_capable: Option<bool>,
    // ── Account intelligence ─────────────────────────────────────────────
    pub account_age_days: Option<u32>,
    pub email_verified: Option<bool>,
    pub email_domain_disposable: Option<bool>,
    pub breached_credential: Option<bool>,
    // ── Time / behaviour ─────────────────────────────────────────────────
    pub user_typical_hours: Option<(u8, u8)>,
    pub accept_language: Option<String>,
    pub previous_accept_language: Option<String>,
    pub device_trust_level: Option<DeviceTrustLevel>,
    // ── Policy ───────────────────────────────────────────────────────────
    pub policy: PolicyConfig,
}

/// The credential status of a stored status string; an unknown status is
/// treated as active (fail-open, the engine still scores normally).
pub open spec fn spec_map_status(s: Seq<char>) -> CredentialStatus {
    if s == "revoked"@ {
        CredentialStatus::Revoked
    } else if s == "lost"@ {
        CredentialStatus::Lost
    } else {
        CredentialStatus::Active
    }
}

/// Map a stored credential status string to a [`CredentialStatus`].
pub fn map_status(s: &str) -> (r: CredentialStatus)
    ensures
        r == spec_map_status(s@),
{
    if crate::text::str_eq(s, "revoked") {
        CredentialStatus::Revoked
    } else if crate::text::str_eq(s, "lost") {
        CredentialStatus::Lost
    } else {
        CredentialStatus::Active
    }
}

} // verus!
