//! The engine's output vocabulary: decisions, score components, factors and
//! hard gates.
use vstd::prelude::*;

verus! {

/// The engine's verdict for a request.
#[derive(Debug, Clone, Copy, PartialEq, Eq, Structural)]
pub enum Decision {
    /// Proceed. No friction added.
    Allow,
    /// Require an additional verification step (`required_action` is set).
    Challenge,
    /// Blocked and queued for asynchronous human review.
    Hold,
    /// Hard block.
    Deny,
}

impl Decision {
    /// True for any outcome that does not let the action proceed immediately.
    pub open spec fn spec_is_blocking(self) -> bool {
        self != Decision::Allow
    }

    /// Returns true for Challenge, Hold and Deny.
    pub fn is_blocking(&self) -> (r: bool)
        ensures
            r == self.spec_is_blocking(),
    {
        match self {
            Decision::Allow => false,
            _ => true,
        }
    }
}

/// The label of a decision used in metrics (`"allow"`, `"challenge"`, ...).
pub open spec fn spec_decision_label(d: Decision) -> Seq<char> {
    match d {
        Decision::Allow => "allow"@,
        Decision::Challenge => "challenge"@,
        Decision::Hold => "hold"@,
        Decision::Deny => "deny"@,
    }
}

/// Metrics label of a decision.
pub fn decision_label(d: &Decision) -> (r: &'static str)
    ensures
        r@ == spec_decision_label(*d),
{
    match d {
        Decision::Allow => "allow",
        Decision::Challenge => "challenge",
        Decision::Hold => "hold",
        Decision::Deny => "deny",
    }
}

/// The score bucket a factor contributes to.
#[derive(Debug, Clone, Copy, PartialEq, Eq, Structural)]
pub enum ScoreComponent {
    Device,
    Session,
    Network,
    Behavioral,
    Correlation,
    Absolute,
    Gate,
}

/// The label of a score component used in metrics.
pub open spec fn spec_component_label(c: ScoreComponent) -> Seq<char> {
    match c {
        ScoreComponent::Device => "device"@,
        ScoreComponent::Session => "session"@,
        ScoreComponent::Network => "network"@,
        ScoreComponent::Behavioral => "behavioral"@,
        ScoreComponent::Correlation => "correlation"@,
        ScoreComponent::Absolute => "absolute"@,
        ScoreComponent::Gate => "gate"@,
    }
}

/// Metrics label of a score component.
pub fn component_label(c: &ScoreComponent) -> (r: &'static str)
    ensures
        r@ == spec_component_label(*c),
{
    match c {
        ScoreComponent::Device => "device",
        ScoreComponent::Session => "session",
        ScoreComponent::Network => "network",
        ScoreComponent::Behavioral => "behavioral",
        ScoreComponent::Correlation => "correlation",
        ScoreComponent::Absolute => "absolute",
        ScoreComponent::Gate => "gate",
    }
}

/// A single scored signal contributing to the result.
#[derive(Debug)]
pub struct Factor {
    pub name: String,
    pub component: ScoreComponent,
    /// Raw points this factor added to its component bucket.
    pub contribution: u8,
    pub description: String,
}

/// The mathematical content of a [`Factor`].
pub struct FactorView {
    pub name: Seq<char>,
    pub component: ScoreComponent,
    pub contribution: u8,
    pub description: Seq<char>,
}

impl View for Factor {
    type V = FactorView;

    open spec fn view(&self) -> FactorView {
        FactorView {
            name: self.name@,
            component: self.component,
            contribution: self.contribution,
            description: self.description@,
        }
    }
}

impl Clone for Factor {
    fn clone(&self) -> (r: Self)
        ensures
            r@ == self@,
    {
        Factor {
            name: self.name.clone(),
            component: self.component,
            contribution: self.contribution,
            description: self.description.clone(),
        }
    }
}

/// The views of a list of factors.
pub open spec fn factors_view(v: Seq<Factor>) -> Seq<FactorView> {
    Seq::new(v.len(), |i: int| v[i]@)
}

/// Named hard-block triggers.
#[derive(Debug, Clone, Copy, PartialEq, Eq, Structural)]
pub enum HardGate {
    RevokedCredential,
    /// Credential explicitly marked as lost by its owner.
    LostCredential,
    AccountLocked,
    NonceReplay,
    ImpossibleTravelViaTor,
    TorOnSensitiveAction,
    RecoveryCompletedWithNoPending,
    OauthNonceIpMismatchOnTor,
    /// OAuth code redeemed from an IP other than the one that authorized it.
    OauthIpMismatch,
    SignCountRollback,
    /// Request from a sanctioned country.
    SanctionedCountry,
    /// Breached credential on a sensitive action.
    BreachedCredentialOnSensitive,
    /// VPN/proxy/relay on a critical privileged action.
    VpnOnCriticalAction,
    /// Tor on a recovery action.
    TorOnRecovery,
    /// Browser automation during registration.
    AutomationOnRegister,
    /// JWT fingerprint mismatch on a sensitive action.
    SensitiveActionOnMismatch,
    /// Privileged action on a credential younger than five minutes.
    PrivilegedActionOnFreshCredential,
    /// Expired JWT on a sensitive action.
    ExpiredJwtOnSensitive,
}

/// The `Debug` name of a gate (the rule name reported for it).
pub open spec fn spec_gate_name(g: HardGate) -> Seq<char> {
    match g {
        HardGate::RevokedCredential => "RevokedCredential"@,
        HardGate::LostCredential => "LostCredential"@,
        HardGate::AccountLocked => "AccountLocked"@,
        HardGate::NonceReplay => "NonceReplay"@,
        HardGate::ImpossibleTravelViaTor => "ImpossibleTravelViaTor"@,
        HardGate::TorOnSensitiveAction => "TorOnSensitiveAction"@,
        HardGate::RecoveryCompletedWithNoPending => "RecoveryCompletedWithNoPending"@,
        HardGate::OauthNonceIpMismatchOnTor => "OauthNonceIpMismatchOnTor"@,
        HardGate::OauthIpMismatch => "OauthIpMismatch"@,
        HardGate::SignCountRollback => "SignCountRollback"@,
        HardGate::SanctionedCountry => "SanctionedCountry"@,
        HardGate::BreachedCredentialOnSensitive => "BreachedCredentialOnSensitive"@,
        HardGate::VpnOnCriticalAction => "VpnOnCriticalAction"@,
        HardGate::TorOnRecovery => "TorOnRecovery"@,
        HardGate::AutomationOnRegister => "AutomationOnRegister"@,
        HardGate::SensitiveActionOnMismatch => "SensitiveActionOnMismatch"@,
        HardGate::PrivilegedActionOnFreshCredential => "PrivilegedActionOnFreshCredential"@,
        HardGate::ExpiredJwtOnSensitive => "ExpiredJwtOnSensitive"@,
    }
}

/// The rule name reported for a gate.
pub fn gate_name(g: &HardGate) -> (r: &'static str)
    ensures
        r@ == spec_gate_name(*g),
{
    match g {
        HardGate::RevokedCredential => "RevokedCredential",
        HardGate::LostCredential => "LostCredential",
        HardGate::AccountLocked => "AccountLocked",
        HardGate::NonceReplay => "NonceReplay",
        HardGate::ImpossibleTravelViaTor => "ImpossibleTravelViaTor",
        HardGate::TorOnSensitiveAction => "TorOnSensitiveAction",
        HardGate::RecoveryCompletedWithNoPending => "RecoveryCompletedWithNoPending",
        HardGate::OauthNonceIpMismatchOnTor => "OauthNonceIpMismatchOnTor",
        HardGate::OauthIpMismatch => "OauthIpMismatch",
        HardGate::SignCountRollback => "SignCountRollback",
        HardGate::SanctionedCountry => "SanctionedCountry",
        HardGate::BreachedCredentialOnSensitive => "BreachedCredentialOnSensitive",
        HardGate::VpnOnCriticalAction => "VpnOnCriticalAction",
        HardGate::TorOnRecovery => "TorOnRecovery",
        HardGate::AutomationOnRegister => "AutomationOnRegister",
        HardGate::SensitiveActionOnMismatch => "SensitiveActionOnMismatch",
        HardGate::PrivilegedActionOnFreshCredential => "PrivilegedActionOnFreshCredential",
        HardGate::ExpiredJwtOnSensitive => "ExpiredJwtOnSensitive",
    }
}

/// The metrics label of a gate.
pub open spec fn spec_gate_label(g: HardGate) -> Seq<char> {
    match g {
        HardGate::RevokedCredential => "revoked_credential"@,
        HardGate::LostCredential => "lost_credential"@,
        HardGate::AccountLocked => "account_locked"@,
        HardGate::NonceReplay => "nonce_replay"@,
        HardGate::ImpossibleTravelViaTor => "impossible_travel_via_tor"@,
        HardGate::TorOnSensitiveAction => "tor_on_sensitive_action"@,
        HardGate::RecoveryCompletedWithNoPending => "recovery_completed_with_no_pending"@,
        HardGate::OauthNonceIpMismatchOnTor => "oauth_nonce_ip_mismatch_on_tor"@,
        HardGate::OauthIpMismatch => "oauth_ip_mismatch"@,
        HardGate::SignCountRollback => "sign_count_rollback"@,
        HardGate::SanctionedCountry => "sanctioned_country"@,
        HardGate::BreachedCredentialOnSensitive => "breached_credential_on_sensitive"@,
        HardGate::VpnOnCriticalAction => "vpn_on_critical_action"@,
        HardGate::TorOnRecovery => "tor_on_recovery"@,
        HardGate::AutomationOnRegister => "automation_on_register"@,
        HardGate::SensitiveActionOnMismatch => "sensitive_action_on_mismatch"@,
        HardGate::PrivilegedActionOnFreshCredential => "privileged_action_on_fresh_credential"@,
        HardGate::ExpiredJwtOnSensitive => "expired_jwt_on_sensitive"@,
    }
}

/// Metrics label of a hard gate.
pub fn gate_label(g: &HardGate) -> (r: &'static str)
    ensures
        r@ == spec_gate_label(*g),
{
    match g {
        HardGate::RevokedCredential => "revoked_credential",
        HardGate::LostCredential => "lost_credential",
        HardGate::AccountLocked => "account_locked",
        HardGate::NonceReplay => "nonce_replay",
        HardGate::ImpossibleTravelViaTor => "impossible_travel_via_tor",
        HardGate::TorOnSensitiveAction => "tor_on_sensitive_action",
        HardGate::RecoveryCompletedWithNoPending => "recovery_completed_with_no_pending",
        HardGate::OauthNonceIpMismatchOnTor => "oauth_nonce_ip_mismatch_on_tor",
        HardGate::OauthIpMismatch => "oauth_ip_mismatch",
        HardGate::SignCountRollback => "sign_count_rollback",
        HardGate::SanctionedCountry => "sanctioned_country",
        HardGate::BreachedCredentialOnSensitive => "breached_credential_on_sensitive",
        HardGate::VpnOnCriticalAction => "vpn_on_critical_action",
        HardGate::TorOnRecovery => "tor_on_recovery",
        HardGate::AutomationOnRegister => "automation_on_register",
        HardGate::SensitiveActionOnMismatch => "sensitive_action_on_mismatch",
        HardGate::PrivilegedActionOnFreshCredential => "privileged_action_on_fresh_credential",
        HardGate::ExpiredJwtOnSensitive => "expired_jwt_on_sensitive",
    }
}

/// Wire-level schema version of the decision payload.
pub const SCHEMA_VERSION: u32 = 1;

} // verus!
