//! Runtime-tunable integer scoring knobs: weights, caps and thresholds.
use vstd::prelude::*;
use crate::config;

verus! {

/// The integer tuning knobs read by the scoring modules. `default()` gives
/// the standard v3.1 values.
#[derive(Debug)]
pub struct PolicyConfig {
    /// Human-readable label identifying this policy (e.g. `"v3.1"`).
    pub version: String,
    pub cap_device: u8,
    pub cap_session: u8,
    pub cap_network: u8,
    pub cap_behavioral: u8,
    pub cap_correlation: u8,
    pub max_org_cluster_bias: u8,
    pub threshold_allow_max: u8,
    pub threshold_challenge_max: u8,
    pub threshold_hold_max: u8,
    pub score_damping_threshold: u8,
    pub d_credential_lost: u8,
    pub d_credential_age_new_h: u8,
    pub d_credential_age_recent_h: u8,
    pub d_credential_age_stale_h: u8,
    pub d_dormant_device: u8,
    pub d_sign_count_jump_low: u8,
    pub d_sign_count_jump_med: u8,
    pub d_sign_count_jump_high: u8,
    pub d_ua_family_mismatch: u8,
    pub d_webdriver_detected: u8,
    pub d_bot_tls_fingerprint: u8,
    pub d_headless_ua: u8,
    pub d_captcha_fail_critical: u8,
    pub d_captcha_fail_suspicious: u8,
    pub d_touch_mismatch: u8,
    pub d_screen_res_suspicious: u8,
    pub d_no_device_fingerprint: u8,
    pub d_trust_new_device_sensitive: u8,
    pub d_trust_new_device: u8,
    pub d_trust_recognized_sensitive: u8,
    pub d_sole_credential: u8,
    pub s_fingerprint_mismatch: u8,
    pub s_near_expiry: u8,
    pub s_concurrent_high: u8,
    pub s_concurrent_elevated: u8,
    pub s_oauth_ip_mismatch: u8,
    pub s_timestamp_skew: u8,
    pub s_nonce_absent: u8,
    pub s_language_change: u8,
    pub s_out_of_hours: u8,
    pub s_email_not_verified: u8,
    pub n_tor_exit: u8,
    pub n_vpn_ip: u8,
    pub n_proxy_ip: u8,
    pub n_hosting_ip: u8,
    pub n_datacenter_ip: u8,
    pub n_relay_ip: u8,
    pub n_flagged_vpn: u8,
    pub n_flagged_proxy: u8,
    pub n_flagged_relay: u8,
    pub n_abuse_critical: u8,
    pub n_abuse_moderate: u8,
    pub n_abuse_light: u8,
    pub n_rfc1918_bonus: u8,
    pub n_impossible_travel: u8,
    pub n_geo_jump_large: u8,
    pub n_geo_jump_moderate: u8,
    pub n_country_change: u8,
    pub n_geo_not_allowed: u8,
    pub n_unknown_ip_user: u8,
    pub n_new_ip_history: u8,
    pub n_no_ip_history: u8,
    pub b_login_burst: u8,
    pub b_failed_high: u8,
    pub b_login_elevated: u8,
    pub b_login_moderate: u8,
    pub b_login_hourly: u8,
    pub b_login_daily: u8,
    pub b_failed_elevated: u8,
    pub b_recovery_velocity: u8,
    pub b_action_velocity: u8,
    pub b_revocation_spree: u8,
    pub b_revocation_elevated: u8,
    pub b_sybil_registration: u8,
    pub b_zero_audit_history: u8,
    pub b_disposable_email: u8,
    pub b_young_account_critical: u8,
    pub b_young_account_new: u8,
    pub c_ato_cluster: u8,
    pub c_sybil_spree: u8,
    pub c_automated_scraper: u8,
    pub c_shadow_session: u8,
    pub c_travel_anomaly: u8,
    pub c_cloner_pattern: u8,
}

impl PolicyConfig {
    /// Whether every knob holds its v3.1 default.
    pub open spec fn is_v31_default(&self) -> bool {
        &&& self.version@ == "v3.1"@
        &&& self.cap_device == 50
        &&& self.cap_session == 50
        &&& self.cap_network == 50
        &&& self.cap_behavioral == 50
        &&& self.cap_correlation == 100
        &&& self.max_org_cluster_bias == 25
        &&& self.threshold_allow_max == 39
        &&& self.threshold_challenge_max == 64
        &&& self.threshold_hold_max == 89
        &&& self.score_damping_threshold == 60
        &&& self.d_credential_lost == 40
        &&& self.d_credential_age_new_h == 15
        &&& self.d_credential_age_recent_h == 10
        &&& self.d_credential_age_stale_h == 5
        &&& self.d_dormant_device == 8
        &&& self.d_sign_count_jump_low == 15
        &&& self.d_sign_count_jump_med == 30
        &&& self.d_sign_count_jump_high == 50
        &&& self.d_ua_family_mismatch == 15
        &&& self.d_webdriver_detected == 45
        &&& self.d_bot_tls_fingerprint == 35
        &&& self.d_headless_ua == 5
        &&& self.d_captcha_fail_critical == 20
        &&& self.d_captcha_fail_suspicious == 10
        &&& self.d_touch_mismatch == 12
        &&& self.d_screen_res_suspicious == 8
        &&& self.d_no_device_fingerprint == 5
        &&& self.d_trust_new_device_sensitive == 10
        &&& self.d_trust_new_device == 5
        &&& self.d_trust_recognized_sensitive == 3
        &&& self.d_sole_credential == 5
        &&& self.s_fingerprint_mismatch == 45
        &&& self.s_near_expiry == 5
        &&& self.s_concurrent_high == 20
        &&& self.s_concurrent_elevated == 10
        &&& self.s_oauth_ip_mismatch == 15
        &&& self.s_timestamp_skew == 8
        &&& self.s_nonce_absent == 10
        &&& self.s_language_change == 5
        &&& self.s_out_of_hours == 5
        &&& self.s_email_not_verified == 8
        &&& self.n_tor_exit == 50
        &&& self.n_vpn_ip == 4
        &&& self.n_proxy_ip == 20
        &&& self.n_hosting_ip == 20
        &&& self.n_datacenter_ip == 15
        &&& self.n_relay_ip == 5
        &&& self.n_flagged_vpn == 10
        &&& self.n_flagged_proxy == 15
        &&& self.n_flagged_relay == 5
        &&& self.n_abuse_critical == 30
        &&& self.n_abuse_moderate == 15
        &&& self.n_abuse_light == 8
        &&& self.n_rfc1918_bonus == 10
        &&& self.n_impossible_travel == 40
        &&& self.n_geo_jump_large == 20
        &&& self.n_geo_jump_moderate == 15
        &&& self.n_country_change == 10
        &&& self.n_geo_not_allowed == 25
        &&& self.n_unknown_ip_user == 12
        &&& self.n_new_ip_history == 8
        &&& self.n_no_ip_history == 5
        &&& self.b_login_burst == 35
        &&& self.b_failed_high == 28
        &&& self.b_login_elevated == 20
        &&& self.b_login_moderate == 10
        &&& self.b_login_hourly == 15
        &&& self.b_login_daily == 10
        &&& self.b_failed_elevated == 20
        &&& self.b_recovery_velocity == 25
        &&& self.b_action_velocity == 22
        &&& self.b_revocation_spree == 30
        &&& self.b_revocation_elevated == 15
        &&& self.b_sybil_registration == 25
        &&& self.b_zero_audit_history == 8
        &&& self.b_disposable_email == 20
        &&& self.b_young_account_critical == 20
        &&& self.b_young_account_new == 8
        &&& self.c_ato_cluster == 40
        &&& self.c_sybil_spree == 35
        &&& self.c_automated_scraper == 30
        &&& self.c_shadow_session == 40
        &&& self.c_travel_anomaly == 15
        &&& self.c_cloner_pattern == 45
    }
}

impl Clone for PolicyConfig {
    fn clone(&self) -> (r: Self)
        ensures
            r.version@ == self.version@,
            r.cap_device == self.cap_device,
            r.cap_session == self.cap_session,
            r.cap_network == self.cap_network,
            r.cap_behavioral == self.cap_behavioral,
            r.cap_correlation == self.cap_correlation,
            r.max_org_cluster_bias == self.max_org_cluster_bias,
            r.threshold_allow_max == self.threshold_allow_max,
            r.threshold_challenge_max == self.threshold_challenge_max,
            r.threshold_hold_max == self.threshold_hold_max,
            r.score_damping_threshold == self.score_damping_threshold,
            r.d_credential_lost == self.d_credential_lost,
            r.d_credential_age_new_h == self.d_credential_age_new_h,
            r.d_credential_age_recent_h == self.d_credential_age_recent_h,
            r.d_credential_age_stale_h == self.d_credential_age_stale_h,
            r.d_dormant_device == self.d_dormant_device,
            r.d_sign_count_jump_low == self.d_sign_count_jump_low,
            r.d_sign_count_jump_med == self.d_sign_count_jump_med,
            r.d_sign_count_jump_high == self.d_sign_count_jump_high,
            r.d_ua_family_mismatch == self.d_ua_family_mismatch,
            r.d_webdriver_detected == self.d_webdriver_detected,
            r.d_bot_tls_fingerprint == self.d_bot_tls_fingerprint,
            r.d_headless_ua == self.d_headless_ua,
            r.d_captcha_fail_critical == self.d_captcha_fail_critical,
            r.d_captcha_fail_suspicious == self.d_captcha_fail_suspicious,
            r.d_touch_mismatch == self.d_touch_mismatch,
            r.d_screen_res_suspicious == self.d_screen_res_suspicious,
            r.d_no_device_fingerprint == self.d_no_device_fingerprint,
            r.d_trust_new_device_sensitive == self.d_trust_new_device_sensitive,
            r.d_trust_new_device == self.d_trust_new_device,
            r.d_trust_recognized_sensitive == self.d_trust_recognized_sensitive,
            r.d_sole_credential == self.d_sole_credential,
            r.s_fingerprint_mismatch == self.s_fingerprint_mismatch,
            r.s_near_expiry == self.s_near_expiry,
            r.s_concurrent_high == self.s_concurrent_high,
            r.s_concurrent_elevated == self.s_concurrent_elevated,
            r.s_oauth_ip_mismatch == self.s_oauth_ip_mismatch,
            r.s_timestamp_skew == self.s_timestamp_skew,
            r.s_nonce_absent == self.s_nonce_absent,
            r.s_language_change == self.s_language_change,
            r.s_out_of_hours == self.s_out_of_hours,
            r.s_email_not_verified == self.s_email_not_verified,
            r.n_tor_exit == self.n_tor_exit,
            r.n_vpn_ip == self.n_vpn_ip,
            r.n_proxy_ip == self.n_proxy_ip,
            r.n_hosting_ip == self.n_hosting_ip,
            r.n_datacenter_ip == self.n_datacenter_ip,
            r.n_relay_ip == self.n_relay_ip,
            r.n_flagged_vpn == self.n_flagged_vpn,
            r.n_flagged_proxy == self.n_flagged_proxy,
            r.n_flagged_relay == self.n_flagged_relay,
            r.n_abuse_critical == self.n_abuse_critical,
            r.n_abuse_moderate == self.n_abuse_moderate,
            r.n_abuse_light == self.n_abuse_light,
            r.n_rfc1918_bonus == self.n_rfc1918_bonus,
            r.n_impossible_travel == self.n_impossible_travel,
            r.n_geo_jump_large == self.n_geo_jump_large,
            r.n_geo_jump_moderate == self.n_geo_jump_moderate,
            r.n_country_change == self.n_country_change,
            r.n_geo_not_allowed == self.n_geo_not_allowed,
            r.n_unknown_ip_user == self.n_unknown_ip_user,
            r.n_new_ip_history == self.n_new_ip_history,
            r.n_no_ip_history == self.n_no_ip_history,
            r.b_login_burst == self.b_login_burst,
            r.b_failed_high == self.b_failed_high,
            r.b_login_elevated == self.b_login_elevated,
            r.b_login_moderate == self.b_login_moderate,
            r.b_login_hourly == self.b_login_hourly,
            r.b_login_daily == self.b_login_daily,
            r.b_failed_elevated == self.b_failed_elevated,
            r.b_recovery_velocity == self.b_recovery_velocity,
            r.b_action_velocity == self.b_action_velocity,
            r.b_revocation_spree == self.b_revocation_spree,
            r.b_revocation_elevated == self.b_revocation_elevated,
            r.b_sybil_registration == self.b_sybil_registration,
            r.b_zero_audit_history == self.b_zero_audit_history,
            r.b_disposable_email == self.b_disposable_email,
            r.b_young_account_critical == self.b_young_account_critical,
            r.b_young_account_new == self.b_young_account_new,
            r.c_ato_cluster == self.c_ato_cluster,
            r.c_sybil_spree == self.c_sybil_spree,
            r.c_automated_scraper == self.c_automated_scraper,
            r.c_shadow_session == self.c_shadow_session,
            r.c_travel_anomaly == self.c_travel_anomaly,
            r.c_cloner_pattern == self.c_cloner_pattern,
    {
        PolicyConfig {
            version: self.version.clone(),
            cap_device: self.cap_device,
            cap_session: self.cap_session,
            cap_network: self.cap_network,
            cap_behavioral: self.cap_behavioral,
            cap_correlation: self.cap_correlation,
            max_org_cluster_bias: self.max_org_cluster_bias,
            threshold_allow_max: self.threshold_allow_max,
            threshold_challenge_max: self.threshold_challenge_max,
            threshold_hold_max: self.threshold_hold_max,
            score_damping_threshold: self.score_damping_threshold,
            d_credential_lost: self.d_credential_lost,
            d_credential_age_new_h: self.d_credential_age_new_h,
            d_credential_age_recent_h: self.d_credential_age_recent_h,
            d_credential_age_stale_h: self.d_credential_age_stale_h,
            d_dormant_device: self.d_dormant_device,
            d_sign_count_jump_low: self.d_sign_count_jump_low,
            d_sign_count_jump_med: self.d_sign_count_jump_med,
            d_sign_count_jump_high: self.d_sign_count_jump_high,
            d_ua_family_mismatch: self.d_ua_family_mismatch,
            d_webdriver_detected: self.d_webdriver_detected,
            d_bot_tls_fingerprint: self.d_bot_tls_fingerprint,
            d_headless_ua: self.d_headless_ua,
            d_captcha_fail_critical: self.d_captcha_fail_critical,
            d_captcha_fail_suspicious: self.d_captcha_fail_suspicious,
            d_touch_mismatch: self.d_touch_mismatch,
            d_screen_res_suspicious: self.d_screen_res_suspicious,
            d_no_device_fingerprint: self.d_no_device_fingerprint,
            d_trust_new_device_sensitive: self.d_trust_new_device_sensitive,
            d_trust_new_device: self.d_trust_new_device,
            d_trust_recognized_sensitive: self.d_trust_recognized_sensitive,
            d_sole_credential: self.d_sole_credential,
            s_fingerprint_mismatch: self.s_fingerprint_mismatch,
            s_near_expiry: self.s_near_expiry,
            s_concurrent_high: self.s_concurrent_high,
            s_concurrent_elevated: self.s_concurrent_elevated,
            s_oauth_ip_mismatch: self.s_oauth_ip_mismatch,
            s_timestamp_skew: self.s_timestamp_skew,
            s_nonce_absent: self.s_nonce_absent,
            s_language_change: self.s_language_change,
            s_out_of_hours: self.s_out_of_hours,
            s_email_not_verified: self.s_email_not_verified,
            n_tor_exit: self.n_tor_exit,
            n_vpn_ip: self.n_vpn_ip,
            n_proxy_ip: self.n_proxy_ip,
            n_hosting_ip: self.n_hosting_ip,
            n_datacenter_ip: self.n_datacenter_ip,
            n_relay_ip: self.n_relay_ip,
            n_flagged_vpn: self.n_flagged_vpn,
            n_flagged_proxy: self.n_flagged_proxy,
            n_flagged_relay: self.n_flagged_relay,
            n_abuse_critical: self.n_abuse_critical,
            n_abuse_moderate: self.n_abuse_moderate,
            n_abuse_light: self.n_abuse_light,
            n_rfc1918_bonus: self.n_rfc1918_bonus,
            n_impossible_travel: self.n_impossible_travel,
            n_geo_jump_large: self.n_geo_jump_large,
            n_geo_jump_moderate: self.n_geo_jump_moderate,
            n_country_change: self.n_country_change,
            n_geo_not_allowed: self.n_geo_not_allowed,
            n_unknown_ip_user: self.n_unknown_ip_user,
            n_new_ip_history: self.n_new_ip_history,
            n_no_ip_history: self.n_no_ip_history,
            b_login_burst: self.b_login_burst,
            b_failed_high: self.b_failed_high,
            b_login_elevated: self.b_login_elevated,
            b_login_moderate: self.b_login_moderate,
            b_login_hourly: self.b_login_hourly,
            b_login_daily: self.b_login_daily,
            b_failed_elevated: self.b_failed_elevated,
            b_recovery_velocity: self.b_recovery_velocity,
            b_action_velocity: self.b_action_velocity,
            b_revocation_spree: self.b_revocation_spree,
            b_revocation_elevated: self.b_revocation_elevated,
            b_sybil_registration: self.b_sybil_registration,
            b_zero_audit_history: self.b_zero_audit_history,
            b_disposable_email: self.b_disposable_email,
            b_young_account_critical: self.b_young_account_critical,
            b_young_account_new: self.b_young_account_new,
            c_ato_cluster: self.c_ato_cluster,
            c_sybil_spree: self.c_sybil_spree,
            c_automated_scraper: self.c_automated_scraper,
            c_shadow_session: self.c_shadow_session,
            c_travel_anomaly: self.c_travel_anomaly,
            c_cloner_pattern: self.c_cloner_pattern,
        }
    }
}

/// The version label of the standard weights.
pub fn default_version() -> (r: String)
    ensures
        r@ == "v3.1"@,
{
    "v3.1".to_string()
}

impl Default for PolicyConfig {
    fn default() -> (r: Self)
        ensures
            r.is_v31_default(),
    {
        let r = PolicyConfig {
            version: default_version(),
            cap_device: config::CAP_DEVICE,
            cap_session: config::CAP_SESSION,
            cap_network: config::CAP_NETWORK,
            cap_behavioral: config::CAP_BEHAVIORAL,
            cap_correlation: 100,
            max_org_cluster_bias: config::MAX_ORG_CLUSTER_BIAS,
            threshold_allow_max: config::THRESHOLD_ALLOW_MAX,
            threshold_challenge_max: config::THRESHOLD_CHALLENGE_MAX,
            threshold_hold_max: config::THRESHOLD_HOLD_MAX,
            score_damping_threshold: config::SCORE_DAMPING_THRESHOLD,
            d_credential_lost: config::D_CREDENTIAL_LOST,
            d_credential_age_new_h: config::D_CREDENTIAL_AGE_NEW_H,
            d_credential_age_recent_h: config::D_CREDENTIAL_AGE_RECENT_H,
            d_credential_age_stale_h: config::D_CREDENTIAL_AGE_STALE_H,
            d_dormant_device: config::D_DORMANT_DEVICE,
            d_sign_count_jump_low: config::D_SIGN_COUNT_JUMP_LOW,
            d_sign_count_jump_med: config::D_SIGN_COUNT_JUMP_MED,
            d_sign_count_jump_high: config::D_SIGN_COUNT_JUMP_HIGH,
            d_ua_family_mismatch: config::D_UA_FAMILY_MISMATCH,
            d_webdriver_detected: config::D_WEBDRIVER_DETECTED,
            d_bot_tls_fingerprint: config::D_BOT_TLS_FINGERPRINT,
            d_headless_ua: config::D_HEADLESS_UA,
            d_captcha_fail_critical: config::D_CAPTCHA_FAIL_CRITICAL,
            d_captcha_fail_suspicious: config::D_CAPTCHA_FAIL_SUSPICIOUS,
            d_touch_mismatch: config::D_TOUCH_MISMATCH,
            d_screen_res_suspicious: config::D_SCREEN_RES_SUSPICIOUS,
            d_no_device_fingerprint: config::D_NO_DEVICE_FINGERPRINT,
            d_trust_new_device_sensitive: config::D_TRUST_NEW_DEVICE_SENSITIVE,
            d_trust_new_device: config::D_TRUST_NEW_DEVICE,
            d_trust_recognized_sensitive: config::D_TRUST_RECOGNIZED_SENSITIVE,
            d_sole_credential: config::D_SOLE_CREDENTIAL,
            s_fingerprint_mismatch: config::S_FINGERPRINT_MISMATCH,
            s_near_expiry: config::S_NEAR_EXPIRY,
            s_concurrent_high: config::S_CONCURRENT_HIGH,
            s_concurrent_elevated: config::S_CONCURRENT_ELEVATED,
            s_oauth_ip_mismatch: config::S_OAUTH_IP_MISMATCH,
            s_timestamp_skew: config::S_TIMESTAMP_SKEW,
            s_nonce_absent: config::S_NONCE_ABSENT,
            s_language_change: config::S_LANGUAGE_CHANGE,
            s_out_of_hours: config::S_OUT_OF_HOURS,
            s_email_not_verified: config::S_EMAIL_NOT_VERIFIED,
            n_tor_exit: config::N_TOR_EXIT,
            n_vpn_ip: config::N_VPN_IP,
            n_proxy_ip: config::N_PROXY_IP,
            n_hosting_ip: config::N_HOSTING_IP,
            n_datacenter_ip: config::N_DATACENTER_IP,
            n_relay_ip: config::N_RELAY_IP,
            n_flagged_vpn: config::N_FLAGGED_VPN,
            n_flagged_proxy: config::N_FLAGGED_PROXY,
            n_flagged_relay: config::N_FLAGGED_RELAY,
            n_abuse_critical: config::N_ABUSE_CRITICAL,
            n_abuse_moderate: config::N_ABUSE_MODERATE,
            n_abuse_light: config::N_ABUSE_LIGHT,
            n_rfc1918_bonus: config::N_RFC1918_BONUS,
            n_impossible_travel: config::N_IMPOSSIBLE_TRAVEL,
            n_geo_jump_large: config::N_GEO_JUMP_LARGE,
            n_geo_jump_moderate: config::N_GEO_JUMP_MODERATE,
            n_country_change: config::N_COUNTRY_CHANGE,
            n_geo_not_allowed: config::N_GEO_NOT_ALLOWED,
            n_unknown_ip_user: config::N_UNKNOWN_IP_USER,
            n_new_ip_history: config::N_NEW_IP_HISTORY,
            n_no_ip_history: config::N_NO_IP_HISTORY,
            b_login_burst: config::B_LOGIN_BURST,
            b_failed_high: config::B_FAILED_HIGH,
            b_login_elevated: config::B_LOGIN_ELEVATED,
            b_login_moderate: config::B_LOGIN_MODERATE,
            b_login_hourly: config::B_LOGIN_HOURLY,
            b_login_daily: config::B_LOGIN_DAILY,
            b_failed_elevated: config::B_FAILED_ELEVATED,
            b_recovery_velocity: config::B_RECOVERY_VELOCITY,
            b_action_velocity: config::B_ACTION_VELOCITY,
            b_revocation_spree: config::B_REVOCATION_SPREE,
            b_revocation_elevated: config::B_REVOCATION_ELEVATED,
            b_sybil_registration: config::B_SYBIL_REGISTRATION,
            b_zero_audit_history: config::B_ZERO_AUDIT_HISTORY,
            b_disposable_email: config::B_DISPOSABLE_EMAIL,
            b_young_account_critical: config::B_YOUNG_ACCOUNT_CRITICAL,
            b_young_account_new: config::B_YOUNG_ACCOUNT_NEW,
            c_ato_cluster: config::C_ATO_CLUSTER,
            c_sybil_spree: config::C_SYBIL_SPREE,
            c_automated_scraper: config::C_AUTOMATED_SCRAPER,
            c_shadow_session: config::C_SHADOW_SESSION,
            c_travel_anomaly: config::C_TRAVEL_ANOMALY,
            c_cloner_pattern: config::C_CLONER_PATTERN,
        };
        proof {
            reveal_strlit("v3.1");
        }
        r
    }
}

} // verus!
