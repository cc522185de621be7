//! The store key schema.
use vstd::prelude::*;
use crate::text;
use crate::ids::{uuid_hyphenated, uuid_string};
use crate::context::IpAddress;

verus! {

/// `prefix{uid}suffix`.
pub open spec fn uid_key(prefix: Seq<char>, uid: u128, suffix: Seq<char>) -> Seq<char> {
    prefix + uuid_hyphenated(uid) + suffix
}

fn with_uid(prefix: &str, uid: u128, suffix: &str) -> (r: String)
    ensures
        r@ == uid_key(prefix@, uid, suffix@),
{
    let u = uuid_string(uid);
    text::concat3(prefix, u.as_str(), suffix)
}

/// Login attempts in the last minute.
pub fn k_velocity_login_1m(uid: u128) -> (r: String)
    ensures r@ == uid_key("velocity:login:"@, uid, ":1m"@),
{
    with_uid("velocity:login:", uid, ":1m")
}

/// Login attempts in the last five minutes.
pub fn k_velocity_login_5m(uid: u128) -> (r: String)
    ensures r@ == uid_key("velocity:login:"@, uid, ":5m"@),
{
    with_uid("velocity:login:", uid, ":5m")
}

/// Login attempts in the last hour.
pub fn k_velocity_login_1h(uid: u128) -> (r: String)
    ensures r@ == uid_key("velocity:login:"@, uid, ":1h"@),
{
    with_uid("velocity:login:", uid, ":1h")
}

/// Login attempts in the last day.
pub fn k_velocity_login_24h(uid: u128) -> (r: String)
    ensures r@ == uid_key("velocity:login:"@, uid, ":24h"@),
{
    with_uid("velocity:login:", uid, ":24h")
}

/// Failed logins in the last hour.
pub fn k_velocity_failed(uid: u128) -> (r: String)
    ensures r@ == uid_key("velocity:failed:"@, uid, ":1h"@),
{
    with_uid("velocity:failed:", uid, ":1h")
}

/// Protected actions in the last five minutes.
pub fn k_velocity_actions(uid: u128) -> (r: String)
    ensures r@ == uid_key("velocity:actions:"@, uid, ":5m"@),
{
    with_uid("velocity:actions:", uid, ":5m")
}

/// Recovery requests in the last day.
pub fn k_velocity_recovery(uid: u128) -> (r: String)
    ensures r@ == uid_key("velocity:recovery:"@, uid, ":24h"@),
{
    with_uid("velocity:recovery:", uid, ":24h")
}

/// Device revocations in the last hour.
pub fn k_velocity_revocations(uid: u128) -> (r: String)
    ensures r@ == uid_key("velocity:revocations:"@, uid, ":1h"@),
{
    with_uid("velocity:revocations:", uid, ":1h")
}

/// Registrations from an IP in the last ten minutes.
pub fn k_velocity_registrations(ip: &IpAddress) -> (r: String)
    ensures r@ == "velocity:registrations:"@ + ip.text@ + ":10m"@,
{
    text::concat3("velocity:registrations:", ip.text.as_str(), ":10m")
}

/// Active session count.
pub fn k_active_sessions(uid: u128) -> (r: String)
    ensures r@ == "sessions:active:"@ + uuid_hyphenated(uid),
{
    let u = uuid_string(uid);
    text::concat2("sessions:active:", u.as_str())
}

/// Account lock flag.
pub fn k_locked(uid: u128) -> (r: String)
    ensures r@ == "login:locked:"@ + uuid_hyphenated(uid),
{
    let u = uuid_string(uid);
    text::concat2("login:locked:", u.as_str())
}

/// Pending recovery flag.
pub fn k_recovery_pending(uid: u128) -> (r: String)
    ensures r@ == "recovery:pending:"@ + uuid_hyphenated(uid),
{
    let u = uuid_string(uid);
    text::concat2("recovery:pending:", u.as_str())
}

/// Blocked-IP flag.
pub fn k_ip_blocked(ip: &IpAddress) -> (r: String)
    ensures r@ == "ip:blocked:"@ + ip.text@,
{
    text::concat2("ip:blocked:", ip.text.as_str())
}

/// Recent decisions of a user (escalation memory).
pub fn k_risk_recent(uid: u128) -> (r: String)
    ensures r@ == "risk:recent:"@ + uuid_hyphenated(uid),
{
    let u = uuid_string(uid);
    text::concat2("risk:recent:", u.as_str())
}

/// A stored JWT fingerprint.
pub fn k_jwt_fingerprint(key: &str) -> (r: String)
    ensures r@ == "jwt:fingerprint:"@ + key@,
{
    text::concat2("jwt:fingerprint:", key)
}

/// A consumed nonce.
pub fn k_nonce(nonce: &str) -> (r: String)
    ensures r@ == "nonce:"@ + nonce@,
{
    text::concat2("nonce:", nonce)
}

/// A tenant's org risk snapshot.
pub fn k_org_risk(tenant: &str) -> (r: String)
    ensures r@ == "org:risk:"@ + tenant@,
{
    text::concat2("org:risk:", tenant)
}

/// A node's cluster membership.
pub fn k_org_membership(tenant: &str, node_key: &str) -> (r: String)
    ensures r@ == "org:membership:"@ + tenant@ + ":"@ + node_key@,
{
    let mut r = text::concat3("org:membership:", tenant, ":");
    text::push_str(&mut r, node_key);
    r
}

/// A tenant's risk profile.
pub fn k_org_tenant(tenant: &str) -> (r: String)
    ensures r@ == "org:tenant:"@ + tenant@,
{
    text::concat2("org:tenant:", tenant)
}

/// A tenant's pending graph updates.
pub fn k_org_updates(tenant: &str) -> (r: String)
    ensures r@ == "org:updates:"@ + tenant@,
{
    text::concat2("org:updates:", tenant)
}

/// A tenant's decision statistics.
pub fn k_org_stats(tenant: &str) -> (r: String)
    ensures r@ == "org:meta:"@ + tenant@ + ":stats"@,
{
    text::concat3("org:meta:", tenant, ":stats")
}

/// A tenant's graph edges.
pub fn k_org_edges(tenant: &str) -> (r: String)
    ensures r@ == "org:graph:"@ + tenant@ + ":edges"@,
{
    text::concat3("org:graph:", tenant, ":edges")
}

/// A tenant's policy overrides.
pub fn k_policy(tenant_id: &str) -> (r: String)
    ensures r@ == "policy:"@ + tenant_id@,
{
    text::concat2("policy:", tenant_id)
}

} // verus!
