//! Records the engine keeps in, and reads from, its signal store.
use vstd::prelude::*;
use crate::decision::Decision;
use crate::text;

verus! {

/// Recommended nonce TTL in seconds (or the JWT lifetime, whichever is longer).
pub const NONCE_TTL_SECONDS: u64 = 300;

/// A compact record of a past engine decision, kept in the user's recent
/// decision list.
#[derive(Debug, Clone, Copy, PartialEq, Eq, Structural)]
pub struct EscalationEntry {
    pub score: u8,
    pub decision: Decision,
    pub ts_unix: i64,
}

/// All velocity signals fetched from the store in one batch. `None` means the
/// key was absent or the fetch timed out.
#[derive(Debug, Clone, Copy, PartialEq, Eq, Structural)]
pub struct VelocityCounters {
    pub login_attempts_5m: Option<u32>,
    pub failed_login_attempts_1h: Option<u32>,
    pub actions_executed_5m: Option<u32>,
    pub recovery_requests_24h: Option<u32>,
    pub device_revocations_1h: Option<u32>,
    pub registrations_from_ip_10m: Option<u32>,
    pub active_session_count: Option<u32>,
    pub account_locked: bool,
    pub recovery_pending: bool,
    pub login_attempts_1m: Option<u32>,
    pub login_attempts_1h: Option<u32>,
    pub login_attempts_24h: Option<u32>,
}

impl Default for VelocityCounters {
    fn default() -> (r: Self)
        ensures
            r.login_attempts_5m is None && r.failed_login_attempts_1h is None
                && r.actions_executed_5m is None && r.recovery_requests_24h is None
                && r.device_revocations_1h is None && r.registrations_from_ip_10m is None
                && r.active_session_count is None && !r.account_locked && !r.recovery_pending
                && r.login_attempts_1m is None && r.login_attempts_1h is None
                && r.login_attempts_24h is None,
    {
        VelocityCounters {
            login_attempts_5m: None,
            failed_login_attempts_1h: None,
            actions_executed_5m: None,
            recovery_requests_24h: None,
            device_revocations_1h: None,
            registrations_from_ip_10m: None,
            active_session_count: None,
            account_locked: false,
            recovery_pending: false,
            login_attempts_1m: None,
            login_attempts_1h: None,
            login_attempts_24h: None,
        }
    }
}

/// A stored counter as read back: its value when the text is a `u32`
/// (`str::parse` rules), `None` when absent or malformed.
pub open spec fn spec_counter(v: Option<Seq<char>>) -> Option<u32> {
    match v {
        Some(s) => match text::parse_unsigned(s, u32::MAX as nat) {
            Some(n) => Some(n as u32),
            None => None,
        },
        None => None,
    }
}

/// Read a stored counter.
pub fn parse_counter(v: Option<&str>) -> (r: Option<u32>)
    ensures
        r == spec_counter(match v { Some(s) => Some(s@), None => None }),
{
    match v {
        Some(s) => {
            let c = text::chars_of(s);
            match text::parse_unsigned_exec(&c, 0xffff_ffff) {
                Some(n) => Some(n as u32),
                None => None,
            }
        },
        None => None,
    }
}

/// A stored flag is set when present and not `"0"`.
pub fn flag_set(v: Option<&str>) -> (r: bool)
    ensures
        r == match v { Some(s) => s@ != "0"@, None => false },
{
    match v {
        Some(s) => !text::str_eq(s, "0"),
        None => false,
    }
}

} // verus!
