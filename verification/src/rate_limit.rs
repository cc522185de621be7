//! Rate-limit bucket keys and the limiter's degraded-mode counter.
use vstd::prelude::*;
use crate::text;
use crate::ids::{uuid_hyphenated, uuid_string};
use crate::context::IpAddress;
use crate::error::RiskEngineError;

verus! {

/// The rate-limit bucket of a user.
pub fn user_key(user_id: u128) -> (r: String)
    ensures r@ == "user:"@ + uuid_hyphenated(user_id),
{
    let u = uuid_string(user_id);
    text::concat2("user:", u.as_str())
}

/// The rate-limit bucket of an IP.
pub fn ip_key(ip: &IpAddress) -> (r: String)
    ensures r@ == "ip:"@ + ip.text@,
{
    text::concat2("ip:", ip.text.as_str())
}

/// The store key of a limiter bucket.
pub fn bucket_key(key: &str) -> (r: String)
    ensures
        r@ == "rl:"@ + key@,
{
    text::concat2("rl:", key)
}

/// How long an idle bucket is kept: the whole seconds it takes to refill
/// from empty (rounded up), twice over, and at least two seconds.
pub open spec fn spec_bucket_ttl_ms(capacity: u32, rate_per_sec: u32) -> int {
    let refill_secs = (capacity as int + rate_per_sec as int - 1) / (rate_per_sec as int);
    let twice = 2000 * refill_secs;
    if twice > 2000 { twice } else { 2000 }
}

/// The idle lifetime of a bucket, in milliseconds.
pub fn bucket_ttl_ms(capacity: u32, rate_per_sec: u32) -> (r: u64)
    requires
        rate_per_sec > 0,
    ensures
        r as int == spec_bucket_ttl_ms(capacity, rate_per_sec),
{
    let num: u64 = capacity as u64 + rate_per_sec as u64 - 1;
    let rate: u64 = rate_per_sec as u64;
    let refill_secs = num / rate;
    assert(refill_secs <= num) by (nonlinear_arith)
        requires
            rate > 0,
            refill_secs == num / rate;
    let twice = refill_secs * 2000;
    if twice > 2000 { twice } else { 2000 }
}

/// Whether a failed limiter check rejects the request when the limiter fails
/// open: only an exhausted bucket does; any other failure (a store error, a
/// timeout) admits the request.
pub fn limiter_failure_rejects(e: &RiskEngineError) -> (r: bool)
    ensures
        r == (*e is RateLimited),
{
    match e {
        RiskEngineError::RateLimited(_) => true,
        _ => false,
    }
}

/// The message of an exhausted bucket.
pub open spec fn spec_limited_message(key: Seq<char>, capacity: u32, rate_per_sec: u32) -> Seq<char> {
    "key="@ + key + " cap="@ + text::decimal(capacity as nat) + " rate_per_sec="@ + text::decimal(rate_per_sec as nat)
}

/// The error returned when the bucket of `key` has no token left.
pub fn rate_limited(key: &str, capacity: u32, rate_per_sec: u32) -> (e: RiskEngineError)
    ensures
        e matches RiskEngineError::RateLimited(m) && m@ == spec_limited_message(key@, capacity, rate_per_sec),
{
    let mut m = text::concat2("key=", key);
    text::push_str(&mut m, " cap=");
    let c = text::decimal_string(capacity as u64);
    text::push_str(&mut m, c.as_str());
    text::push_str(&mut m, " rate_per_sec=");
    let r = text::decimal_string(rate_per_sec as u64);
    text::push_str(&mut m, r.as_str());
    RiskEngineError::RateLimited(m)
}

} // verus!
