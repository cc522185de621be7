//! C component: pattern correlation bonuses.
//!
//! Each pattern that fires adds its full weight (saturating at 255) and reports
//! a factor carrying that weight; the total is capped at the end.
use vstd::prelude::*;
use crate::text;
use crate::context::{AsnType, DeviceTrustLevel, RiskAction, RiskContext};
use crate::decision::{Factor, FactorView, ScoreComponent, factors_view};
use crate::scoring::{Candidate, rule};
use crate::scoring::device::{spec_is_headless_ua, is_headless_ua};

verus! {

pub open spec fn spec_is_anonymized(ctx: &RiskContext) -> bool {
    ctx.ip_asn_type == Some(AsnType::Vpn) || ctx.ip_asn_type == Some(AsnType::Tor)
        || ctx.ip_asn_type == Some(AsnType::Proxy) || ctx.ip_is_vpn == Some(true)
        || ctx.ip_is_proxy == Some(true)
}

/// No trust level, or an untrusted one.
pub open spec fn spec_is_new_device(ctx: &RiskContext) -> bool {
    match ctx.device_trust_level {
        Some(t) => t.spec_is_untrusted(),
        None => true,
    }
}

pub open spec fn spec_is_rapid_reg(ctx: &RiskContext) -> bool {
    match ctx.registrations_from_ip_10m {
        Some(r) => r >= 2,
        None => false,
    }
}

pub open spec fn spec_is_shady_net(ctx: &RiskContext) -> bool {
    ctx.ip_asn_type == Some(AsnType::Hosting) || ctx.ip_asn_type == Some(AsnType::Datacenter)
        || ctx.ip_is_proxy == Some(true)
}

pub open spec fn spec_is_burner_email(ctx: &RiskContext) -> bool {
    ctx.email_domain_disposable == Some(true) || ctx.email_verified == Some(false)
}

pub open spec fn spec_is_bot(ctx: &RiskContext) -> bool {
    ctx.webdriver_detected == Some(true) || match ctx.request_ua {
        Some(ua) => spec_is_headless_ua(ua@),
        None => false,
    }
}

pub open spec fn spec_is_cloud_ip(ctx: &RiskContext) -> bool {
    ctx.ip_asn_type == Some(AsnType::Hosting) || ctx.ip_asn_type == Some(AsnType::Datacenter)
}

pub open spec fn spec_high_concurrency(ctx: &RiskContext) -> bool {
    match ctx.active_session_count {
        Some(s) => s >= 3,
        None => false,
    }
}

/// A registered user-agent is on record and the request's differs from it
/// (a request without a user-agent counts as different).
pub open spec fn spec_ua_change(ctx: &RiskContext) -> bool {
    match ctx.credential_registered_ua {
        Some(reg) => match ctx.request_ua {
            Some(req) => req@ != reg@,
            None => true,
        },
        None => false,
    }
}

/// Both GeoIP points are known and more than 500 km apart.
pub open spec fn spec_geo_jump(ctx: &RiskContext) -> bool {
    match ctx.geo_relation {
        Some(g) => g.beyond_500_km,
        None => false,
    }
}

/// The previous count is positive and the new one exceeds it by more than one.
pub open spec fn spec_sign_count_jump(ctx: &RiskContext) -> bool {
    ctx.credential_sign_count_prev > 0 && ctx.credential_sign_count_new > ctx.credential_sign_count_prev + 1
}

fn is_anonymized(ctx: &RiskContext) -> (r: bool)
    ensures
        r == spec_is_anonymized(ctx),
{
    matches!(ctx.ip_asn_type, Some(AsnType::Vpn) | Some(AsnType::Tor) | Some(AsnType::Proxy))
        || ctx.ip_is_vpn == Some(true) || ctx.ip_is_proxy == Some(true)
}

fn is_new_device(ctx: &RiskContext) -> (r: bool)
    ensures
        r == spec_is_new_device(ctx),
{
    match &ctx.device_trust_level {
        Some(t) => t.is_untrusted(),
        None => true,
    }
}

fn is_rapid_reg(ctx: &RiskContext) -> (r: bool)
    ensures
        r == spec_is_rapid_reg(ctx),
{
    match ctx.registrations_from_ip_10m {
        Some(r) => r >= 2,
        None => false,
    }
}

fn is_shady_net(ctx: &RiskContext) -> (r: bool)
    ensures
        r == spec_is_shady_net(ctx),
{
    matches!(ctx.ip_asn_type, Some(AsnType::Hosting) | Some(AsnType::Datacenter)) || ctx.ip_is_proxy == Some(true)
}

fn is_burner_email(ctx: &RiskContext) -> (r: bool)
    ensures
        r == spec_is_burner_email(ctx),
{
    ctx.email_domain_disposable == Some(true) || ctx.email_verified == Some(false)
}

fn is_bot(ctx: &RiskContext) -> (r: bool)
    ensures
        r == spec_is_bot(ctx),
{
    ctx.webdriver_detected == Some(true) || match &ctx.request_ua {
        Some(ua) => is_headless_ua(ua.as_str()),
        None => false,
    }
}

fn is_cloud_ip(ctx: &RiskContext) -> (r: bool)
    ensures
        r == spec_is_cloud_ip(ctx),
{
    matches!(ctx.ip_asn_type, Some(AsnType::Hosting) | Some(AsnType::Datacenter))
}

fn high_concurrency(ctx: &RiskContext) -> (r: bool)
    ensures
        r == spec_high_concurrency(ctx),
{
    match ctx.active_session_count {
        Some(s) => s >= 3,
        None => false,
    }
}

fn ua_change(ctx: &RiskContext) -> (r: bool)
    ensures
        r == spec_ua_change(ctx),
{
    match &ctx.credential_registered_ua {
        Some(reg) => match &ctx.request_ua {
            Some(req) => !(*req == *reg),
            None => true,
        },
        None => false,
    }
}

fn geo_jump(ctx: &RiskContext) -> (r: bool)
    ensures
        r == spec_geo_jump(ctx),
{
    match &ctx.geo_relation {
        Some(g) => g.beyond_500_km,
        None => false,
    }
}

fn sign_count_jump(ctx: &RiskContext) -> (r: bool)
    ensures
        r == spec_sign_count_jump(ctx),
{
    let prev = ctx.credential_sign_count_prev;
    let new = ctx.credential_sign_count_new;
    prev > 0 && new > prev && new - prev > 1
}

/// The points the patterns add up to (saturating at 255) and the factors
/// they report, each carrying its full weight.
pub open spec fn pattern_fold(pats: Seq<Candidate>) -> (u8, Seq<FactorView>)
    decreases pats.len(),
{
    if pats.len() == 0 {
        (0, Seq::empty())
    } else {
        let (c, fs) = pattern_fold(pats.drop_last());
        let p = pats.last();
        (
            if c + p.weight > 255 { 255 } else { (c + p.weight) as u8 },
            fs.push(FactorView { name: p.name, component: ScoreComponent::Correlation, contribution: p.weight, description: p.description }),
        )
    }
}

pub open spec fn pattern_tracks(c: u8, factors: Seq<Factor>, base: Seq<FactorView>, pats: Seq<Candidate>) -> bool {
    let (s, fs) = pattern_fold(pats);
    c == s && factors_view(factors) == base + fs
}

fn apply_pattern(
    c: &mut u8,
    factors: &mut Vec<Factor>,
    name: &str,
    weight: u8,
    description: String,
    Ghost(base): Ghost<Seq<FactorView>>,
    Ghost(pats): Ghost<Seq<Candidate>>,
)
    requires
        pattern_tracks(*old(c), old(factors)@, base, pats),
    ensures
        pattern_tracks(*final(c), final(factors)@, base, pats.push(rule(name@, weight, description@))),
{
    assert(pats.push(rule(name@, weight, description@)).drop_last() =~= pats);
    *c = c.saturating_add(weight);
    let f = crate::scoring::factor(name, ScoreComponent::Correlation, weight, description);
    let ghost before = factors@;
    factors.push(f);
    proof {
        let (s, fs) = pattern_fold(pats);
        assert(factors_view(factors@) =~= factors_view(before).push(f@));
        assert(base + fs.push(f@) =~= (base + fs).push(f@));
    }
}

#[verifier::opaque]
pub open spec fn ato_cluster_pattern(ctx: &RiskContext) -> Seq<Candidate> {
    if ctx.action.spec_is_recovery() && spec_is_new_device(ctx) && spec_is_anonymized(ctx) {
        seq![rule("ato_cluster_pattern"@, ctx.policy.c_ato_cluster, "High-risk recovery attempt: New device + Anonymizing network detected"@)]
    } else {
        seq![]
    }
}

#[verifier::opaque]
pub open spec fn sybil_spree_pattern(ctx: &RiskContext) -> Seq<Candidate> {
    if ctx.action is Register && spec_is_rapid_reg(ctx) && (spec_is_shady_net(ctx) || spec_is_burner_email(ctx)) {
        seq![rule("sybil_spree_pattern"@, ctx.policy.c_sybil_spree, "Mass registration pattern: Multiple accounts from hosting/proxy infrastructure"@)]
    } else {
        seq![]
    }
}

#[verifier::opaque]
pub open spec fn automated_scraper_pattern(ctx: &RiskContext) -> Seq<Candidate> {
    if spec_is_bot(ctx) && spec_is_cloud_ip(ctx) {
        seq![rule("automated_scraper_pattern"@, ctx.policy.c_automated_scraper, "Bot activity detected from cloud/hosting infrastructure"@)]
    } else {
        seq![]
    }
}

#[verifier::opaque]
pub open spec fn shadow_session_pattern(ctx: &RiskContext) -> Seq<Candidate> {
    if spec_high_concurrency(ctx) && spec_ua_change(ctx) && ctx.known_ip_for_user == Some(false) {
        seq![rule("shadow_session_pattern"@, ctx.policy.c_shadow_session, "Concurrent session anomaly: Multiple IPs and browser mismatch"@)]
    } else {
        seq![]
    }
}

#[verifier::opaque]
pub open spec fn travel_anomaly_pattern(ctx: &RiskContext) -> Seq<Candidate> {
    if spec_geo_jump(ctx) && (ctx.ip_is_vpn == Some(true) || ctx.ip_asn_type == Some(AsnType::Vpn)) {
        seq![rule("travel_anomaly_pattern"@, ctx.policy.c_travel_anomaly, "Anonymized location shift: VPN detected during geographic jump"@)]
    } else {
        seq![]
    }
}

#[verifier::opaque]
pub open spec fn cloner_pattern(ctx: &RiskContext) -> Seq<Candidate> {
    if spec_sign_count_jump(ctx) && spec_ua_change(ctx) {
        seq![rule("credential_cloner_pattern"@, ctx.policy.c_cloner_pattern, "Unexpected WebAuthn sign-count jump with browser fingerprint change"@)]
    } else {
        seq![]
    }
}

/// The correlation patterns that fire, in evaluation order.
pub open spec fn correlation_patterns(ctx: &RiskContext) -> Seq<Candidate> {
    Seq::empty() + ato_cluster_pattern(ctx) + sybil_spree_pattern(ctx) + automated_scraper_pattern(ctx) + shadow_session_pattern(ctx) + travel_anomaly_pattern(ctx) + cloner_pattern(ctx)
}

/// The C component (the pattern points capped at `cap_correlation`) and the
/// factors it reports.
pub open spec fn spec_score_correlation(ctx: &RiskContext) -> (u8, Seq<FactorView>) {
    let (c, fs) = pattern_fold(correlation_patterns(ctx));
    (if c <= ctx.policy.cap_correlation { c } else { ctx.policy.cap_correlation }, fs)
}

/// Pattern step: account takeover via recovery on a new device over an anonymising network.
fn step_ato_cluster_pattern(ctx: &RiskContext, c: &mut u8, factors: &mut Vec<Factor>, Ghost(base): Ghost<Seq<FactorView>>, Ghost(prev): Ghost<Seq<Candidate>>)
    requires
        pattern_tracks(*old(c), old(factors)@, base, prev),
    ensures
        pattern_tracks(*final(c), final(factors)@, base, prev + ato_cluster_pattern(ctx)),
{
    reveal(ato_cluster_pattern);
    if ctx.action.is_recovery() && is_new_device(ctx) && is_anonymized(ctx) {
        apply_pattern(c, factors, "ato_cluster_pattern", ctx.policy.c_ato_cluster, text::owned("High-risk recovery attempt: New device + Anonymizing network detected"), Ghost(base), Ghost(prev));
    }
    proof {
        if ato_cluster_pattern(ctx).len() == 1 {
            assert(prev.push(ato_cluster_pattern(ctx)[0]) =~= prev + ato_cluster_pattern(ctx));
        } else {
            assert(prev =~= prev + ato_cluster_pattern(ctx));
        }
    }
}

/// Pattern step: mass registration from shady infrastructure.
fn step_sybil_spree_pattern(ctx: &RiskContext, c: &mut u8, factors: &mut Vec<Factor>, Ghost(base): Ghost<Seq<FactorView>>, Ghost(prev): Ghost<Seq<Candidate>>)
    requires
        pattern_tracks(*old(c), old(factors)@, base, prev),
    ensures
        pattern_tracks(*final(c), final(factors)@, base, prev + sybil_spree_pattern(ctx)),
{
    reveal(sybil_spree_pattern);
    if matches!(ctx.action, RiskAction::Register) && is_rapid_reg(ctx) && (is_shady_net(ctx) || is_burner_email(ctx)) {
        apply_pattern(c, factors, "sybil_spree_pattern", ctx.policy.c_sybil_spree, text::owned("Mass registration pattern: Multiple accounts from hosting/proxy infrastructure"), Ghost(base), Ghost(prev));
    }
    proof {
        if sybil_spree_pattern(ctx).len() == 1 {
            assert(prev.push(sybil_spree_pattern(ctx)[0]) =~= prev + sybil_spree_pattern(ctx));
        } else {
            assert(prev =~= prev + sybil_spree_pattern(ctx));
        }
    }
}

/// Pattern step: bot activity from cloud infrastructure.
fn step_automated_scraper_pattern(ctx: &RiskContext, c: &mut u8, factors: &mut Vec<Factor>, Ghost(base): Ghost<Seq<FactorView>>, Ghost(prev): Ghost<Seq<Candidate>>)
    requires
        pattern_tracks(*old(c), old(factors)@, base, prev),
    ensures
        pattern_tracks(*final(c), final(factors)@, base, prev + automated_scraper_pattern(ctx)),
{
    reveal(automated_scraper_pattern);
    if is_bot(ctx) && is_cloud_ip(ctx) {
        apply_pattern(c, factors, "automated_scraper_pattern", ctx.policy.c_automated_scraper, text::owned("Bot activity detected from cloud/hosting infrastructure"), Ghost(base), Ghost(prev));
    }
    proof {
        if automated_scraper_pattern(ctx).len() == 1 {
            assert(prev.push(automated_scraper_pattern(ctx)[0]) =~= prev + automated_scraper_pattern(ctx));
        } else {
            assert(prev =~= prev + automated_scraper_pattern(ctx));
        }
    }
}

/// Pattern step: concurrent session anomaly.
fn step_shadow_session_pattern(ctx: &RiskContext, c: &mut u8, factors: &mut Vec<Factor>, Ghost(base): Ghost<Seq<FactorView>>, Ghost(prev): Ghost<Seq<Candidate>>)
    requires
        pattern_tracks(*old(c), old(factors)@, base, prev),
    ensures
        pattern_tracks(*final(c), final(factors)@, base, prev + shadow_session_pattern(ctx)),
{
    reveal(shadow_session_pattern);
    if high_concurrency(ctx) && ua_change(ctx) && ctx.known_ip_for_user == Some(false) {
        apply_pattern(c, factors, "shadow_session_pattern", ctx.policy.c_shadow_session, text::owned("Concurrent session anomaly: Multiple IPs and browser mismatch"), Ghost(base), Ghost(prev));
    }
    proof {
        if shadow_session_pattern(ctx).len() == 1 {
            assert(prev.push(shadow_session_pattern(ctx)[0]) =~= prev + shadow_session_pattern(ctx));
        } else {
            assert(prev =~= prev + shadow_session_pattern(ctx));
        }
    }
}

/// Pattern step: anonymised geographic jump.
fn step_travel_anomaly_pattern(ctx: &RiskContext, c: &mut u8, factors: &mut Vec<Factor>, Ghost(base): Ghost<Seq<FactorView>>, Ghost(prev): Ghost<Seq<Candidate>>)
    requires
        pattern_tracks(*old(c), old(factors)@, base, prev),
    ensures
        pattern_tracks(*final(c), final(factors)@, base, prev + travel_anomaly_pattern(ctx)),
{
    reveal(travel_anomaly_pattern);
    if geo_jump(ctx) && (ctx.ip_is_vpn == Some(true) || matches!(ctx.ip_asn_type, Some(AsnType::Vpn))) {
        apply_pattern(c, factors, "travel_anomaly_pattern", ctx.policy.c_travel_anomaly, text::owned("Anonymized location shift: VPN detected during geographic jump"), Ghost(base), Ghost(prev));
    }
    proof {
        if travel_anomaly_pattern(ctx).len() == 1 {
            assert(prev.push(travel_anomaly_pattern(ctx)[0]) =~= prev + travel_anomaly_pattern(ctx));
        } else {
            assert(prev =~= prev + travel_anomaly_pattern(ctx));
        }
    }
}

/// Pattern step: sign-count jump with a browser change.
fn step_cloner_pattern(ctx: &RiskContext, c: &mut u8, factors: &mut Vec<Factor>, Ghost(base): Ghost<Seq<FactorView>>, Ghost(prev): Ghost<Seq<Candidate>>)
    requires
        pattern_tracks(*old(c), old(factors)@, base, prev),
    ensures
        pattern_tracks(*final(c), final(factors)@, base, prev + cloner_pattern(ctx)),
{
    reveal(cloner_pattern);
    if sign_count_jump(ctx) && ua_change(ctx) {
        apply_pattern(c, factors, "credential_cloner_pattern", ctx.policy.c_cloner_pattern, text::owned("Unexpected WebAuthn sign-count jump with browser fingerprint change"), Ghost(base), Ghost(prev));
    }
    proof {
        if cloner_pattern(ctx).len() == 1 {
            assert(prev.push(cloner_pattern(ctx)[0]) =~= prev + cloner_pattern(ctx));
        } else {
            assert(prev =~= prev + cloner_pattern(ctx));
        }
    }
}

/// C component — pattern correlation bonus; appends the factors it reports.
pub fn score_correlation(ctx: &RiskContext, factors: &mut Vec<Factor>) -> (c: u8)
    ensures
        c == spec_score_correlation(ctx).0,
        factors_view(final(factors)@) == factors_view(old(factors)@) + spec_score_correlation(ctx).1,
{
    let ghost base = factors_view(factors@);
    let mut c: u8 = 0;
    proof {
        assert(base + Seq::<FactorView>::empty() =~= base);
    }
    let ghost c0: Seq<Candidate> = Seq::empty();
    step_ato_cluster_pattern(ctx, &mut c, factors, Ghost(base), Ghost(c0));
    let ghost c1 = c0 + ato_cluster_pattern(ctx);
    step_sybil_spree_pattern(ctx, &mut c, factors, Ghost(base), Ghost(c1));
    let ghost c2 = c1 + sybil_spree_pattern(ctx);
    step_automated_scraper_pattern(ctx, &mut c, factors, Ghost(base), Ghost(c2));
    let ghost c3 = c2 + automated_scraper_pattern(ctx);
    step_shadow_session_pattern(ctx, &mut c, factors, Ghost(base), Ghost(c3));
    let ghost c4 = c3 + shadow_session_pattern(ctx);
    step_travel_anomaly_pattern(ctx, &mut c, factors, Ghost(base), Ghost(c4));
    let ghost c5 = c4 + travel_anomaly_pattern(ctx);
    step_cloner_pattern(ctx, &mut c, factors, Ghost(base), Ghost(c5));
    let ghost c6 = c5 + cloner_pattern(ctx);
    if c < ctx.policy.cap_correlation { c } else { ctx.policy.cap_correlation }
}

} // verus!
