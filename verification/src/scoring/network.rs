//! N component: network risk.
use vstd::prelude::*;
use crate::text;
use crate::context::{AsnType, IpValue, RiskContext};
use crate::decision::{Factor, FactorView, ScoreComponent, factors_view};
use crate::scoring::{Candidate, rule, note, spec_fold, tracks, apply_rule, apply_note, names_rule, reports, lemma_names_rule_concat, lemma_fold_reports_only_fired, lemma_fold_reports_fired};

verus! {

/// Private, loopback and link-local ranges: 10/8, 172.16/12, 192.168/16,
/// 127/8, `::1`, fc00::/7 and fe80::/10.
pub open spec fn spec_is_rfc1918(ip: IpValue) -> bool {
    match ip {
        IpValue::V4(v) => {
            let o0 = v / 0x100_0000;
            let o1 = (v / 0x1_0000) % 0x100;
            o0 == 10 || (o0 == 172 && 16 <= o1 <= 31) || (o0 == 192 && o1 == 168) || o0 == 127
        },
        IpValue::V6(v) => {
            let first = v / 0x1_0000_0000_0000_0000_0000_0000_0000;
            v == 1 || (0xfc00 <= first && first <= 0xfdff) || (0xfe80 <= first && first <= 0xfebf)
        },
    }
}

/// Whether an address is in a private, loopback or link-local range.
pub fn is_rfc1918(ip: &IpValue) -> (r: bool)
    ensures
        r == spec_is_rfc1918(*ip),
{
    match ip {
        IpValue::V4(v) => {
            let o0 = *v / 0x100_0000;
            let o1 = (*v / 0x1_0000) % 0x100;
            o0 == 10 || (o0 == 172 && 16 <= o1 && o1 <= 31) || (o0 == 192 && o1 == 168) || o0 == 127
        },
        IpValue::V6(v) => {
            let first = *v / 0x1_0000_0000_0000_0000_0000_0000_0000;
            *v == 1 || (0xfc00 <= first && first <= 0xfdff) || (0xfe80 <= first && first <= 0xfebf)
        },
    }
}

/// Whether `c` is one of `list`.
pub open spec fn strings_contain(list: Seq<String>, c: Seq<char>) -> bool {
    exists|i: int| 0 <= i < list.len() && (#[trigger] list[i])@ == c
}

fn contains_string(list: &Vec<String>, c: &String) -> (r: bool)
    ensures
        r == strings_contain(list@, c@),
{
    let mut i: usize = 0;
    while i < list.len()
        invariant
            i <= list@.len(),
            forall|j: int| 0 <= j < i ==> (#[trigger] list@[j])@ != c@,
        decreases list@.len() - i,
    {
        if list[i] == *c {
            return true;
        }
        i = i + 1;
    }
    false
}

#[verifier::opaque]
pub open spec fn network_asn_rule(ctx: &RiskContext) -> Seq<Candidate> {
    match ctx.ip_asn_type {
        Some(AsnType::Tor) => seq![rule("tor_exit_node"@, ctx.policy.n_tor_exit, "Source IP is a known Tor exit node"@)],
        Some(AsnType::Vpn) => seq![rule("vpn_ip"@, ctx.policy.n_vpn_ip, "Source IP belongs to a known VPN provider"@)],
        Some(AsnType::Proxy) => seq![rule("proxy_ip"@, ctx.policy.n_proxy_ip, "Source IP is a known open/anonymous proxy"@)],
        Some(AsnType::Hosting) => seq![rule("hosting_ip"@, ctx.policy.n_hosting_ip, "Source IP belongs to a web hosting provider"@)],
        Some(AsnType::Datacenter) => seq![rule("datacenter_ip"@, ctx.policy.n_datacenter_ip, "Source IP belongs to a cloud/datacenter ASN (VPS/proxy indicator)"@)],
        Some(AsnType::Relay) => seq![rule("relay_ip"@, ctx.policy.n_relay_ip, "Source IP is a privacy relay (Apple Private Relay / Cloudflare WARP)"@)],
        _ => seq![],
    }
}

#[verifier::opaque]
pub open spec fn network_ip_flagged_vpn_rule(ctx: &RiskContext) -> Seq<Candidate> {
    if ctx.ip_is_vpn == Some(true) && ctx.ip_asn_type != Some(AsnType::Vpn) {
        seq![rule("ip_flagged_vpn"@, ctx.policy.n_flagged_vpn, "IP intelligence feed flagged this IP as VPN (despite non-VPN ASN type)"@)]
    } else {
        seq![]
    }
}

#[verifier::opaque]
pub open spec fn network_ip_flagged_proxy_rule(ctx: &RiskContext) -> Seq<Candidate> {
    if ctx.ip_is_proxy == Some(true) && ctx.ip_asn_type != Some(AsnType::Proxy) {
        seq![rule("ip_flagged_proxy"@, ctx.policy.n_flagged_proxy, "IP intelligence feed flagged this IP as anonymous proxy"@)]
    } else {
        seq![]
    }
}

#[verifier::opaque]
pub open spec fn network_ip_flagged_relay_rule(ctx: &RiskContext) -> Seq<Candidate> {
    if ctx.ip_is_relay == Some(true) && ctx.ip_asn_type != Some(AsnType::Relay) {
        seq![rule("ip_flagged_relay"@, ctx.policy.n_flagged_relay, "IP flagged as privacy relay service"@)]
    } else {
        seq![]
    }
}

#[verifier::opaque]
pub open spec fn network_abuse_rule(ctx: &RiskContext) -> Seq<Candidate> {
    match ctx.ip_abuse_confidence {
        Some(a) => if a >= 80 {
            seq![rule("ip_abuse_confidence"@, ctx.policy.n_abuse_critical,
                "IP abuse confidence "@ + text::decimal(a as nat) + "% — heavily reported"@)]
        } else if a >= 50 {
            seq![rule("ip_abuse_confidence"@, ctx.policy.n_abuse_moderate,
                "IP abuse confidence "@ + text::decimal(a as nat) + "% — moderately reported"@)]
        } else if a >= 25 {
            seq![rule("ip_abuse_confidence"@, ctx.policy.n_abuse_light,
                "IP abuse confidence "@ + text::decimal(a as nat) + "% — lightly reported"@)]
        } else {
            seq![]
        },
        None => seq![],
    }
}

#[verifier::opaque]
pub open spec fn network_internal_note(ctx: &RiskContext) -> Seq<Candidate> {
    match ctx.request_ip {
        Some(ip) => if spec_is_rfc1918(ip.value) {
            seq![note("internal_network"@, "Source IP is within a private (RFC-1918) address range (-5 applied)"@)]
        } else {
            seq![]
        },
        None => seq![],
    }
}

#[verifier::opaque]
pub open spec fn network_travel_rule(ctx: &RiskContext) -> Seq<Candidate> {
    match (ctx.geo_relation, ctx.travel, ctx.last_login_country, ctx.request_country) {
        (Some(g), Some(t), Some(_), Some(_)) => if t.beyond_reach {
            seq![rule("impossible_travel"@, ctx.policy.n_impossible_travel,
                text::decimal(g.distance_km as nat) + "km in "@ + t.elapsed_hours_text@
                    + "h exceeds max possible travel distance ("@ + t.reach_km_text@ + "km)"@)]
        } else if g.beyond_1000_km {
            seq![rule("large_geo_jump"@, ctx.policy.n_geo_jump_large,
                "Login location changed by "@ + text::decimal(g.distance_km as nat) + "km since last session"@)]
        } else if g.beyond_500_km {
            seq![rule("moderate_geo_jump"@, ctx.policy.n_geo_jump_moderate,
                "Login location changed by "@ + text::decimal(g.distance_km as nat) + "km since last session"@)]
        } else {
            seq![]
        },
        _ => seq![],
    }
}

#[verifier::opaque]
pub open spec fn network_country_rule(ctx: &RiskContext) -> Seq<Candidate> {
    match (ctx.geo_relation, ctx.travel, ctx.last_login_country, ctx.request_country) {
        (Some(_), Some(_), Some(a), Some(b)) => if a@ != b@ {
            seq![rule("country_change"@, ctx.policy.n_country_change,
                "Country changed from "@ + a@ + " to "@ + b@ + " since last login"@)]
        } else {
            seq![]
        },
        _ => seq![],
    }
}

#[verifier::opaque]
pub open spec fn network_allowlist_rule(ctx: &RiskContext) -> Seq<Candidate> {
    match (ctx.geo_allowed_countries, ctx.request_country) {
        (Some(allowed), Some(c)) => if allowed@.len() > 0 && !strings_contain(allowed@, c@) {
            seq![rule("geo_not_in_allowlist"@, ctx.policy.n_geo_not_allowed,
                "Request from "@ + c@ + " which is not in the allowed country list"@)]
        } else {
            seq![]
        },
        _ => seq![],
    }
}

#[verifier::opaque]
pub open spec fn network_ip_history_rule(ctx: &RiskContext) -> Seq<Candidate> {
    match ctx.known_ip_for_user {
        Some(false) => seq![rule("unknown_ip_for_user"@, ctx.policy.n_unknown_ip_user,
            "IP address has never been seen for this user"@)],
        None => match (ctx.request_ip, ctx.last_login_ip) {
            (Some(req), Some(last)) => if req.value != last.value {
                seq![rule("new_ip_address"@, ctx.policy.n_new_ip_history,
                    "IP "@ + req.text@ + " not seen in recent login history (last: "@ + last.text@ + ")"@)]
            } else {
                seq![]
            },
            (Some(_), None) => seq![rule("no_ip_history"@, ctx.policy.n_no_ip_history,
                "No prior login IP on record for this user"@)],
            _ => seq![],
        },
        Some(true) => seq![],
    }
}

/// The network rules that fire, in evaluation order.
pub open spec fn network_rules(ctx: &RiskContext) -> Seq<Candidate> {
    Seq::empty() + network_asn_rule(ctx) + network_ip_flagged_vpn_rule(ctx) + network_ip_flagged_proxy_rule(ctx) + network_ip_flagged_relay_rule(ctx) + network_abuse_rule(ctx) + network_internal_note(ctx) + network_travel_rule(ctx) + network_country_rule(ctx) + network_allowlist_rule(ctx) + network_ip_history_rule(ctx)
}

/// The country is listed (compared as text).
pub open spec fn lists_country(allowed: Seq<String>, c: Seq<char>) -> bool {
    exists|i: int| 0 <= i < allowed.len() && (#[trigger] allowed[i])@ == c
}

/// No rule but the allow-list rule is named like it (the other rule names all
/// differ from it in length).
proof fn lemma_only_allowlist_rule_named(ctx: &RiskContext)
    ensures
        !names_rule(network_asn_rule(ctx), "geo_not_in_allowlist"@),
        !names_rule(network_ip_flagged_vpn_rule(ctx), "geo_not_in_allowlist"@),
        !names_rule(network_ip_flagged_proxy_rule(ctx), "geo_not_in_allowlist"@),
        !names_rule(network_ip_flagged_relay_rule(ctx), "geo_not_in_allowlist"@),
        !names_rule(network_abuse_rule(ctx), "geo_not_in_allowlist"@),
        !names_rule(network_internal_note(ctx), "geo_not_in_allowlist"@),
        !names_rule(network_travel_rule(ctx), "geo_not_in_allowlist"@),
        !names_rule(network_country_rule(ctx), "geo_not_in_allowlist"@),
        !names_rule(network_ip_history_rule(ctx), "geo_not_in_allowlist"@),
{
    reveal(network_asn_rule);
    reveal(network_ip_flagged_vpn_rule);
    reveal(network_ip_flagged_proxy_rule);
    reveal(network_ip_flagged_relay_rule);
    reveal(network_abuse_rule);
    reveal(network_internal_note);
    reveal(network_travel_rule);
    reveal(network_country_rule);
    reveal(network_ip_history_rule);
    reveal_strlit("geo_not_in_allowlist");
    reveal_strlit("tor_exit_node");
    reveal_strlit("vpn_ip");
    reveal_strlit("proxy_ip");
    reveal_strlit("hosting_ip");
    reveal_strlit("datacenter_ip");
    reveal_strlit("relay_ip");
    reveal_strlit("ip_flagged_vpn");
    reveal_strlit("ip_flagged_proxy");
    reveal_strlit("ip_flagged_relay");
    reveal_strlit("ip_abuse_confidence");
    reveal_strlit("internal_network");
    reveal_strlit("impossible_travel");
    reveal_strlit("large_geo_jump");
    reveal_strlit("moderate_geo_jump");
    reveal_strlit("country_change");
    reveal_strlit("unknown_ip_for_user");
    reveal_strlit("new_ip_address");
    reveal_strlit("no_ip_history");
    let n = "geo_not_in_allowlist"@;
    assert(n.len() == 20);
    let subs = seq![network_asn_rule(ctx), network_ip_flagged_vpn_rule(ctx), network_ip_flagged_proxy_rule(ctx),
        network_ip_flagged_relay_rule(ctx), network_abuse_rule(ctx), network_internal_note(ctx),
        network_travel_rule(ctx), network_country_rule(ctx), network_ip_history_rule(ctx)];
    assert forall|k: int, j: int| 0 <= k < 9 && 0 <= j < subs[k].len() implies (#[trigger] subs[k][j]).name.len() != 20 by {}
    assert forall|k: int| 0 <= k < 9 implies !names_rule(#[trigger] subs[k], n) by {
        if names_rule(subs[k], n) {
            let j = choose|j: int| 0 <= j < subs[k].len() && #[trigger] subs[k][j].name == n;
            assert(subs[k][j].name.len() != 20);
        }
    }
    assert(subs[0] == network_asn_rule(ctx));
    assert(subs[1] == network_ip_flagged_vpn_rule(ctx));
    assert(subs[2] == network_ip_flagged_proxy_rule(ctx));
    assert(subs[3] == network_ip_flagged_relay_rule(ctx));
    assert(subs[4] == network_abuse_rule(ctx));
    assert(subs[5] == network_internal_note(ctx));
    assert(subs[6] == network_travel_rule(ctx));
    assert(subs[7] == network_country_rule(ctx));
    assert(subs[8] == network_ip_history_rule(ctx));
}

/// The geo allow-list factor is reported only when the context carries a
/// non-empty allow-list and a request country that the list does not hold:
/// a listed country never gets it. When the country is missing from a
/// non-empty list, the factor is reported unless the network points already
/// reached their cap (or the rule's weight is zero).
pub proof fn lemma_allowlist_factor_iff_unlisted(ctx: &RiskContext)
    ensures
        reports(spec_score_network(ctx).1, "geo_not_in_allowlist"@) ==>
            (ctx.geo_allowed_countries matches Some(allowed) && ctx.request_country matches Some(c)
                && allowed@.len() > 0 && !lists_country(allowed@, c@)),
        (ctx.geo_allowed_countries matches Some(allowed) && ctx.request_country matches Some(c)
            && allowed@.len() > 0 && !lists_country(allowed@, c@) && ctx.policy.n_geo_not_allowed > 0) ==>
            reports(spec_score_network(ctx).1, "geo_not_in_allowlist"@)
            || spec_network_points(ctx).0 == ctx.policy.cap_network,
{
    let n = "geo_not_in_allowlist"@;
    reveal(network_allowlist_rule);
    lemma_only_allowlist_rule_named(ctx);
    let e = Seq::<Candidate>::empty();
    let p1 = e + network_asn_rule(ctx);
    let p2 = p1 + network_ip_flagged_vpn_rule(ctx);
    let p3 = p2 + network_ip_flagged_proxy_rule(ctx);
    let p4 = p3 + network_ip_flagged_relay_rule(ctx);
    let p5 = p4 + network_abuse_rule(ctx);
    let p6 = p5 + network_internal_note(ctx);
    let p7 = p6 + network_travel_rule(ctx);
    let p8 = p7 + network_country_rule(ctx);
    let p9 = p8 + network_allowlist_rule(ctx);
    let rules = p9 + network_ip_history_rule(ctx);
    assert(rules == network_rules(ctx));
    assert(!names_rule(e, n));
    lemma_names_rule_concat(e, network_asn_rule(ctx), n);
    lemma_names_rule_concat(p1, network_ip_flagged_vpn_rule(ctx), n);
    lemma_names_rule_concat(p2, network_ip_flagged_proxy_rule(ctx), n);
    lemma_names_rule_concat(p3, network_ip_flagged_relay_rule(ctx), n);
    lemma_names_rule_concat(p4, network_abuse_rule(ctx), n);
    lemma_names_rule_concat(p5, network_internal_note(ctx), n);
    lemma_names_rule_concat(p6, network_travel_rule(ctx), n);
    lemma_names_rule_concat(p7, network_country_rule(ctx), n);
    lemma_names_rule_concat(p8, network_allowlist_rule(ctx), n);
    lemma_names_rule_concat(p9, network_ip_history_rule(ctx), n);
    lemma_fold_reports_only_fired(rules, ctx.policy.cap_network, ScoreComponent::Network, 0, n);
    let al = network_allowlist_rule(ctx);
    if names_rule(al, n) {
        let j = choose|j: int| 0 <= j < al.len() && #[trigger] al[j].name == n;
        assert(al.len() > 0);
    }
    if al.len() > 0 {
        assert(al[0].name == n);
        assert(al[0].weight == ctx.policy.n_geo_not_allowed);
        assert(rules[p8.len() as int] == al[0]);
        if ctx.policy.n_geo_not_allowed > 0 {
            lemma_fold_reports_fired(rules, ctx.policy.cap_network, ScoreComponent::Network, 0, p8.len() as int);
        }
    }
}

/// The points subtracted for a private-range source address.
pub open spec fn trusted_bonus(ctx: &RiskContext) -> u8 {
    match ctx.request_ip {
        Some(ip) => if spec_is_rfc1918(ip.value) { ctx.policy.n_rfc1918_bonus } else { 0 },
        None => 0,
    }
}

/// The N component and the factors it reports: the capped rule points minus
/// the private-network bonus, floored at zero.
pub open spec fn spec_score_network(ctx: &RiskContext) -> (u8, Seq<FactorView>) {
    let (n, fs) = spec_fold(network_rules(ctx), ctx.policy.cap_network, ScoreComponent::Network, 0);
    (if n >= trusted_bonus(ctx) { (n - trusted_bonus(ctx)) as u8 } else { 0 }, fs)
}

/// The capped rule points of the N component, before the bonus.
pub open spec fn spec_network_points(ctx: &RiskContext) -> (u8, Seq<FactorView>) {
    spec_fold(network_rules(ctx), ctx.policy.cap_network, ScoreComponent::Network, 0)
}

/// Rule step: ASN classification.
fn step_network_asn_rule(ctx: &RiskContext, score: &mut u8, factors: &mut Vec<Factor>, Ghost(base): Ghost<Seq<FactorView>>, Ghost(prev): Ghost<Seq<Candidate>>)
    requires
        tracks(*old(score), old(factors)@, base, prev, ctx.policy.cap_network, ScoreComponent::Network, 0),
    ensures
        tracks(*final(score), final(factors)@, base, prev + network_asn_rule(ctx), ctx.policy.cap_network, ScoreComponent::Network, 0),
{
    reveal(network_asn_rule);
    let cap = ctx.policy.cap_network;
    let p = &ctx.policy;
    let comp = ScoreComponent::Network;
    match ctx.ip_asn_type {
        Some(AsnType::Tor) => {
            apply_rule(score, cap, comp, factors, "tor_exit_node", p.n_tor_exit,
                text::owned("Source IP is a known Tor exit node"), Ghost(base), Ghost(prev), Ghost(0));
        },
        Some(AsnType::Vpn) => {
            apply_rule(score, cap, comp, factors, "vpn_ip", p.n_vpn_ip,
                text::owned("Source IP belongs to a known VPN provider"), Ghost(base), Ghost(prev), Ghost(0));
        },
        Some(AsnType::Proxy) => {
            apply_rule(score, cap, comp, factors, "proxy_ip", p.n_proxy_ip,
                text::owned("Source IP is a known open/anonymous proxy"), Ghost(base), Ghost(prev), Ghost(0));
        },
        Some(AsnType::Hosting) => {
            apply_rule(score, cap, comp, factors, "hosting_ip", p.n_hosting_ip,
                text::owned("Source IP belongs to a web hosting provider"), Ghost(base), Ghost(prev), Ghost(0));
        },
        Some(AsnType::Datacenter) => {
            apply_rule(score, cap, comp, factors, "datacenter_ip", p.n_datacenter_ip,
                text::owned("Source IP belongs to a cloud/datacenter ASN (VPS/proxy indicator)"), Ghost(base), Ghost(prev), Ghost(0));
        },
        Some(AsnType::Relay) => {
            apply_rule(score, cap, comp, factors, "relay_ip", p.n_relay_ip,
                text::owned("Source IP is a privacy relay (Apple Private Relay / Cloudflare WARP)"), Ghost(base), Ghost(prev), Ghost(0));
        },
        _ => {},
    }
    proof {
        if network_asn_rule(ctx).len() == 1 {
            assert(prev.push(network_asn_rule(ctx)[0]) =~= prev + network_asn_rule(ctx));
        } else {
            assert(prev =~= prev + network_asn_rule(ctx));
        }
    }
}

/// Rule step: ip_is_vpn flag.
fn step_network_ip_flagged_vpn_rule(ctx: &RiskContext, score: &mut u8, factors: &mut Vec<Factor>, Ghost(base): Ghost<Seq<FactorView>>, Ghost(prev): Ghost<Seq<Candidate>>)
    requires
        tracks(*old(score), old(factors)@, base, prev, ctx.policy.cap_network, ScoreComponent::Network, 0),
    ensures
        tracks(*final(score), final(factors)@, base, prev + network_ip_flagged_vpn_rule(ctx), ctx.policy.cap_network, ScoreComponent::Network, 0),
{
    reveal(network_ip_flagged_vpn_rule);
    let cap = ctx.policy.cap_network;
    let p = &ctx.policy;
    let comp = ScoreComponent::Network;
    if ctx.ip_is_vpn == Some(true) && !matches!(ctx.ip_asn_type, Some(AsnType::Vpn)) {
        apply_rule(score, cap, comp, factors, "ip_flagged_vpn", p.n_flagged_vpn,
            text::owned("IP intelligence feed flagged this IP as VPN (despite non-VPN ASN type)"), Ghost(base), Ghost(prev), Ghost(0));
    }
    proof {
        if network_ip_flagged_vpn_rule(ctx).len() == 1 {
            assert(prev.push(network_ip_flagged_vpn_rule(ctx)[0]) =~= prev + network_ip_flagged_vpn_rule(ctx));
        } else {
            assert(prev =~= prev + network_ip_flagged_vpn_rule(ctx));
        }
    }
}

/// Rule step: ip_is_proxy flag.
fn step_network_ip_flagged_proxy_rule(ctx: &RiskContext, score: &mut u8, factors: &mut Vec<Factor>, Ghost(base): Ghost<Seq<FactorView>>, Ghost(prev): Ghost<Seq<Candidate>>)
    requires
        tracks(*old(score), old(factors)@, base, prev, ctx.policy.cap_network, ScoreComponent::Network, 0),
    ensures
        tracks(*final(score), final(factors)@, base, prev + network_ip_flagged_proxy_rule(ctx), ctx.policy.cap_network, ScoreComponent::Network, 0),
{
    reveal(network_ip_flagged_proxy_rule);
    let cap = ctx.policy.cap_network;
    let p = &ctx.policy;
    let comp = ScoreComponent::Network;
    if ctx.ip_is_proxy == Some(true) && !matches!(ctx.ip_asn_type, Some(AsnType::Proxy)) {
        apply_rule(score, cap, comp, factors, "ip_flagged_proxy", p.n_flagged_proxy,
            text::owned("IP intelligence feed flagged this IP as anonymous proxy"), Ghost(base), Ghost(prev), Ghost(0));
    }
    proof {
        if network_ip_flagged_proxy_rule(ctx).len() == 1 {
            assert(prev.push(network_ip_flagged_proxy_rule(ctx)[0]) =~= prev + network_ip_flagged_proxy_rule(ctx));
        } else {
            assert(prev =~= prev + network_ip_flagged_proxy_rule(ctx));
        }
    }
}

/// Rule step: ip_is_relay flag.
fn step_network_ip_flagged_relay_rule(ctx: &RiskContext, score: &mut u8, factors: &mut Vec<Factor>, Ghost(base): Ghost<Seq<FactorView>>, Ghost(prev): Ghost<Seq<Candidate>>)
    requires
        tracks(*old(score), old(factors)@, base, prev, ctx.policy.cap_network, ScoreComponent::Network, 0),
    ensures
        tracks(*final(score), final(factors)@, base, prev + network_ip_flagged_relay_rule(ctx), ctx.policy.cap_network, ScoreComponent::Network, 0),
{
    reveal(network_ip_flagged_relay_rule);
    let cap = ctx.policy.cap_network;
    let p = &ctx.policy;
    let comp = ScoreComponent::Network;
    if ctx.ip_is_relay == Some(true) && !matches!(ctx.ip_asn_type, Some(AsnType::Relay)) {
        apply_rule(score, cap, comp, factors, "ip_flagged_relay", p.n_flagged_relay,
            text::owned("IP flagged as privacy relay service"), Ghost(base), Ghost(prev), Ghost(0));
    }
    proof {
        if network_ip_flagged_relay_rule(ctx).len() == 1 {
            assert(prev.push(network_ip_flagged_relay_rule(ctx)[0]) =~= prev + network_ip_flagged_relay_rule(ctx));
        } else {
            assert(prev =~= prev + network_ip_flagged_relay_rule(ctx));
        }
    }
}

/// Rule step: abuse confidence.
fn step_network_abuse_rule(ctx: &RiskContext, score: &mut u8, factors: &mut Vec<Factor>, Ghost(base): Ghost<Seq<FactorView>>, Ghost(prev): Ghost<Seq<Candidate>>)
    requires
        tracks(*old(score), old(factors)@, base, prev, ctx.policy.cap_network, ScoreComponent::Network, 0),
    ensures
        tracks(*final(score), final(factors)@, base, prev + network_abuse_rule(ctx), ctx.policy.cap_network, ScoreComponent::Network, 0),
{
    reveal(network_abuse_rule);
    let cap = ctx.policy.cap_network;
    let p = &ctx.policy;
    let comp = ScoreComponent::Network;
    if let Some(a) = ctx.ip_abuse_confidence {
        if a >= 80 {
            apply_rule(score, cap, comp, factors, "ip_abuse_confidence", p.n_abuse_critical,
                text::with_number("IP abuse confidence ", a as u64, "% — heavily reported"), Ghost(base), Ghost(prev), Ghost(0));
        } else if a >= 50 {
            apply_rule(score, cap, comp, factors, "ip_abuse_confidence", p.n_abuse_moderate,
                text::with_number("IP abuse confidence ", a as u64, "% — moderately reported"), Ghost(base), Ghost(prev), Ghost(0));
        } else if a >= 25 {
            apply_rule(score, cap, comp, factors, "ip_abuse_confidence", p.n_abuse_light,
                text::with_number("IP abuse confidence ", a as u64, "% — lightly reported"), Ghost(base), Ghost(prev), Ghost(0));
        }
    }
    proof {
        if network_abuse_rule(ctx).len() == 1 {
            assert(prev.push(network_abuse_rule(ctx)[0]) =~= prev + network_abuse_rule(ctx));
        } else {
            assert(prev =~= prev + network_abuse_rule(ctx));
        }
    }
}

/// Rule step: trusted internal network (a zero-contribution note).
fn step_network_internal_note(ctx: &RiskContext, score: &mut u8, factors: &mut Vec<Factor>, Ghost(base): Ghost<Seq<FactorView>>, Ghost(prev): Ghost<Seq<Candidate>>)
    requires
        tracks(*old(score), old(factors)@, base, prev, ctx.policy.cap_network, ScoreComponent::Network, 0),
    ensures
        tracks(*final(score), final(factors)@, base, prev + network_internal_note(ctx), ctx.policy.cap_network, ScoreComponent::Network, 0),
        *final(score) == *old(score),
{
    reveal(network_internal_note);
    if let Some(ip) = &ctx.request_ip {
        if is_rfc1918(&ip.value) {
            apply_note(score, ScoreComponent::Network, factors, "internal_network",
                text::owned("Source IP is within a private (RFC-1918) address range (-5 applied)"),
                Ghost(ctx.policy.cap_network), Ghost(base), Ghost(prev), Ghost(0));
        }
    }
    proof {
        if network_internal_note(ctx).len() == 1 {
            assert(prev.push(network_internal_note(ctx)[0]) =~= prev + network_internal_note(ctx));
        } else {
            assert(prev =~= prev + network_internal_note(ctx));
        }
    }
}

/// Rule step: distance from the last login.
fn step_network_travel_rule(ctx: &RiskContext, score: &mut u8, factors: &mut Vec<Factor>, Ghost(base): Ghost<Seq<FactorView>>, Ghost(prev): Ghost<Seq<Candidate>>)
    requires
        tracks(*old(score), old(factors)@, base, prev, ctx.policy.cap_network, ScoreComponent::Network, 0),
    ensures
        tracks(*final(score), final(factors)@, base, prev + network_travel_rule(ctx), ctx.policy.cap_network, ScoreComponent::Network, 0),
{
    reveal(network_travel_rule);
    let cap = ctx.policy.cap_network;
    let p = &ctx.policy;
    let comp = ScoreComponent::Network;
    if let (Some(g), Some(t), Some(_), Some(_)) = (&ctx.geo_relation, &ctx.travel, &ctx.last_login_country, &ctx.request_country) {
        if t.beyond_reach {
            let km = text::decimal_string(g.distance_km as u64);
            let desc = text::concat5(km.as_str(), "km in ", t.elapsed_hours_text.as_str(),
                "h exceeds max possible travel distance (", t.reach_km_text.as_str());
            let mut desc = desc;
            text::push_str(&mut desc, "km)");
            apply_rule(score, cap, comp, factors, "impossible_travel", p.n_impossible_travel,
                desc, Ghost(base), Ghost(prev), Ghost(0));
        } else if g.beyond_1000_km {
            apply_rule(score, cap, comp, factors, "large_geo_jump", p.n_geo_jump_large,
                text::with_number("Login location changed by ", g.distance_km as u64, "km since last session"), Ghost(base), Ghost(prev), Ghost(0));
        } else if g.beyond_500_km {
            apply_rule(score, cap, comp, factors, "moderate_geo_jump", p.n_geo_jump_moderate,
                text::with_number("Login location changed by ", g.distance_km as u64, "km since last session"), Ghost(base), Ghost(prev), Ghost(0));
        }
    }
    proof {
        if network_travel_rule(ctx).len() == 1 {
            assert(prev.push(network_travel_rule(ctx)[0]) =~= prev + network_travel_rule(ctx));
        } else {
            assert(prev =~= prev + network_travel_rule(ctx));
        }
    }
}

/// Rule step: country change since the last login.
fn step_network_country_rule(ctx: &RiskContext, score: &mut u8, factors: &mut Vec<Factor>, Ghost(base): Ghost<Seq<FactorView>>, Ghost(prev): Ghost<Seq<Candidate>>)
    requires
        tracks(*old(score), old(factors)@, base, prev, ctx.policy.cap_network, ScoreComponent::Network, 0),
    ensures
        tracks(*final(score), final(factors)@, base, prev + network_country_rule(ctx), ctx.policy.cap_network, ScoreComponent::Network, 0),
{
    reveal(network_country_rule);
    let cap = ctx.policy.cap_network;
    let p = &ctx.policy;
    let comp = ScoreComponent::Network;
    if let (Some(_), Some(_), Some(a), Some(b)) = (&ctx.geo_relation, &ctx.travel, &ctx.last_login_country, &ctx.request_country) {
        if !(*a == *b) {
            let mut desc = text::concat5("Country changed from ", a.as_str(), " to ", b.as_str(), " since last login");
            apply_rule(score, cap, comp, factors, "country_change", p.n_country_change,
                desc, Ghost(base), Ghost(prev), Ghost(0));
        }
    }
    proof {
        if network_country_rule(ctx).len() == 1 {
            assert(prev.push(network_country_rule(ctx)[0]) =~= prev + network_country_rule(ctx));
        } else {
            assert(prev =~= prev + network_country_rule(ctx));
        }
    }
}

/// Rule step: country allow-list.
fn step_network_allowlist_rule(ctx: &RiskContext, score: &mut u8, factors: &mut Vec<Factor>, Ghost(base): Ghost<Seq<FactorView>>, Ghost(prev): Ghost<Seq<Candidate>>)
    requires
        tracks(*old(score), old(factors)@, base, prev, ctx.policy.cap_network, ScoreComponent::Network, 0),
    ensures
        tracks(*final(score), final(factors)@, base, prev + network_allowlist_rule(ctx), ctx.policy.cap_network, ScoreComponent::Network, 0),
{
    reveal(network_allowlist_rule);
    let cap = ctx.policy.cap_network;
    let p = &ctx.policy;
    let comp = ScoreComponent::Network;
    if let (Some(allowed), Some(c)) = (&ctx.geo_allowed_countries, &ctx.request_country) {
        if allowed.len() > 0 && !contains_string(allowed, c) {
            apply_rule(score, cap, comp, factors, "geo_not_in_allowlist", p.n_geo_not_allowed,
                text::concat3("Request from ", c.as_str(), " which is not in the allowed country list"), Ghost(base), Ghost(prev), Ghost(0));
        }
    }
    proof {
        if network_allowlist_rule(ctx).len() == 1 {
            assert(prev.push(network_allowlist_rule(ctx)[0]) =~= prev + network_allowlist_rule(ctx));
        } else {
            assert(prev =~= prev + network_allowlist_rule(ctx));
        }
    }
}

/// Rule step: IP history for this user.
fn step_network_ip_history_rule(ctx: &RiskContext, score: &mut u8, factors: &mut Vec<Factor>, Ghost(base): Ghost<Seq<FactorView>>, Ghost(prev): Ghost<Seq<Candidate>>)
    requires
        tracks(*old(score), old(factors)@, base, prev, ctx.policy.cap_network, ScoreComponent::Network, 0),
    ensures
        tracks(*final(score), final(factors)@, base, prev + network_ip_history_rule(ctx), ctx.policy.cap_network, ScoreComponent::Network, 0),
{
    reveal(network_ip_history_rule);
    let cap = ctx.policy.cap_network;
    let p = &ctx.policy;
    let comp = ScoreComponent::Network;
    match ctx.known_ip_for_user {
        Some(false) => {
            apply_rule(score, cap, comp, factors, "unknown_ip_for_user", p.n_unknown_ip_user,
                text::owned("IP address has never been seen for this user"), Ghost(base), Ghost(prev), Ghost(0));
        },
        None => {
            if let (Some(req), Some(last)) = (&ctx.request_ip, &ctx.last_login_ip) {
                if req.value != last.value {
                    let mut desc = text::concat5("IP ", req.text.as_str(), " not seen in recent login history (last: ", last.text.as_str(), ")");
                    apply_rule(score, cap, comp, factors, "new_ip_address", p.n_new_ip_history,
                        desc, Ghost(base), Ghost(prev), Ghost(0));
                }
            } else if ctx.request_ip.is_some() && ctx.last_login_ip.is_none() {
                apply_rule(score, cap, comp, factors, "no_ip_history", p.n_no_ip_history,
                    text::owned("No prior login IP on record for this user"), Ghost(base), Ghost(prev), Ghost(0));
            }
        },
        Some(true) => {},
    }
    proof {
        if network_ip_history_rule(ctx).len() == 1 {
            assert(prev.push(network_ip_history_rule(ctx)[0]) =~= prev + network_ip_history_rule(ctx));
        } else {
            assert(prev =~= prev + network_ip_history_rule(ctx));
        }
    }
}

/// The N component before the private-network bonus.
pub fn score_network_points(ctx: &RiskContext, factors: &mut Vec<Factor>) -> (score: u8)
    ensures
        score == spec_network_points(ctx).0,
        factors_view(final(factors)@) == factors_view(old(factors)@) + spec_network_points(ctx).1,
{
    let ghost base = factors_view(factors@);
    let mut score: u8 = 0;
    proof {
        assert(base + Seq::<FactorView>::empty() =~= base);
    }
    let ghost c0: Seq<Candidate> = Seq::empty();
    step_network_asn_rule(ctx, &mut score, factors, Ghost(base), Ghost(c0));
    let ghost c1 = c0 + network_asn_rule(ctx);
    step_network_ip_flagged_vpn_rule(ctx, &mut score, factors, Ghost(base), Ghost(c1));
    let ghost c2 = c1 + network_ip_flagged_vpn_rule(ctx);
    step_network_ip_flagged_proxy_rule(ctx, &mut score, factors, Ghost(base), Ghost(c2));
    let ghost c3 = c2 + network_ip_flagged_proxy_rule(ctx);
    step_network_ip_flagged_relay_rule(ctx, &mut score, factors, Ghost(base), Ghost(c3));
    let ghost c4 = c3 + network_ip_flagged_relay_rule(ctx);
    step_network_abuse_rule(ctx, &mut score, factors, Ghost(base), Ghost(c4));
    let ghost c5 = c4 + network_abuse_rule(ctx);
    step_network_internal_note(ctx, &mut score, factors, Ghost(base), Ghost(c5));
    let ghost c6 = c5 + network_internal_note(ctx);
    step_network_travel_rule(ctx, &mut score, factors, Ghost(base), Ghost(c6));
    let ghost c7 = c6 + network_travel_rule(ctx);
    step_network_country_rule(ctx, &mut score, factors, Ghost(base), Ghost(c7));
    let ghost c8 = c7 + network_country_rule(ctx);
    step_network_allowlist_rule(ctx, &mut score, factors, Ghost(base), Ghost(c8));
    let ghost c9 = c8 + network_allowlist_rule(ctx);
    step_network_ip_history_rule(ctx, &mut score, factors, Ghost(base), Ghost(c9));
    let ghost c10 = c9 + network_ip_history_rule(ctx);
    score
}

/// N component — network risk score; appends the factors it reports.
pub fn score_network(ctx: &RiskContext, factors: &mut Vec<Factor>) -> (n: u8)
    ensures
        n == spec_score_network(ctx).0,
        factors_view(final(factors)@) == factors_view(old(factors)@) + spec_score_network(ctx).1,
{
    let points = score_network_points(ctx, factors);
    let bonus: u8 = match &ctx.request_ip {
        Some(ip) => if is_rfc1918(&ip.value) { ctx.policy.n_rfc1918_bonus } else { 0 },
        None => 0,
    };
    points.saturating_sub(bonus)
}

} // verus!
